use vstd::prelude::*;

use crate::gfx::ImageSource;

verus! {

/// Hides a border of another image: every pixel within `amount_x` (`amount_y`)
/// of the left or right (top or bottom) edge, the edge pixel included, is transparent.
pub struct TruncatingFilter<'a, S: ImageSource> {
    inner: &'a S,
    amount_x: usize,
    amount_y: usize,
}

impl<'a, S: ImageSource> TruncatingFilter<'a, S> {
    /// The filtered image.
    pub closed spec fn source(&self) -> &'a S {
        self.inner
    }

    /// Width of the hidden border at the left and right.
    pub closed spec fn cut_x(&self) -> usize {
        self.amount_x
    }

    /// Height of the hidden border at the top and bottom.
    pub closed spec fn cut_y(&self) -> usize {
        self.amount_y
    }

    /// Whether the pixel lies in the hidden border.
    pub open spec fn hidden(&self, position: (usize, usize)) -> bool {
        let w = self.source().image_width();
        let h = self.source().image_height();
        ||| position.0 <= self.cut_x()
        ||| w - position.0 - 1 <= self.cut_x()
        ||| position.1 <= self.cut_y()
        ||| h - position.1 - 1 <= self.cut_y()
    }

    pub fn new(source: &'a S, amount_x: usize, amount_y: usize) -> (r: Self)
        ensures
            r.source() == source,
            r.cut_x() == amount_x,
            r.cut_y() == amount_y,
    {
        Self { inner: source, amount_x, amount_y }
    }
}

impl<'a, S: ImageSource> ImageSource for TruncatingFilter<'a, S> {
    open spec fn pixel(&self, position: (usize, usize)) -> Option<u32> {
        if self.hidden(position) {
            None
        } else {
            self.source().pixel(position)
        }
    }

    /// The checks of the border do not leave the image, and a pixel outside the
    /// border can be read.
    open spec fn readable(&self, position: (usize, usize)) -> bool {
        let w = self.source().image_width();
        let h = self.source().image_height();
        ||| position.0 <= self.cut_x()
        ||| position.0 < w && (w - position.0 - 1 <= self.cut_x() || position.1 <= self.cut_y() || (
        position.1 < h && (h - position.1 - 1 <= self.cut_y() || self.source().readable(position))))
    }

    open spec fn image_width(&self) -> usize {
        self.source().image_width()
    }

    open spec fn image_height(&self) -> usize {
        self.source().image_height()
    }

    fn get_pixel_rgb(&self, position: (usize, usize)) -> (r: Option<u32>) {
        if position.0 <= self.amount_x || self.width() - position.0 - 1 <= self.amount_x {
            None
        } else if position.1 <= self.amount_y || self.height() - position.1 - 1 <= self.amount_y {
            None
        } else {
            self.inner.get_pixel_rgb(position)
        }
    }

    fn width(&self) -> (r: usize) {
        self.inner.width()
    }

    fn height(&self) -> (r: usize) {
        self.inner.height()
    }
}

} // verus!

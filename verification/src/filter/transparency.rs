use vstd::prelude::*;

use crate::gfx::ImageSource;

verus! {

/// Makes one color of another image transparent.
pub struct TransparencyFilter<'a, S: ImageSource> {
    inner: &'a S,
    color: u32,
}

impl<'a, S: ImageSource> TransparencyFilter<'a, S> {
    /// The filtered image.
    pub closed spec fn source(&self) -> &'a S {
        self.inner
    }

    /// The color that becomes transparent.
    pub closed spec fn key(&self) -> u32 {
        self.color
    }

    pub fn new(source: &'a S, color: u32) -> (r: Self)
        ensures
            r.source() == source,
            r.key() == color,
    {
        Self { inner: source, color }
    }
}

impl<'a, S: ImageSource> ImageSource for TransparencyFilter<'a, S> {
    open spec fn pixel(&self, position: (usize, usize)) -> Option<u32> {
        match self.source().pixel(position) {
            Some(r) => if r == self.key() {
                None
            } else {
                Some(r)
            },
            None => None,
        }
    }

    open spec fn readable(&self, position: (usize, usize)) -> bool {
        self.source().readable(position)
    }

    open spec fn image_width(&self) -> usize {
        self.source().image_width()
    }

    open spec fn image_height(&self) -> usize {
        self.source().image_height()
    }

    fn get_pixel_rgb(&self, position: (usize, usize)) -> (r: Option<u32>) {
        match self.inner.get_pixel_rgb(position) {
            Some(r) => if r == self.color {
                None
            } else {
                Some(r)
            },
            None => None,
        }
    }

    fn width(&self) -> (r: usize) {
        self.inner.width()
    }

    fn height(&self) -> (r: usize) {
        self.inner.height()
    }
}

} // verus!

use vstd::prelude::*;

use crate::gfx::ImageSource;

verus! {

/// Clockwise rotation by a multiple of 90 degrees.
#[derive(Copy, Clone, PartialEq, Eq, Structural, Debug)]
pub enum Rotation {
    Rotate0,
    Rotate90,
    Rotate180,
    Rotate270,
}

/// Shows another image rotated.
pub struct RotatingFilter<'a, S: ImageSource> {
    inner: &'a S,
    rotation: Rotation,
}

impl<'a, S: ImageSource> RotatingFilter<'a, S> {
    /// The filtered image.
    pub closed spec fn source(&self) -> &'a S {
        self.inner
    }

    /// The rotation applied.
    pub closed spec fn turn(&self) -> Rotation {
        self.rotation
    }

    /// The position of the inner image shown at `position`.
    pub open spec fn inner_position(&self, position: (usize, usize)) -> (usize, usize) {
        let w = self.image_width();
        let h = self.image_height();
        match self.turn() {
            Rotation::Rotate0 => position,
            Rotation::Rotate90 => (position.1, (w - position.0 - 1) as usize),
            Rotation::Rotate180 => ((w - position.0 - 1) as usize, (h - position.1 - 1) as usize),
            Rotation::Rotate270 => ((h - position.1 - 1) as usize, position.0),
        }
    }

    pub fn new(source: &'a S, rotation: Rotation) -> (r: Self)
        ensures
            r.source() == source,
            r.turn() == rotation,
    {
        Self { inner: source, rotation }
    }
}

impl<'a, S: ImageSource> ImageSource for RotatingFilter<'a, S> {
    open spec fn pixel(&self, position: (usize, usize)) -> Option<u32> {
        self.source().pixel(self.inner_position(position))
    }

    /// The position lies inside the image along the directions that are
    /// reversed, and the inner pixel can be read.
    open spec fn readable(&self, position: (usize, usize)) -> bool {
        let w = self.image_width();
        let h = self.image_height();
        &&& (self.turn() == Rotation::Rotate90 ==> position.0 < w)
        &&& (self.turn() == Rotation::Rotate180 ==> position.0 < w && position.1 < h)
        &&& (self.turn() == Rotation::Rotate270 ==> position.1 < h)
        &&& self.source().readable(self.inner_position(position))
    }

    open spec fn image_width(&self) -> usize {
        match self.turn() {
            Rotation::Rotate0 | Rotation::Rotate180 => self.source().image_width(),
            Rotation::Rotate90 | Rotation::Rotate270 => self.source().image_height(),
        }
    }

    open spec fn image_height(&self) -> usize {
        match self.turn() {
            Rotation::Rotate0 | Rotation::Rotate180 => self.source().image_height(),
            Rotation::Rotate90 | Rotation::Rotate270 => self.source().image_width(),
        }
    }

    fn get_pixel_rgb(&self, position: (usize, usize)) -> (r: Option<u32>) {
        let position = match self.rotation {
            Rotation::Rotate0 => position,
            Rotation::Rotate90 => (position.1, self.width() - position.0 - 1),
            Rotation::Rotate180 => (self.width() - position.0 - 1, self.height() - position.1 - 1),
            Rotation::Rotate270 => (self.height() - position.1 - 1, position.0),
        };
        self.inner.get_pixel_rgb(position)
    }

    fn width(&self) -> (r: usize) {
        match self.rotation {
            Rotation::Rotate0 | Rotation::Rotate180 => self.inner.width(),
            Rotation::Rotate90 | Rotation::Rotate270 => self.inner.height(),
        }
    }

    fn height(&self) -> (r: usize) {
        match self.rotation {
            Rotation::Rotate0 | Rotation::Rotate180 => self.inner.height(),
            Rotation::Rotate90 | Rotation::Rotate270 => self.inner.width(),
        }
    }
}

/// A quarter turn swaps width and height.
pub proof fn lemma_quarter_turn_swaps_size<S: ImageSource>(f: RotatingFilter<S>)
    requires
        f.turn() == Rotation::Rotate90 || f.turn() == Rotation::Rotate270,
    ensures
        f.image_width() == f.source().image_height(),
        f.image_height() == f.source().image_width(),
{
}

/// Rotating by 180 degrees twice gives back the original image.
pub proof fn lemma_half_turn_twice<S: ImageSource>(
    outer: RotatingFilter<RotatingFilter<S>>,
    position: (usize, usize),
)
    requires
        outer.turn() == Rotation::Rotate180,
        outer.source().turn() == Rotation::Rotate180,
        outer.readable(position),
    ensures
        outer.pixel(position) == outer.source().source().pixel(position),
{
}

/// A quarter turn followed by three more quarter turns gives back the original image.
pub proof fn lemma_quarter_then_three_quarters<S: ImageSource>(
    outer: RotatingFilter<RotatingFilter<S>>,
    position: (usize, usize),
)
    requires
        outer.turn() == Rotation::Rotate90,
        outer.source().turn() == Rotation::Rotate270,
        outer.readable(position),
    ensures
        outer.pixel(position) == outer.source().source().pixel(position),
{
}

} // verus!

use vstd::prelude::*;

use crate::gfx::ImageSource;

verus! {

/// Which way an image is flipped.
#[derive(Copy, Clone, PartialEq, Eq, Structural, Debug)]
pub enum MirrorMode {
    Off,
    Vertical,
    Horizontal,
}

/// Shows another image flipped: `Vertical` swaps left and right, `Horizontal`
/// swaps top and bottom.
pub struct MirroringFilter<'a, S: ImageSource> {
    inner: &'a S,
    mode: MirrorMode,
}

impl<'a, S: ImageSource> MirroringFilter<'a, S> {
    /// The filtered image.
    pub closed spec fn source(&self) -> &'a S {
        self.inner
    }

    /// The flip applied.
    pub closed spec fn flip(&self) -> MirrorMode {
        self.mode
    }

    /// The position of the inner image shown at `position`.
    pub open spec fn inner_position(&self, position: (usize, usize)) -> (usize, usize) {
        match self.flip() {
            MirrorMode::Vertical => ((self.source().image_width() - position.0 - 1) as usize, position.1),
            MirrorMode::Horizontal => (position.0, (self.source().image_height() - position.1 - 1) as usize),
            MirrorMode::Off => position,
        }
    }

    pub fn new(source: &'a S, mode: MirrorMode) -> (r: Self)
        ensures
            r.source() == source,
            r.flip() == mode,
    {
        Self { inner: source, mode }
    }
}

impl<'a, S: ImageSource> ImageSource for MirroringFilter<'a, S> {
    open spec fn pixel(&self, position: (usize, usize)) -> Option<u32> {
        self.source().pixel(self.inner_position(position))
    }

    /// The position lies inside the flipped direction, and the inner pixel can be read.
    open spec fn readable(&self, position: (usize, usize)) -> bool {
        &&& (self.flip() == MirrorMode::Vertical ==> position.0 < self.source().image_width())
        &&& (self.flip() == MirrorMode::Horizontal ==> position.1 < self.source().image_height())
        &&& self.source().readable(self.inner_position(position))
    }

    open spec fn image_width(&self) -> usize {
        self.source().image_width()
    }

    open spec fn image_height(&self) -> usize {
        self.source().image_height()
    }

    fn get_pixel_rgb(&self, position: (usize, usize)) -> (r: Option<u32>) {
        let position = match self.mode {
            MirrorMode::Vertical => (self.width() - position.0 - 1, position.1),
            MirrorMode::Horizontal => (position.0, self.height() - position.1 - 1),
            MirrorMode::Off => position,
        };
        self.inner.get_pixel_rgb(position)
    }

    fn width(&self) -> (r: usize) {
        self.inner.width()
    }

    fn height(&self) -> (r: usize) {
        self.inner.height()
    }
}

/// Flipping an image twice the same way gives back the original image.
pub proof fn lemma_mirror_twice<S: ImageSource>(
    outer: MirroringFilter<MirroringFilter<S>>,
    position: (usize, usize),
)
    requires
        outer.readable(position),
        outer.flip() == outer.source().flip(),
    ensures
        outer.pixel(position) == outer.source().source().pixel(position),
{
}

} // verus!

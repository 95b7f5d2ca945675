use vstd::prelude::*;

use crate::gfx::ImageSource;

verus! {

/// Shows the complementary colors of another image.
pub struct InvertingFilter<'a, S: ImageSource> {
    inner: &'a S,
}

impl<'a, S: ImageSource> InvertingFilter<'a, S> {
    /// The filtered image.
    pub closed spec fn source(&self) -> &'a S {
        self.inner
    }

    pub fn new(source: &'a S) -> (r: Self)
        ensures
            r.source() == source,
    {
        Self { inner: source }
    }
}

impl<'a, S: ImageSource> ImageSource for InvertingFilter<'a, S> {
    open spec fn pixel(&self, position: (usize, usize)) -> Option<u32> {
        match self.source().pixel(position) {
            Some(v) => Some((0xFFFFFF - v) as u32),
            None => None,
        }
    }

    /// The inner pixel can be read and is a 24-bit color.
    open spec fn readable(&self, position: (usize, usize)) -> bool {
        &&& self.source().readable(position)
        &&& (self.source().pixel(position) matches Some(v) ==> v <= 0xFFFFFF)
    }

    open spec fn image_width(&self) -> usize {
        self.source().image_width()
    }

    open spec fn image_height(&self) -> usize {
        self.source().image_height()
    }

    fn get_pixel_rgb(&self, position: (usize, usize)) -> (r: Option<u32>) {
        match self.inner.get_pixel_rgb(position) {
            Some(v) => Some(0xFFFFFF - v),
            None => None,
        }
    }

    fn width(&self) -> (r: usize) {
        self.inner.width()
    }

    fn height(&self) -> (r: usize) {
        self.inner.height()
    }
}

/// Inverting twice gives back the colors of the original image.
pub proof fn lemma_invert_twice<S: ImageSource>(
    outer: InvertingFilter<InvertingFilter<S>>,
    position: (usize, usize),
)
    requires
        outer.readable(position),
    ensures
        outer.pixel(position) == outer.source().source().pixel(position),
{
}

} // verus!

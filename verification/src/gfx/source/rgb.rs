use vstd::prelude::*;

use crate::gfx::ImageSource;

verus! {

/// An image stored as three bytes (red, green, blue) per pixel, row by row.
pub struct RGBData {
    data: &'static [u8],
    size: (usize, usize),
}

impl RGBData {
    /// The bytes of the image.
    pub closed spec fn bytes(&self) -> Seq<u8> {
        self.data@
    }

    /// Width and height of the image.
    pub closed spec fn dims(&self) -> (usize, usize) {
        self.size
    }

    /// Index of the first byte of pixel `(x, y)`.
    pub open spec fn first_byte(&self, position: (usize, usize)) -> int {
        (self.dims().0 * position.1 + position.0) * 3
    }

    pub fn new(data: &'static [u8], size: (usize, usize)) -> (r: Self)
        ensures
            r.bytes() == data@,
            r.dims() == size,
    {
        RGBData { data, size }
    }
}

impl ImageSource for RGBData {
    open spec fn pixel(&self, position: (usize, usize)) -> Option<u32> {
        let i = self.first_byte(position);
        Some((self.bytes()[i] * 0x10000 + self.bytes()[i + 1] * 0x100 + self.bytes()[i + 2]) as u32)
    }

    open spec fn readable(&self, position: (usize, usize)) -> bool {
        self.first_byte(position) + 2 < self.bytes().len()
    }

    open spec fn image_width(&self) -> usize {
        self.dims().0
    }

    open spec fn image_height(&self) -> usize {
        self.dims().1
    }

    fn get_pixel_rgb(&self, position: (usize, usize)) -> (r: Option<u32>) {
        let _len = self.data.len();
        proof {
            assert(0 <= self.size.0 * position.1) by (nonlinear_arith)
                requires
                    0 <= self.size.0,
                    0 <= position.1,
            ;
        }
        let i = (self.size.0 * position.1 + position.0) * 3;
        let r0 = self.data[i + 0];
        let g0 = self.data[i + 1];
        let b0 = self.data[i + 2];
        let rgb: u32 = ((r0 as u32) << 16) | ((g0 as u32) << 8) | b0 as u32;
        assert(rgb == r0 * 0x10000 + g0 * 0x100 + b0) by (bit_vector)
            requires
                rgb == ((r0 as u32) << 16) | ((g0 as u32) << 8) | b0 as u32,
        ;
        Some(rgb)
    }

    fn width(&self) -> (r: usize) {
        self.size.0
    }

    fn height(&self) -> (r: usize) {
        self.size.1
    }
}

} // verus!

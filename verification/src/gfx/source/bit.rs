use vstd::prelude::*;

use crate::gfx::ImageSource;

verus! {

/// Whether `n` is a supported number of bits per pixel.
pub open spec fn valid_bit_depth(n: usize) -> bool {
    n == 1 || n == 2 || n == 4 || n == 8
}

/// The number of entries of a color table for `n` bits per pixel.
pub open spec fn table_size(n: usize) -> int {
    if n == 1 {
        2
    } else if n == 2 {
        4
    } else if n == 4 {
        16
    } else {
        256
    }
}

/// The mask of the lowest `n` bits.
pub open spec fn low_mask(n: usize) -> u8 {
    (table_size(n) - 1) as u8
}

/// An image of `n_bits` bits per pixel that index into a color table.
pub struct BitData<'a> {
    data: &'static [u8],
    size: (usize, usize),
    n_bits: usize,
    colors: &'a [Option<u32>],
}

impl<'a> BitData<'a> {
    /// The packed pixel bytes.
    pub closed spec fn bytes(&self) -> Seq<u8> {
        self.data@
    }

    /// Width and height of the image.
    pub closed spec fn dims(&self) -> (usize, usize) {
        self.size
    }

    /// Bits per pixel.
    pub closed spec fn bits(&self) -> usize {
        self.n_bits
    }

    /// The color table.
    pub closed spec fn table(&self) -> Seq<Option<u32>> {
        self.colors@
    }

    /// The bit depth is supported and the color table has one entry per value.
    pub open spec fn wf(&self) -> bool {
        valid_bit_depth(self.bits()) && self.table().len() == table_size(self.bits())
    }

    /// Number of the pixel `(x, y)` in row order.
    pub open spec fn offset(&self, position: (usize, usize)) -> int {
        self.dims().0 * position.1 + position.0
    }

    /// Creates the image. The buffer must hold all pixels, the bit depth must be
    /// 1, 2, 4 or 8 and the color table must have `2^n_bits` entries.
    pub fn new(data: &'static [u8], size: (usize, usize), n_bits: usize, colors: &'a [Option<u32>]) -> (r:
        Self)
        requires
            size.0 * size.1 * n_bits <= usize::MAX,
            data@.len() >= size.0 * size.1 * n_bits / 8,
            valid_bit_depth(n_bits),
            colors@.len() == table_size(n_bits),
        ensures
            r.wf(),
            r.bytes() == data@,
            r.dims() == size,
            r.bits() == n_bits,
            r.table() == colors@,
    {
        proof {
            assert(0 <= size.0 * size.1 && size.0 * size.1 <= size.0 * size.1 * n_bits) by (nonlinear_arith)
                requires
                    0 <= size.0,
                    0 <= size.1,
                    1 <= n_bits,
            ;
        }
        if data.len() < size.0 * size.1 * n_bits / 8 {
            // Invalid buffer length.
            assert(false);
        }
        if n_bits & (n_bits - 1) != 0 {
            // n_bits not a power of 2, not supported
            assert(n_bits & ((n_bits - 1) as usize) == 0) by (bit_vector)
                requires
                    n_bits == 1 || n_bits == 2 || n_bits == 4 || n_bits == 8,
            ;
        }
        if n_bits == 0 || n_bits > 8 {
            // Invalid n_bits.
            assert(false);
        }
        if 1usize << n_bits != colors.len() {
            // Color table incorrect.
            assert(1usize << n_bits == table_size(n_bits)) by (bit_vector)
                requires
                    n_bits == 1 || n_bits == 2 || n_bits == 4 || n_bits == 8,
            ;
        }
        BitData { data, size, n_bits, colors }
    }
}

impl<'a> ImageSource for BitData<'a> {
    open spec fn pixel(&self, position: (usize, usize)) -> Option<u32> {
        let per_byte = 8usize / self.bits();
        let data_idx = self.offset(position) / per_byte as int;
        let data_off = self.offset(position) % per_byte as int;
        let px_val = (self.bytes()[data_idx] >> ((7 - data_off) as u8)) & low_mask(self.bits());
        self.table()[px_val as int]
    }

    open spec fn readable(&self, position: (usize, usize)) -> bool {
        &&& self.wf()
        &&& self.offset(position) <= usize::MAX
        &&& self.offset(position) / ((8usize / self.bits()) as int) < self.bytes().len()
    }

    open spec fn image_width(&self) -> usize {
        self.dims().0
    }

    open spec fn image_height(&self) -> usize {
        self.dims().1
    }

    fn get_pixel_rgb(&self, position: (usize, usize)) -> (r: Option<u32>) {
        proof {
            assert(0 <= self.size.0 * position.1) by (nonlinear_arith)
                requires
                    0 <= self.size.0,
                    0 <= position.1,
            ;
        }
        let offset = self.size.0 * position.1 + position.0;
        assert(8usize / self.n_bits >= 1);
        let data_idx = offset / (8 / self.n_bits);
        let data_off = offset % (8 / self.n_bits);
        let mut mask: u8 = 0;
        let mut k: usize = 0;
        proof {
            vstd::arithmetic::power2::lemma2_to64();
        }
        while k < self.n_bits
            invariant
                valid_bit_depth(self.n_bits),
                k <= self.n_bits,
                mask as int == vstd::arithmetic::power2::pow2(k as nat) - 1,
            decreases self.n_bits - k,
        {
            proof {
                vstd::arithmetic::power2::lemma_pow2_unfold((k + 1) as nat);
                vstd::arithmetic::power2::lemma_pow2_strictly_increases(k as nat, 8);
                vstd::arithmetic::power2::lemma2_to64();
            }
            assert((mask << 1u8) | 1u8 == mask * 2 + 1) by (bit_vector)
                requires
                    mask < 128,
            ;
            mask <<= 1;
            mask |= 1;
            k += 1;
        }
        proof {
            vstd::arithmetic::power2::lemma2_to64();
        }
        assert(mask == low_mask(self.n_bits));
        let shift = (7 - data_off) as u8;
        let byte = self.data[data_idx];
        let px_val = (byte >> shift) & mask;
        assert(px_val <= mask) by (bit_vector)
            requires
                px_val == (byte >> shift) & mask,
        ;
        self.colors[px_val as usize]
    }

    fn width(&self) -> (r: usize) {
        self.size.0
    }

    fn height(&self) -> (r: usize) {
        self.size.1
    }
}

} // verus!

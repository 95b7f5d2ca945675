use vstd::prelude::*;

use crate::common::ScreenPosition;
use crate::gfx::canvas::{
    Canvas,
    blit_at,
    blit_colors,
    colors_grow,
    frame_after,
    lemma_blit_colors_step,
    lemma_blit_next_column,
    lemma_blit_start,
    lemma_blit_step,
};
use crate::gfx::{Drawable, ImageSource, fully_readable, image_cells};

verus! {

/// Cell `(i, j)` of the block at `(ox, oy)` lies in the range of `usize` and can be read.
pub open spec fn cell_readable<S: ImageSource>(image: &S, ox: int, oy: int, i: int, j: int) -> bool {
    &&& 0 <= i + ox <= usize::MAX
    &&& 0 <= j + oy <= usize::MAX
    &&& image.readable(((i + ox) as usize, (j + oy) as usize))
}

/// Every cell of the `a` x `b` block at `(ox, oy)` can be read.
pub open spec fn block_readable<S: ImageSource>(image: &S, ox: int, oy: int, a: int, b: int) -> bool {
    forall|i: int, j: int| 0 <= i < a && 0 <= j < b ==> #[trigger] cell_readable(image, ox, oy, i, j)
}

/// Copies the `a` x `b` block of `image` that starts at `(ox, oy)` onto the
/// canvas, its top left corner at `position` (coordinates wrap around the range
/// of `usize`); transparent pixels are skipped.
pub(crate) fn blit_image<S: ImageSource>(
    image: &S,
    ox: usize,
    oy: usize,
    a: usize,
    b: usize,
    position: ScreenPosition,
    canvas: &mut Canvas,
)
    requires
        old(canvas).wf(),
        block_readable(image, ox as int, oy as int, a as int, b as int),
    ensures
        final(canvas).wf(),
        final(canvas).w() == old(canvas).w(),
        final(canvas).h() == old(canvas).h(),
        frame_after(
            old(canvas).bytes(),
            final(canvas).bytes(),
            old(canvas).w(),
            old(canvas).h(),
            |x: int, y: int|
                blit_at(
                    (position.0 as usize) as int,
                    (position.1 as usize) as int,
                    a as int,
                    b as int,
                    image_cells(image, ox as int, oy as int),
                    a as int,
                    0,
                    x,
                    y,
                ),
        ),
        colors_grow(
            old(canvas).colors(),
            final(canvas).colors(),
            blit_colors(a as int, b as int, image_cells(image, ox as int, oy as int), a as int, 0),
        ),
{
    let px = position.0 as usize;
    let py = position.1 as usize;
    let ghost start = canvas.bytes();
    let ghost cstart = canvas.colors();
    let ghost w = canvas.w();
    let ghost h = canvas.h();
    let ghost src = image_cells(image, ox as int, oy as int);
    proof {
        lemma_blit_start(start, w, h, px as int, py as int, a as int, b as int, src);
        assert(cstart.to_set() =~= cstart.to_set().union(Set::<u32>::empty()));
        assert(cstart =~= cstart.subrange(0, cstart.len() as int));
    }
    let mut i: usize = 0;
    while i < a
        invariant
            i <= a,
            canvas.wf(),
            canvas.w() == w,
            canvas.h() == h,
            start.len() == canvas.bytes().len(),
            px == position.0 as usize,
            py == position.1 as usize,
            src == image_cells(image, ox as int, oy as int),
            block_readable(image, ox as int, oy as int, a as int, b as int),
            frame_after(
                start,
                canvas.bytes(),
                w,
                h,
                |x: int, y: int| blit_at(px as int, py as int, a as int, b as int, src, i as int, 0, x, y),
            ),
            colors_grow(cstart, canvas.colors(), blit_colors(a as int, b as int, src, i as int, 0)),
        decreases a - i,
    {
        let mut j: usize = 0;
        while j < b
            invariant
                i < a,
                j <= b,
                canvas.wf(),
                canvas.w() == w,
                canvas.h() == h,
                start.len() == canvas.bytes().len(),
                px == position.0 as usize,
                py == position.1 as usize,
                src == image_cells(image, ox as int, oy as int),
                block_readable(image, ox as int, oy as int, a as int, b as int),
                frame_after(
                    start,
                    canvas.bytes(),
                    w,
                    h,
                    |x: int, y: int|
                        blit_at(px as int, py as int, a as int, b as int, src, i as int, j as int, x, y),
                ),
                colors_grow(cstart, canvas.colors(), blit_colors(a as int, b as int, src, i as int, j as int)),
            decreases b - j,
        {
            let x = i.wrapping_add(px);
            let y = j.wrapping_add(py);
            assert(cell_readable(image, ox as int, oy as int, i as int, j as int));
            let c = image.get_pixel_rgb((i + ox, j + oy));
            proof {
                lemma_blit_step(start, canvas.bytes(), w, h, px as int, py as int, a as int, b as int, src, i as int, j as int);
                lemma_blit_colors_step(canvas.colors(), cstart, a as int, b as int, src, i as int, j as int);
            }
            if let Some(color) = c {
                let _ = canvas.set_pixel(x, y, color);
            }
            j += 1;
        }
        proof {
            lemma_blit_next_column(start, canvas.bytes(), w, h, px as int, py as int, a as int, b as int, src, i as int);
        }
        i += 1;
    }
}

/// Single, static image.
pub struct Sprite<'a, S: ImageSource> {
    image: &'a S,
}

impl<'a, S: ImageSource> Sprite<'a, S> {
    /// The image this sprite shows.
    pub closed spec fn source(&self) -> &'a S {
        self.image
    }

    pub fn new(image_source: &'a S) -> (r: Self)
        ensures
            r.source() == image_source,
    {
        Self { image: image_source }
    }
}

impl<'a, S: ImageSource> Drawable for Sprite<'a, S> {
    open spec fn paint_at(&self, position: ScreenPosition, x: int, y: int) -> Option<u32> {
        let img = self.source();
        blit_at(
            (position.0 as usize) as int,
            (position.1 as usize) as int,
            img.image_width() as int,
            img.image_height() as int,
            image_cells(img, 0, 0),
            img.image_width() as int,
            0,
            x,
            y,
        )
    }

    open spec fn drawn_colors(&self) -> Set<u32> {
        let img = self.source();
        blit_colors(
            img.image_width() as int,
            img.image_height() as int,
            image_cells(img, 0, 0),
            img.image_width() as int,
            0,
        )
    }

    open spec fn can_draw(&self) -> bool {
        fully_readable(self.source())
    }

    fn draw(&self, position: ScreenPosition, canvas: &mut Canvas) {
        let w = self.image.width();
        let h = self.image.height();
        assert forall|i: int, j: int| 0 <= i < w && 0 <= j < h implies #[trigger] cell_readable(
            self.image,
            0,
            0,
            i,
            j,
        ) by {
            assert(self.image.readable((i as usize, j as usize)));
        }
        blit_image(self.image, 0, 0, w, h, position, canvas);
    }
}

} // verus!

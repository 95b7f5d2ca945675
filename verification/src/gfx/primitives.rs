use vstd::prelude::*;

use crate::common::ScreenPosition;
use crate::gfx::canvas::{
    Canvas,
    blit_at,
    blit_colors,
    colors_grow,
    frame_after,
    lemma_blit_colors_step,
    lemma_blit_next_column,
    lemma_blit_start,
    lemma_blit_step,
    with_color,
};

verus! {

/// The color `fill_rect` puts on pixel `(x, y)`.
pub open spec fn fill_paint(pos: ScreenPosition, size: (usize, usize), color: u32, x: int, y: int) -> Option<u32> {
    blit_at(
        (pos.0 as usize) as int,
        (pos.1 as usize) as int,
        size.0 as int,
        size.1 as int,
        |i: int, j: int| Some(color),
        size.0 as int,
        0,
        x,
        y,
    )
}

/// Fill a rectangle (fill). Coordinates wrap around the range of `usize`.
pub fn fill_rect(canvas: &mut Canvas, pos: ScreenPosition, size: (usize, usize), color: u32)
    requires
        old(canvas).wf(),
    ensures
        final(canvas).wf(),
        final(canvas).w() == old(canvas).w(),
        final(canvas).h() == old(canvas).h(),
        frame_after(
            old(canvas).bytes(),
            final(canvas).bytes(),
            old(canvas).w(),
            old(canvas).h(),
            |x: int, y: int| fill_paint(pos, size, color, x, y),
        ),
        colors_grow(
            old(canvas).colors(),
            final(canvas).colors(),
            blit_colors(size.0 as int, size.1 as int, |i: int, j: int| Some(color), size.0 as int, 0),
        ),
{
    let px = pos.0 as usize;
    let py = pos.1 as usize;
    let ghost start = canvas.bytes();
    let ghost cstart = canvas.colors();
    let ghost w = canvas.w();
    let ghost h = canvas.h();
    let ghost src = |i: int, j: int| Some(color);
    proof {
        lemma_blit_start(start, w, h, px as int, py as int, size.0 as int, size.1 as int, src);
        assert(cstart.to_set() =~= cstart.to_set().union(Set::<u32>::empty()));
        assert(cstart =~= cstart.subrange(0, cstart.len() as int));
    }
    let mut x_offset: usize = 0;
    while x_offset < size.0
        invariant
            x_offset <= size.0,
            canvas.wf(),
            canvas.w() == w,
            canvas.h() == h,
            start.len() == canvas.bytes().len(),
            px == pos.0 as usize,
            py == pos.1 as usize,
            src == (|i: int, j: int| Some(color)),
            frame_after(
                start,
                canvas.bytes(),
                w,
                h,
                |x: int, y: int| blit_at(px as int, py as int, size.0 as int, size.1 as int, src, x_offset as int, 0, x, y),
            ),
            colors_grow(cstart, canvas.colors(), blit_colors(size.0 as int, size.1 as int, src, x_offset as int, 0)),
        decreases size.0 - x_offset,
    {
        let mut y_offset: usize = 0;
        while y_offset < size.1
            invariant
                x_offset < size.0,
                y_offset <= size.1,
                canvas.wf(),
                canvas.w() == w,
                canvas.h() == h,
                start.len() == canvas.bytes().len(),
                px == pos.0 as usize,
                py == pos.1 as usize,
                src == (|i: int, j: int| Some(color)),
                frame_after(
                    start,
                    canvas.bytes(),
                    w,
                    h,
                    |x: int, y: int| blit_at(px as int, py as int, size.0 as int, size.1 as int, src, x_offset as int, y_offset as int, x, y),
                ),
                colors_grow(cstart, canvas.colors(), blit_colors(size.0 as int, size.1 as int, src, x_offset as int, y_offset as int)),
            decreases size.1 - y_offset,
        {
            let x = px.wrapping_add(x_offset);
            let y = py.wrapping_add(y_offset);
            proof {
                lemma_blit_step(start, canvas.bytes(), w, h, px as int, py as int, size.0 as int, size.1 as int, src, x_offset as int, y_offset as int);
                lemma_blit_colors_step(canvas.colors(), cstart, size.0 as int, size.1 as int, src, x_offset as int, y_offset as int);
            }
            let _ = canvas.set_pixel(x, y, color);
            y_offset += 1;
        }
        proof {
            lemma_blit_next_column(start, canvas.bytes(), w, h, px as int, py as int, size.0 as int, size.1 as int, src, x_offset as int);
        }
        x_offset += 1;
    }
    proof {
        crate::gfx::canvas::lemma_frame_congr(
            start,
            canvas.bytes(),
            w,
            h,
            |x: int, y: int| blit_at(px as int, py as int, size.0 as int, size.1 as int, src, size.0 as int, 0, x, y),
            |x: int, y: int| fill_paint(pos, size, color, x, y),
        );
    }
}

/// Whether `(x, y)` lies on the outline of the rectangle at `(px, py)` of size `(sw, sh)`.
pub open spec fn on_outline(px: int, py: int, sw: int, sh: int, x: int, y: int) -> bool {
    ||| px <= x < px + sw && (y == py || y == py + sh - 1)
    ||| py <= y < py + sh && (x == px || x == px + sw - 1)
}

/// Setting one pixel turns paint `f` into paint `g` when `g` is `f` with that pixel set.
pub proof fn lemma_paint_point(
    old: Seq<u8>,
    cur: Seq<u8>,
    w: int,
    h: int,
    f: spec_fn(int, int) -> Option<u32>,
    g: spec_fn(int, int) -> Option<u32>,
    px: int,
    py: int,
    c: u32,
)
    requires
        frame_after(old, cur, w, h, f),
        w * h * 4 <= old.len(),
        0 <= px,
        0 <= py,
        forall|x: int, y: int|
            0 <= x < w && 0 <= y < h ==> #[trigger] g(x, y) == (if x == px && y == py {
                Some(c)
            } else {
                f(x, y)
            }),
    ensures
        px < w && py < h ==> frame_after(old, crate::gfx::canvas::set_rgb(cur, w, px, py, c), w, h, g),
        !(px < w && py < h) ==> frame_after(old, cur, w, h, g),
{
    if px < w && py < h {
        crate::gfx::canvas::lemma_paint_step(old, cur, w, h, f, px, py, c);
        crate::gfx::canvas::lemma_frame_congr(
            old,
            crate::gfx::canvas::set_rgb(cur, w, px, py, c),
            w,
            h,
            |x: int, y: int|
                if x == px && y == py {
                    Some(c)
                } else {
                    f(x, y)
                },
            g,
        );
    } else {
        crate::gfx::canvas::lemma_frame_congr(old, cur, w, h, f, g);
    }
}

/// Using a color a second time changes nothing.
pub proof fn lemma_with_color_twice(cs: Seq<u32>, c: u32)
    ensures
        with_color(with_color(cs, c), c) == with_color(cs, c),
{
    if !cs.contains(c) {
        assert(cs.push(c)[cs.len() as int] == c);
    }
}

/// Draw a rectangle (no fill).
pub fn draw_rect(canvas: &mut Canvas, pos: ScreenPosition, size: (usize, usize), color: u32)
    requires
        old(canvas).wf(),
        size.0 > 0 ==> (pos.0 as usize) + size.0 - 1 <= usize::MAX && 1 <= (pos.1 as usize) + size.1
            <= usize::MAX,
        size.1 > 0 ==> (pos.1 as usize) + size.1 - 1 <= usize::MAX && 1 <= (pos.0 as usize) + size.0
            <= usize::MAX,
    ensures
        final(canvas).wf(),
        final(canvas).w() == old(canvas).w(),
        final(canvas).h() == old(canvas).h(),
        frame_after(
            old(canvas).bytes(),
            final(canvas).bytes(),
            old(canvas).w(),
            old(canvas).h(),
            |x: int, y: int|
                if on_outline(
                    (pos.0 as usize) as int,
                    (pos.1 as usize) as int,
                    size.0 as int,
                    size.1 as int,
                    x,
                    y,
                ) {
                    Some(color)
                } else {
                    None
                },
        ),
        final(canvas).colors() == if size.0 > 0 || size.1 > 0 {
            with_color(old(canvas).colors(), color)
        } else {
            old(canvas).colors()
        },
{
    let px = pos.0 as usize;
    let py = pos.1 as usize;
    let ghost start = canvas.bytes();
    let ghost cstart = canvas.colors();
    let ghost w = canvas.w();
    let ghost h = canvas.h();
    let ghost sw = size.0 as int;
    let ghost sh = size.1 as int;
    proof {
        crate::gfx::canvas::lemma_frame_refl(start, w, h);
        crate::gfx::canvas::lemma_frame_congr(
            start,
            start,
            w,
            h,
            |a: int, b: int| None::<u32>,
            |x: int, y: int|
                if px <= x < px + 0 && (y == py || y == py + sh - 1) {
                    Some(color)
                } else {
                    None
                },
        );
    }
    let mut x_offset: usize = 0;
    while x_offset < size.0
        invariant
            x_offset <= size.0,
            px == pos.0 as usize,
            py == pos.1 as usize,
            sw == size.0,
            sh == size.1,
            size.0 > 0 ==> px + size.0 - 1 <= usize::MAX && 1 <= py + size.1 <= usize::MAX,
            canvas.wf(),
            canvas.w() == w,
            canvas.h() == h,
            start.len() == canvas.bytes().len(),
            canvas.colors() == if x_offset > 0 {
                with_color(cstart, color)
            } else {
                cstart
            },
            frame_after(
                start,
                canvas.bytes(),
                w,
                h,
                |x: int, y: int|
                    if px <= x < px + x_offset && (y == py || y == py + sh - 1) {
                        Some(color)
                    } else {
                        None
                    },
            ),
        decreases size.0 - x_offset,
    {
        let x = px + x_offset;
        let ghost f = |xx: int, yy: int|
            if px <= xx < px + x_offset && (yy == py || yy == py + sh - 1) {
                Some(color)
            } else {
                None
            };
        let ghost g = |xx: int, yy: int|
            if (px <= xx < px + x_offset && (yy == py || yy == py + sh - 1)) || (xx == x && yy == py) {
                Some(color)
            } else {
                None
            };
        let ghost g2 = |xx: int, yy: int|
            if px <= xx < px + x_offset + 1 && (yy == py || yy == py + sh - 1) {
                Some(color)
            } else {
                None
            };
        proof {
            lemma_paint_point(start, canvas.bytes(), w, h, f, g, x as int, py as int, color);
        }
        let _ = canvas.set_pixel(x, py, color);
        proof {
            lemma_paint_point(start, canvas.bytes(), w, h, g, g2, x as int, (py + size.1 - 1) as int, color);
            lemma_with_color_twice(cstart, color);
        }
        let _ = canvas.set_pixel(x, py + size.1 - 1, color);
        x_offset += 1;
    }
    let mut y_offset: usize = 0;
    while y_offset < size.1
        invariant
            y_offset <= size.1,
            px == pos.0 as usize,
            py == pos.1 as usize,
            sw == size.0,
            sh == size.1,
            size.1 > 0 ==> py + size.1 - 1 <= usize::MAX && 1 <= px + size.0 <= usize::MAX,
            canvas.wf(),
            canvas.w() == w,
            canvas.h() == h,
            start.len() == canvas.bytes().len(),
            canvas.colors() == if size.0 > 0 || y_offset > 0 {
                with_color(cstart, color)
            } else {
                cstart
            },
            frame_after(
                start,
                canvas.bytes(),
                w,
                h,
                |x: int, y: int|
                    if (px <= x < px + sw && (y == py || y == py + sh - 1)) || (py <= y < py + y_offset
                        && (x == px || x == px + sw - 1)) {
                        Some(color)
                    } else {
                        None
                    },
            ),
        decreases size.1 - y_offset,
    {
        let y = py + y_offset;
        let ghost f = |xx: int, yy: int|
            if (px <= xx < px + sw && (yy == py || yy == py + sh - 1)) || (py <= yy < py + y_offset && (
            xx == px || xx == px + sw - 1)) {
                Some(color)
            } else {
                None
            };
        let ghost g = |xx: int, yy: int|
            if (px <= xx < px + sw && (yy == py || yy == py + sh - 1)) || (py <= yy < py + y_offset && (
            xx == px || xx == px + sw - 1)) || (xx == px && yy == y) {
                Some(color)
            } else {
                None
            };
        let ghost g2 = |xx: int, yy: int|
            if (px <= xx < px + sw && (yy == py || yy == py + sh - 1)) || (py <= yy < py + y_offset + 1
                && (xx == px || xx == px + sw - 1)) {
                Some(color)
            } else {
                None
            };
        proof {
            lemma_paint_point(start, canvas.bytes(), w, h, f, g, px as int, y as int, color);
        }
        let _ = canvas.set_pixel(px, y, color);
        proof {
            lemma_paint_point(start, canvas.bytes(), w, h, g, g2, (px + size.0 - 1) as int, y as int, color);
            lemma_with_color_twice(cstart, color);
        }
        let _ = canvas.set_pixel(px + size.0 - 1, y, color);
        y_offset += 1;
    }
}

} // verus!

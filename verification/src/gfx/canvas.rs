use vstd::prelude::*;

verus! {

/// The byte of channel `c` (0 = red, 1 = green, 2 = blue) of an `0xRRGGBB` color.
pub open spec fn channel(rgb: u32, c: int) -> u8 {
    if c == 0 {
        (rgb >> 16u32) as u8
    } else if c == 1 {
        (rgb >> 8u32) as u8
    } else {
        rgb as u8
    }
}

/// Byte `c` of pixel `(x, y)` of an RGBA buffer whose rows are `w` pixels wide.
pub open spec fn pixel_byte(bytes: Seq<u8>, w: int, x: int, y: int, c: int) -> u8 {
    bytes[(y * w + x) * 4 + c]
}

/// `new` is `old` with every pixel `(x, y)` of the `w` x `h` area for which
/// `paint` gives a color set to that color; every other byte, and every alpha
/// byte, is left as it was.
pub open spec fn frame_after(
    old: Seq<u8>,
    new: Seq<u8>,
    w: int,
    h: int,
    paint: spec_fn(int, int) -> Option<u32>,
) -> bool {
    &&& new.len() == old.len()
    &&& forall|x: int, y: int, c: int|
        0 <= x < w && 0 <= y < h && 0 <= c < 3 ==> #[trigger] pixel_byte(new, w, x, y, c) == match paint(x, y) {
            Some(rgb) => channel(rgb, c),
            None => pixel_byte(old, w, x, y, c),
        }
    &&& forall|i: int|
        0 <= i < old.len() && (i >= w * h * 4 || i % 4 == 3) ==> #[trigger] new[i] == old[i]
}

/// The buffer with the three color bytes of pixel `(x, y)` set to `rgb`.
pub open spec fn set_rgb(bytes: Seq<u8>, w: int, x: int, y: int, rgb: u32) -> Seq<u8> {
    let i = (y * w + x) * 4;
    bytes.update(i, channel(rgb, 0)).update(i + 1, channel(rgb, 1)).update(i + 2, channel(rgb, 2))
}

/// The list of used colors after using `c`: unchanged if `c` is already in it,
/// else with `c` appended.
pub open spec fn with_color(cs: Seq<u32>, c: u32) -> Seq<u32> {
    if cs.contains(c) {
        cs
    } else {
        cs.push(c)
    }
}

/// The color list after the colors of `s` are used in turn, starting from `cs`
/// (what a run of `set_pixel` and `clear` calls with these colors does).
pub open spec fn colors_after(cs: Seq<u32>, s: Seq<u32>) -> Seq<u32>
    decreases s.len(),
{
    if s.len() == 0 {
        cs
    } else {
        with_color(colors_after(cs, s.drop_last()), s.last())
    }
}

/// Using a color grows the list by at most one, and never shrinks it.
pub proof fn lemma_with_color_grows(cs: Seq<u32>, c: u32)
    ensures
        cs.is_prefix_of(with_color(cs, c)),
        cs.len() <= with_color(cs, c).len() <= cs.len() + 1,
        with_color(cs, c).contains(c),
{
    if !cs.contains(c) {
        assert(cs.push(c)[cs.len() as int] == c);
    }
}

/// Counting the colors: after a fresh canvas has been given the colors of `s`
/// (by `set_pixel` and `clear`, refused pixels included), it lists each of
/// them exactly once, so `used_colors` is the number of distinct colors in `s`.
pub proof fn lemma_used_colors_count(s: Seq<u32>)
    ensures
        colors_after(Seq::empty(), s).no_duplicates(),
        colors_after(Seq::empty(), s).to_set() == s.to_set(),
        colors_after(Seq::empty(), s).len() == s.to_set().len(),
    decreases s.len(),
{
    let cs = colors_after(Seq::empty(), s);
    if s.len() == 0 {
        assert(s.to_set() =~= Set::<u32>::empty());
        assert(cs.to_set() =~= Set::<u32>::empty());
    } else {
        let prev = colors_after(Seq::empty(), s.drop_last());
        lemma_used_colors_count(s.drop_last());
        let c = s.last();
        assert(s =~= s.drop_last().push(c));
        assert(s.to_set() =~= s.drop_last().to_set().insert(c)) by {
            assert forall|v: u32| s.to_set().contains(v) implies s.drop_last().to_set().insert(c).contains(v) by {
                let i = choose|i: int| 0 <= i < s.len() && s[i] == v;
                if i < s.len() - 1 {
                    assert(s.drop_last()[i] == v);
                }
            }
            assert forall|v: u32| s.drop_last().to_set().insert(c).contains(v) implies s.to_set().contains(v) by {
                if v == c {
                    assert(s[s.len() - 1] == v);
                } else {
                    let i = choose|i: int| 0 <= i < s.drop_last().len() && s.drop_last()[i] == v;
                    assert(s[i] == v);
                }
            }
        }
        if prev.contains(c) {
            assert(cs == prev);
            assert(prev.to_set().contains(c));
            assert(cs.to_set() =~= s.to_set());
        } else {
            assert(cs == prev.push(c));
            assert(cs.to_set() =~= prev.to_set().insert(c)) by {
                assert forall|v: u32| cs.to_set().contains(v) implies prev.to_set().insert(c).contains(v) by {
                    let i = choose|i: int| 0 <= i < cs.len() && cs[i] == v;
                    if i < prev.len() {
                        assert(prev[i] == v);
                    }
                }
                assert forall|v: u32| prev.to_set().insert(c).contains(v) implies cs.to_set().contains(v) by {
                    if v == c {
                        assert(cs[prev.len() as int] == v);
                    } else {
                        let i = choose|i: int| 0 <= i < prev.len() && prev[i] == v;
                        assert(cs[i] == v);
                    }
                }
            }
            assert(cs.no_duplicates()) by {
                assert forall|i: int, j: int| 0 <= i < cs.len() && 0 <= j < cs.len() && i != j implies cs[i]
                    != cs[j] by {
                    if i < prev.len() && j < prev.len() {
                        assert(cs[i] == prev[i] && cs[j] == prev[j]);
                    } else if i < prev.len() {
                        assert(cs[i] == prev[i]);
                    } else {
                        assert(cs[j] == prev[j]);
                    }
                }
            }
        }
        cs.unique_seq_to_set();
    }
}

/// The union of all the sets.
pub open spec fn union_all(added: Seq<Set<u32>>) -> Set<u32>
    decreases added.len(),
{
    if added.len() == 0 {
        Set::empty()
    } else {
        union_all(added.drop_last()).union(added.last())
    }
}

/// Using one color (`set_pixel`, `clear`) is a growth of the color list by that color.
pub proof fn lemma_with_color_is_growth(cs: Seq<u32>, c: u32)
    ensures
        colors_grow(cs, with_color(cs, c), set![c]),
{
    lemma_with_color_grows(cs, c);
    assert(with_color(cs, c).to_set() =~= cs.to_set().union(set![c])) by {
        if !cs.contains(c) {
            let n = with_color(cs, c);
            assert(n[cs.len() as int] == c);
            assert forall|v: u32| n.to_set().contains(v) implies cs.to_set().union(set![c]).contains(v) by {
                let i = choose|i: int| 0 <= i < n.len() && n[i] == v;
                if i < cs.len() {
                    assert(cs[i] == v);
                }
            }
            assert forall|v: u32| cs.to_set().union(set![c]).contains(v) implies n.to_set().contains(v) by {
                if v != c {
                    let i = choose|i: int| 0 <= i < cs.len() && cs[i] == v;
                    assert(n[i] == v);
                }
            }
        }
    }
}

/// The color list of a canvas along a run of calls: `states[0]` is that of a
/// fresh canvas, and call `k` (a `set_pixel` or `clear` with color `c`, which
/// grows the list by `set![c]`, or a drawing with its `drawn_colors`) grows
/// `states[k]` into `states[k + 1]` by `added[k]`. Then the list never shrinks
/// and, at the end, holds every color used exactly once: `used_colors` is the
/// number of distinct colors used in the whole run.
pub proof fn lemma_used_colors_run(states: Seq<Seq<u32>>, added: Seq<Set<u32>>)
    requires
        states.len() == added.len() + 1,
        states[0] == Seq::<u32>::empty(),
        forall|k: int| 0 <= k < added.len() ==> colors_grow(states[k], #[trigger] states[k + 1], added[k]),
        forall|k: int| 0 <= k < states.len() ==> #[trigger] states[k].no_duplicates(),
    ensures
        states.last().to_set() == union_all(added),
        states.last().len() == union_all(added).len(),
        forall|k: int| 0 <= k < added.len() ==> states[k].len() <= #[trigger] states[k + 1].len(),
    decreases added.len(),
{
    let n = added.len();
    if n == 0 {
        assert(states.last().to_set() =~= Set::<u32>::empty());
    } else {
        let ps = states.drop_last();
        let pa = added.drop_last();
        assert forall|k: int| 0 <= k < pa.len() implies colors_grow(ps[k], #[trigger] ps[k + 1], pa[k]) by {
            assert(colors_grow(states[k], states[k + 1], added[k]));
        }
        assert forall|k: int| 0 <= k < ps.len() implies #[trigger] ps[k].no_duplicates() by {
            assert(states[k].no_duplicates());
        }
        lemma_used_colors_run(ps, pa);
        assert(ps.last() == states[n - 1]);
        assert(colors_grow(states[n - 1], states[n as int], added[n - 1]));
        assert(states.last() == states[n as int]);
    }
    states.last().unique_seq_to_set();
    assert forall|k: int| 0 <= k < added.len() implies states[k].len() <= #[trigger] states[k + 1].len() by {
        assert(colors_grow(states[k], states[k + 1], added[k]));
    }
}

/// A color list without duplicates (as every canvas has) is as long as the set
/// of its colors: after any drawing, `used_colors` counts the distinct colors.
pub proof fn lemma_used_colors_distinct(cs: Seq<u32>)
    requires
        cs.no_duplicates(),
    ensures
        cs.len() == cs.to_set().len(),
{
    cs.unique_seq_to_set();
}

pub proof fn lemma_pixel_in_area(w: int, h: int, x: int, y: int)
    requires
        0 <= x < w,
        0 <= y < h,
    ensures
        0 <= y * w + x < w * h,
        (y * w + x) * 4 + 3 < w * h * 4,
{
    assert(0 <= y * w) by (nonlinear_arith)
        requires
            0 <= y,
            0 <= w,
    ;
    assert(y * w + x < w * h) by (nonlinear_arith)
        requires
            0 <= x < w,
            0 <= y < h,
    ;
    assert((y * w + x) * 4 + 3 < w * h * 4) by (nonlinear_arith)
        requires
            y * w + x < w * h,
    ;
}

pub proof fn lemma_mod4(p: int, i: int)
    requires
        0 <= p,
        p * 4 <= i < p * 4 + 4,
    ensures
        i % 4 == i - p * 4,
{
    assert(i % 4 == i - p * 4) by (nonlinear_arith)
        requires
            0 <= p,
            p * 4 <= i < p * 4 + 4,
    ;
}

pub proof fn lemma_pixel_unique(w: int, x1: int, y1: int, x2: int, y2: int)
    requires
        0 <= x1 < w,
        0 <= x2 < w,
        0 <= y1,
        0 <= y2,
        y1 * w + x1 == y2 * w + x2,
    ensures
        x1 == x2 && y1 == y2,
{
    if y1 < y2 {
        assert(y1 * w + w <= y2 * w) by (nonlinear_arith)
            requires
                y1 < y2,
                0 <= w,
        ;
    } else if y2 < y1 {
        assert(y2 * w + w <= y1 * w) by (nonlinear_arith)
            requires
                y2 < y1,
                0 <= w,
        ;
    } else {
    }
}

/// Painting nothing leaves a buffer unchanged.
pub proof fn lemma_frame_refl(s: Seq<u8>, w: int, h: int)
    ensures
        frame_after(s, s, w, h, |a: int, b: int| None::<u32>),
{
}

/// Setting one more pixel extends what has been painted by that pixel.
pub proof fn lemma_paint_step(
    old: Seq<u8>,
    cur: Seq<u8>,
    w: int,
    h: int,
    paint: spec_fn(int, int) -> Option<u32>,
    x: int,
    y: int,
    rgb: u32,
)
    requires
        frame_after(old, cur, w, h, paint),
        0 <= x < w,
        0 <= y < h,
        w * h * 4 <= old.len(),
    ensures
        frame_after(
            old,
            set_rgb(cur, w, x, y, rgb),
            w,
            h,
            |a: int, b: int|
                if a == x && b == y {
                    Some(rgb)
                } else {
                    paint(a, b)
                },
        ),
{
    let new = set_rgb(cur, w, x, y, rgb);
    let i0 = (y * w + x) * 4;
    lemma_pixel_in_area(w, h, x, y);
    assert forall|a: int, b: int, c: int| 0 <= a < w && 0 <= b < h && 0 <= c < 3 implies
        #[trigger] pixel_byte(new, w, a, b, c) == match (if a == x && b == y {
        Some(rgb)
    } else {
        paint(a, b)
    }) {
        Some(v) => channel(v, c),
        None => pixel_byte(old, w, a, b, c),
    } by {
        lemma_pixel_in_area(w, h, a, b);
        if a == x && b == y {
        } else {
            if b * w + a == y * w + x {
                lemma_pixel_unique(w, a, b, x, y);
            }
            assert(pixel_byte(new, w, a, b, c) == pixel_byte(cur, w, a, b, c));
        }
    }
    assert forall|i: int| 0 <= i < old.len() && (i >= w * h * 4 || i % 4 == 3) implies #[trigger] new[i]
        == old[i] by {
        assert(new[i] == cur[i]);
    }
}

/// Represents our target canvas: an RGBA pixel buffer of `dimensions.0` x
/// `dimensions.1` pixels, and the list of the distinct colors drawn so far.
pub struct Canvas<'a> {
    buffer: &'a mut [u8],
    pub dimensions: (usize, usize),
    colors_used: Vec<u32>,
}

impl<'a> Canvas<'a> {
    /// The bytes of the buffer.
    pub closed spec fn bytes(&self) -> Seq<u8> {
        self.buffer@
    }

    /// The distinct colors used so far, in the order of their first use.
    pub closed spec fn colors(&self) -> Seq<u32> {
        self.colors_used@
    }

    /// Width in pixels: `dimensions.0`.
    pub closed spec fn w(&self) -> int {
        self.dimensions.0 as int
    }

    /// Height in pixels: `dimensions.1`.
    pub closed spec fn h(&self) -> int {
        self.dimensions.1 as int
    }

    /// The buffer holds all pixels, and no color is listed twice.
    pub open spec fn wf(&self) -> bool {
        &&& 0 <= self.w() <= usize::MAX
        &&& 0 <= self.h() <= usize::MAX
        &&& self.w() * self.h() * 4 <= self.bytes().len()
        &&& self.colors().no_duplicates()
    }

    /// Wraps a buffer of at least `4 * width * height` bytes and makes every
    /// pixel opaque (alpha = 0xFF).
    pub fn new(buffer: &'a mut [u8], dimensions: (usize, usize)) -> (c: Self)
        requires
            dimensions.0 * dimensions.1 * 4 <= old(buffer)@.len(),
        ensures
            c.wf(),
            c.w() == dimensions.0,
            c.h() == dimensions.1,
            c.colors() == Seq::<u32>::empty(),
            c.bytes().len() == old(buffer)@.len(),
            forall|i: int|
                0 <= i < old(buffer)@.len() ==> #[trigger] c.bytes()[i] == if i < dimensions.0
                    * dimensions.1 * 4 && i % 4 == 3 {
                    0xFFu8
                } else {
                    old(buffer)@[i]
                },
    {
        let ghost start = buffer@;
        let _len = buffer.len();
        let w = dimensions.0;
        let h = dimensions.1;
        proof {
            assert(w * h <= w * h * 4) by (nonlinear_arith)
                requires
                    0 <= w * h,
            ;
            assert(0 <= w * h) by (nonlinear_arith)
                requires
                    0 <= w,
                    0 <= h,
            ;
        }
        let n = w * h;
        // Make sure that alpha = 0xFF.
        let mut p: usize = 0;
        while p < n
            invariant
                p <= n,
                n == w * h,
                n * 4 <= start.len(),
                _len == start.len(),
                buffer@.len() == start.len(),
                forall|i: int|
                    0 <= i < start.len() ==> #[trigger] buffer@[i] == if i < p * 4 && i % 4 == 3 {
                        0xFFu8
                    } else {
                        start[i]
                    },
            decreases n - p,
        {
            let ghost before = buffer@;
            buffer[p * 4 + 3] = 0xFF;
            assert forall|i: int| 0 <= i < start.len() implies #[trigger] buffer@[i] == if i < (p + 1)
                * 4 && i % 4 == 3 {
                0xFFu8
            } else {
                start[i]
            } by {
                if p * 4 <= i < p * 4 + 4 {
                    lemma_mod4(p as int, i);
                }
                if i != p * 4 + 3 {
                    assert(buffer@[i] == before[i]);
                }
            }
            p += 1;
        }
        Canvas { buffer, dimensions, colors_used: Vec::new() }
    }

    fn use_color(&mut self, c: u32)
        requires
            old(self).colors().no_duplicates(),
        ensures
            final(self).colors() == with_color(old(self).colors(), c),
            final(self).colors().no_duplicates(),
            final(self).bytes() == old(self).bytes(),
            final(self).w() == old(self).w(),
            final(self).h() == old(self).h(),
    {
        let mut i: usize = 0;
        while i < self.colors_used.len()
            invariant
                self.colors_used@ == old(self).colors(),
                self.colors_used@.no_duplicates(),
                self.buffer@ == old(self).bytes(),
                self.dimensions == old(self).dimensions,
                i <= self.colors_used@.len(),
                forall|j: int| 0 <= j < i ==> self.colors_used@[j] != c,
            decreases self.colors_used@.len() - i,
        {
            if c == self.colors_used[i] {
                assert(self.colors_used@[i as int] == c);
                return;
            }
            i += 1;
        }
        assert(!self.colors_used@.contains(c));
        self.colors_used.push(c);
    }

    /// Sets a single pixel on the canvas; pixels outside of it are refused
    /// (`Err`). The color counts as used either way.
    pub fn set_pixel(&mut self, x: usize, y: usize, rgb: u32) -> (r: Result<(), ()>)
        requires
            old(self).wf(),
        ensures
            final(self).wf(),
            final(self).w() == old(self).w(),
            final(self).h() == old(self).h(),
            final(self).colors() == with_color(old(self).colors(), rgb),
            r is Ok <==> (x < old(self).w() && y < old(self).h()),
            r is Ok ==> final(self).bytes() == set_rgb(
                old(self).bytes(),
                old(self).w(),
                x as int,
                y as int,
                rgb,
            ),
            r is Err ==> final(self).bytes() == old(self).bytes(),
    {
        self.use_color(rgb);
        let _len = self.buffer.len();
        if x < self.dimensions.0 && y < self.dimensions.1 {
            proof {
                lemma_pixel_in_area(self.w(), self.h(), x as int, y as int);
            }
            let i = (y * self.dimensions.0 + x) * 4;
            self.buffer[i + 0] = (rgb >> 16) as u8;
            self.buffer[i + 1] = (rgb >> 8) as u8;
            self.buffer[i + 2] = rgb as u8;
            Ok(())
        } else {
            Err(())
        }
    }

    /// Clears the whole canvas with the provided color.
    pub fn clear(&mut self, rgb: u32)
        requires
            old(self).wf(),
        ensures
            final(self).wf(),
            final(self).w() == old(self).w(),
            final(self).h() == old(self).h(),
            final(self).colors() == with_color(old(self).colors(), rgb),
            frame_after(
                old(self).bytes(),
                final(self).bytes(),
                old(self).w(),
                old(self).h(),
                |a: int, b: int| Some(rgb),
            ),
    {
        self.use_color(rgb);
        let ghost start = self.buffer@;
        let _len = self.buffer.len();
        let w = self.dimensions.0;
        let h = self.dimensions.1;
        proof {
            assert(0 <= w * h && w * h <= w * h * 4) by (nonlinear_arith)
                requires
                    0 <= w,
                    0 <= h,
            ;
        }
        let n = w * h;
        let mut p: usize = 0;
        while p < n
            invariant
                p <= n,
                n == w * h,
                n * 4 <= start.len(),
                _len == start.len(),
                w == self.dimensions.0,
                h == self.dimensions.1,
                self.colors_used@ == with_color(old(self).colors(), rgb),
                self.colors_used@.no_duplicates(),
                self.buffer@.len() == start.len(),
                forall|i: int|
                    0 <= i < start.len() ==> #[trigger] self.buffer@[i] == if i < p * 4 && i % 4 != 3 {
                        channel(rgb, i % 4)
                    } else {
                        start[i]
                    },
            decreases n - p,
        {
            let ghost before = self.buffer@;
            self.buffer[p * 4 + 0] = (rgb >> 16) as u8;
            self.buffer[p * 4 + 1] = (rgb >> 8) as u8;
            self.buffer[p * 4 + 2] = rgb as u8;
            assert forall|i: int| 0 <= i < start.len() implies #[trigger] self.buffer@[i] == if i < (p
                + 1) * 4 && i % 4 != 3 {
                channel(rgb, i % 4)
            } else {
                start[i]
            } by {
                if p * 4 <= i < p * 4 + 4 {
                    lemma_mod4(p as int, i);
                } else {
                    assert(self.buffer@[i] == before[i]);
                }
            }
            p += 1;
        }
        proof {
            let new = self.buffer@;
            assert forall|x: int, y: int, c: int|
                0 <= x < w && 0 <= y < h && 0 <= c < 3 implies #[trigger] pixel_byte(new, w as int, x, y, c)
                == channel(rgb, c) by {
                lemma_pixel_in_area(w as int, h as int, x, y);
                let i = (y * w + x) * 4 + c;
                assert(i % 4 == c);
            }
        }
    }

    /// Number of distinct colors used so far.
    pub fn used_colors(&self) -> (r: usize)
        ensures
            r == self.colors().len(),
    {
        self.colors_used.len()
    }
}

} // verus!

verus! {

/// `(a + p)` wrapped around the range of `usize` (what `usize::wrapping_add` computes).
pub open spec fn wrap_add(a: int, p: int) -> int {
    if a + p > usize::MAX {
        a + p - (usize::MAX + 1)
    } else {
        a + p
    }
}

/// The offset `i` with `wrap_add(i, p) == x`, for `x` and `p` in the range of `usize`.
pub open spec fn back(x: int, p: int) -> int {
    if x >= p {
        x - p
    } else {
        x + (usize::MAX + 1) - p
    }
}

/// The color that copying an `a` x `b` block, whose cell `(i, j)` holds `src(i, j)`,
/// to the (wrapping) offset `(px, py)` puts on pixel `(x, y)`, counting only the
/// cells before `(done_i, done_j)` in column order.
pub open spec fn blit_at(
    px: int,
    py: int,
    a: int,
    b: int,
    src: spec_fn(int, int) -> Option<u32>,
    done_i: int,
    done_j: int,
    x: int,
    y: int,
) -> Option<u32> {
    let i = back(x, px);
    let j = back(y, py);
    if 0 <= i < a && 0 <= j < b && (i < done_i || (i == done_i && j < done_j)) {
        src(i, j)
    } else {
        None
    }
}

/// The colors of the cells before `(done_i, done_j)` (column order) of an `a` x `b` block.
pub open spec fn blit_colors(
    a: int,
    b: int,
    src: spec_fn(int, int) -> Option<u32>,
    done_i: int,
    done_j: int,
) -> Set<u32> {
    Set::new(
        |c: u32|
            exists|i: int, j: int|
                0 <= i < a && 0 <= j < b && (i < done_i || (i == done_i && j < done_j)) && #[trigger] src(
                    i,
                    j,
                ) == Some(c),
    )
}

/// `new` lists the colors of `old` first, and besides them exactly `added`.
pub open spec fn colors_grow(old: Seq<u32>, new: Seq<u32>, added: Set<u32>) -> bool {
    &&& old.is_prefix_of(new)
    &&& new.to_set() == old.to_set().union(added)
}

pub proof fn lemma_back_wrap(i: int, p: int)
    requires
        0 <= i <= usize::MAX,
        0 <= p <= usize::MAX,
    ensures
        0 <= wrap_add(i, p) <= usize::MAX,
        back(wrap_add(i, p), p) == i,
{
}

pub proof fn lemma_wrap_back(x: int, p: int)
    requires
        0 <= x <= usize::MAX,
        0 <= p <= usize::MAX,
    ensures
        0 <= back(x, p) <= usize::MAX,
        wrap_add(back(x, p), p) == x,
{
}

/// Pointwise equal paints on the canvas area give the same frames.
pub proof fn lemma_frame_congr(
    old: Seq<u8>,
    new: Seq<u8>,
    w: int,
    h: int,
    f: spec_fn(int, int) -> Option<u32>,
    g: spec_fn(int, int) -> Option<u32>,
)
    requires
        frame_after(old, new, w, h, f),
        forall|x: int, y: int| 0 <= x < w && 0 <= y < h ==> #[trigger] f(x, y) == g(x, y),
    ensures
        frame_after(old, new, w, h, g),
{
    assert forall|x: int, y: int, c: int| 0 <= x < w && 0 <= y < h && 0 <= c < 3 implies
        #[trigger] pixel_byte(new, w, x, y, c) == match g(x, y) {
        Some(rgb) => channel(rgb, c),
        None => pixel_byte(old, w, x, y, c),
    } by {
        assert(f(x, y) == g(x, y));
    }
}

/// Before any cell is copied, nothing has been painted.
pub proof fn lemma_blit_start(
    s: Seq<u8>,
    w: int,
    h: int,
    px: int,
    py: int,
    a: int,
    b: int,
    src: spec_fn(int, int) -> Option<u32>,
)
    ensures
        frame_after(s, s, w, h, |x: int, y: int| blit_at(px, py, a, b, src, 0, 0, x, y)),
        blit_colors(a, b, src, 0, 0) == Set::<u32>::empty(),
{
    assert(blit_colors(a, b, src, 0, 0) =~= Set::<u32>::empty());
}

/// A finished column continues at the top of the next one.
pub proof fn lemma_blit_next_column(
    old: Seq<u8>,
    new: Seq<u8>,
    w: int,
    h: int,
    px: int,
    py: int,
    a: int,
    b: int,
    src: spec_fn(int, int) -> Option<u32>,
    i: int,
)
    requires
        frame_after(old, new, w, h, |x: int, y: int| blit_at(px, py, a, b, src, i, b, x, y)),
    ensures
        frame_after(old, new, w, h, |x: int, y: int| blit_at(px, py, a, b, src, i + 1, 0, x, y)),
        blit_colors(a, b, src, i, b) == blit_colors(a, b, src, i + 1, 0),
{
    lemma_frame_congr(
        old,
        new,
        w,
        h,
        |x: int, y: int| blit_at(px, py, a, b, src, i, b, x, y),
        |x: int, y: int| blit_at(px, py, a, b, src, i + 1, 0, x, y),
    );
    assert(blit_colors(a, b, src, i, b) =~= blit_colors(a, b, src, i + 1, 0));
}

/// Copying cell `(i, j)` extends the colors used by its color, if it has one.
pub proof fn lemma_blit_colors_step(
    cs: Seq<u32>,
    start: Seq<u32>,
    a: int,
    b: int,
    src: spec_fn(int, int) -> Option<u32>,
    i: int,
    j: int,
)
    requires
        colors_grow(start, cs, blit_colors(a, b, src, i, j)),
        0 <= i < a,
        0 <= j < b,
    ensures
        colors_grow(
            start,
            match src(i, j) {
                Some(c) => with_color(cs, c),
                None => cs,
            },
            blit_colors(a, b, src, i, j + 1),
        ),
{
    let prev = blit_colors(a, b, src, i, j);
    let next = blit_colors(a, b, src, i, j + 1);
    match src(i, j) {
        Some(c) => {
            assert(next =~= prev.insert(c)) by {
                assert forall|d: u32| next.contains(d) implies #[trigger] prev.insert(c).contains(d) by {
                    if d != c {
                        let (ii, jj) = choose|ii: int, jj: int|
                            0 <= ii < a && 0 <= jj < b && (ii < i || (ii == i && jj < j + 1))
                                && #[trigger] src(ii, jj) == Some(d);
                        assert(src(ii, jj) == Some(d));
                        assert(prev.contains(d));
                    }
                }
                assert forall|d: u32| prev.insert(c).contains(d) implies #[trigger] next.contains(d) by {
                    if d == c {
                        assert(src(i, j) == Some(d));
                    } else {
                        assert(prev.contains(d));
                        let (ii, jj) = choose|ii: int, jj: int|
                            0 <= ii < a && 0 <= jj < b && (ii < i || (ii == i && jj < j))
                                && #[trigger] src(ii, jj) == Some(d);
                        assert(src(ii, jj) == Some(d));
                    }
                }
            }
            let ncs = with_color(cs, c);
            if cs.contains(c) {
                assert(ncs.to_set() =~= start.to_set().union(next));
            } else {
                cs.lemma_push_to_set_commute(c);
                assert(ncs.to_set() =~= start.to_set().union(next));
                assert(start =~= ncs.subrange(0, start.len() as int));
            }
        },
        None => {
            assert(next =~= prev) by {
                assert forall|d: u32| next.contains(d) implies #[trigger] prev.contains(d) by {
                    {
                        let (ii, jj) = choose|ii: int, jj: int|
                            0 <= ii < a && 0 <= jj < b && (ii < i || (ii == i && jj < j + 1))
                                && #[trigger] src(ii, jj) == Some(d);
                        assert(src(ii, jj) == Some(d));
                    }
                }
                assert forall|d: u32| prev.contains(d) implies #[trigger] next.contains(d) by {
                    {
                        let (ii, jj) = choose|ii: int, jj: int|
                            0 <= ii < a && 0 <= jj < b && (ii < i || (ii == i && jj < j))
                                && #[trigger] src(ii, jj) == Some(d);
                        assert(src(ii, jj) == Some(d));
                    }
                }
            }
        },
    }
}

/// Copying cell `(i, j)` (to pixel `(wrap_add(i, px), wrap_add(j, py))`, when
/// it has a color and that pixel lies on the canvas) extends what is painted by that cell.
pub proof fn lemma_blit_step(
    old: Seq<u8>,
    cur: Seq<u8>,
    w: int,
    h: int,
    px: int,
    py: int,
    a: int,
    b: int,
    src: spec_fn(int, int) -> Option<u32>,
    i: int,
    j: int,
)
    requires
        frame_after(old, cur, w, h, |x: int, y: int| blit_at(px, py, a, b, src, i, j, x, y)),
        0 <= i < a,
        0 <= j < b,
        a <= usize::MAX + 1,
        b <= usize::MAX + 1,
        0 <= w <= usize::MAX,
        0 <= h <= usize::MAX,
        0 <= px <= usize::MAX,
        0 <= py <= usize::MAX,
        w * h * 4 <= old.len(),
    ensures
        ({
            let x = wrap_add(i, px);
            let y = wrap_add(j, py);
            let next = |xx: int, yy: int| blit_at(px, py, a, b, src, i, j + 1, xx, yy);
            match src(i, j) {
                Some(c) => if x < w && y < h {
                    frame_after(old, set_rgb(cur, w, x, y, c), w, h, next)
                } else {
                    frame_after(old, cur, w, h, next)
                },
                None => frame_after(old, cur, w, h, next),
            }
        }),
{
    let x = wrap_add(i, px);
    let y = wrap_add(j, py);
    let prev = |xx: int, yy: int| blit_at(px, py, a, b, src, i, j, xx, yy);
    let next = |xx: int, yy: int| blit_at(px, py, a, b, src, i, j + 1, xx, yy);
    lemma_back_wrap(i, px);
    lemma_back_wrap(j, py);
    match src(i, j) {
        Some(c) => {
            if x < w && y < h {
                lemma_paint_step(old, cur, w, h, prev, x, y, c);
                let stepped = |xx: int, yy: int|
                    if xx == x && yy == y {
                        Some(c)
                    } else {
                        prev(xx, yy)
                    };
                assert forall|xx: int, yy: int| 0 <= xx < w && 0 <= yy < h implies #[trigger] stepped(
                    xx,
                    yy,
                ) == next(xx, yy) by {
                    lemma_wrap_back(xx, px);
                    lemma_wrap_back(yy, py);
                }
                lemma_frame_congr(old, set_rgb(cur, w, x, y, c), w, h, stepped, next);
            } else {
                assert forall|xx: int, yy: int| 0 <= xx < w && 0 <= yy < h implies #[trigger] prev(
                    xx,
                    yy,
                ) == next(xx, yy) by {
                    lemma_wrap_back(xx, px);
                    lemma_wrap_back(yy, py);
                }
                lemma_frame_congr(old, cur, w, h, prev, next);
            }
        },
        None => {
            assert forall|xx: int, yy: int| 0 <= xx < w && 0 <= yy < h implies #[trigger] prev(xx, yy)
                == next(xx, yy) by {
                lemma_wrap_back(xx, px);
                lemma_wrap_back(yy, py);
            }
            lemma_frame_congr(old, cur, w, h, prev, next);
        },
    }
}

} // verus!

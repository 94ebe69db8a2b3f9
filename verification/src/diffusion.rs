use vstd::prelude::*;

verus! {

/// Saturation bound of one accumulator. Error values are fixed-point numbers
/// (65536 = one full channel), so this bound is far beyond anything a
/// rendering pass can accumulate; it exists so that the buffer is total.
pub const ACC_SAT: i64 = 0x100000000000000;

/// Largest magnitude a single pushed delta may have.
pub const DELTA_MAX: i64 = 0x1000000000000000;

/// Sum of all accumulators of a grid.
pub open spec fn grid_sum(s: Seq<i64>) -> int
    decreases s.len(),
{
    if s.len() == 0 {
        0
    } else {
        grid_sum(s.drop_last()) + s.last()
    }
}

/// Index of the accumulator for position (x, y) and channel c in a grid of
/// width w with ch channels per position.
pub open spec fn grid_index(w: int, ch: int, x: int, y: int, c: int) -> int {
    (y * w + x) * ch + c
}

/// Saturating addition at the accumulator bound.
pub open spec fn sat_add(v: int, d: int) -> int {
    if v + d > ACC_SAT {
        ACC_SAT as int
    } else if v + d < -ACC_SAT {
        -(ACC_SAT as int)
    } else {
        v + d
    }
}

/// One accumulation step: add `d` to the accumulator of (x, y, c), or leave
/// the grid unchanged when (x, y) lies outside it.
pub open spec fn push_one(g: Seq<i64>, w: int, h: int, ch: int, x: int, y: int, c: int, d: int) -> Seq<i64> {
    if 0 <= x < w && 0 <= y < h {
        let i = grid_index(w, ch, x, y, c);
        g.update(i, sat_add(g[i] as int, d) as i64)
    } else {
        g
    }
}

/// Horizontal offset of diffusion tap `i` from the source pixel.
pub open spec fn tap_dx(i: int) -> int {
    if i == 0 { 1 } else if i == 1 { 2 }
    else if i == 2 { -2 } else if i == 3 { -1 } else if i == 4 { 0 } else if i == 5 { 1 } else if i == 6 { 2 }
    else if i == 7 { -2 } else if i == 8 { -1 } else if i == 9 { 0 } else if i == 10 { 1 } else { 2 }
}

/// Vertical offset of diffusion tap `i` from the source pixel.
pub open spec fn tap_dy(i: int) -> int {
    if i <= 1 { 0 } else if i <= 6 { 1 } else { 2 }
}

/// Cumulative kernel weight, in forty-seconds, of taps 0 ..= i. The single
/// weights are 8, 4, 2, 4, 8, 4, 2, 1, 2, 4, 2, 1; they sum to 42, so the
/// kernel as a whole carries exactly the full error.
pub open spec fn tap_cum(i: int) -> int {
    if i < 0 { 0 }
    else if i == 0 { 8 } else if i == 1 { 12 }
    else if i == 2 { 14 } else if i == 3 { 18 } else if i == 4 { 26 } else if i == 5 { 30 } else if i == 6 { 32 }
    else if i == 7 { 33 } else if i == 8 { 35 } else if i == 9 { 39 } else if i == 10 { 41 } else { 42 }
}

/// The share of error `e` carried by tap `i`: the difference of two
/// cumulative shares, so that the twelve deltas sum to exactly `e`.
pub open spec fn tap_delta(e: int, i: int) -> int {
    (e * tap_cum(i)) / 42 - (e * tap_cum(i - 1)) / 42
}

/// The grid after the first `n` diffusion taps of error `e` sourced at
/// pixel (x, y), channel c.
pub open spec fn push_taps(g: Seq<i64>, w: int, h: int, ch: int, x: int, y: int, c: int, e: int, n: int) -> Seq<i64>
    decreases n,
{
    if n <= 0 {
        g
    } else {
        push_one(
            push_taps(g, w, h, ch, x, y, c, e, n - 1),
            w, h, ch,
            x + tap_dx(n - 1), y + tap_dy(n - 1), c,
            tap_delta(e, n - 1),
        )
    }
}

/// Sum of the tap deltas of the first `n` taps that land inside the grid.
pub open spec fn in_bounds_delta_sum(w: int, h: int, x: int, y: int, e: int, n: int) -> int
    decreases n,
{
    if n <= 0 {
        0
    } else {
        in_bounds_delta_sum(w, h, x, y, e, n - 1)
            + if 0 <= x + tap_dx(n - 1) < w && 0 <= y + tap_dy(n - 1) < h {
                tap_delta(e, n - 1)
            } else {
                0
            }
    }
}

/// A 2D accumulator of pending per-channel quantization error, scanned and
/// mutated in raster order during one rendering pass.
pub struct ErrorDiffusionBuffer {
    pub width: usize,
    pub height: usize,
    pub channels: usize,
    pub data: Vec<i64>,
}

impl ErrorDiffusionBuffer {
    pub open spec fn spec_width(self) -> int {
        self.width as int
    }

    pub open spec fn spec_height(self) -> int {
        self.height as int
    }

    pub open spec fn spec_channels(self) -> int {
        self.channels as int
    }

    pub open spec fn grid(self) -> Seq<i64> {
        self.data@
    }

    /// Well-formed: the grid holds one accumulator per position and channel,
    /// and every accumulator is within the saturation bound.
    pub open spec fn wf(self) -> bool {
        &&& self.data@.len() == self.spec_width() * self.spec_height() * self.spec_channels()
        &&& self.spec_width() <= 16384
        &&& self.spec_height() <= 16384
        &&& 1 <= self.spec_channels() <= 4
        &&& forall|i: int| 0 <= i < self.data@.len() ==> -ACC_SAT <= #[trigger] self.data@[i] <= ACC_SAT
    }

    /// The accumulated error at position (x, y), channel c.
    pub open spec fn value_at(self, x: int, y: int, c: int) -> int {
        self.grid()[grid_index(self.spec_width(), self.spec_channels(), x, y, c)] as int
    }

    /// A zero-initialized buffer of the given dimensions.
    pub fn new(width: usize, height: usize, channels: usize) -> (r: ErrorDiffusionBuffer)
        requires
            width <= 16384,
            height <= 16384,
            1 <= channels <= 4,
        ensures
            r.wf(),
            r.spec_width() == width,
            r.spec_height() == height,
            r.spec_channels() == channels,
            r.grid() == Seq::<i64>::new((width * height * channels) as nat, |i: int| 0i64),
            grid_sum(r.grid()) == 0,
    {
        proof {
            assert(width * height <= 0x10000000) by (nonlinear_arith)
                requires width <= 16384 && height <= 16384;
            assert(width * height * channels <= 0x40000000) by (nonlinear_arith)
                requires width * height <= 0x10000000 && channels <= 4;
        }
        let n: usize = width * height * channels;
        let mut data: Vec<i64> = Vec::new();
        let mut i: usize = 0;
        while i < n
            invariant
                i <= n,
                data@.len() == i,
                forall|j: int| 0 <= j < i ==> #[trigger] data@[j] == 0i64,
            decreases n - i,
        {
            data.push(0);
            i += 1;
        }
        proof {
            assert(data@ =~= Seq::<i64>::new(n as nat, |i: int| 0i64));
            lemma_zero_grid_sum(data@);
        }
        ErrorDiffusionBuffer { width, height, channels, data }
    }

    /// Read the pending error at (x, y, c). Reading does not clear the
    /// accumulator.
    pub fn take(&self, x: usize, y: usize, c: usize) -> (r: i64)
        requires
            self.wf(),
            x < self.spec_width(),
            y < self.spec_height(),
            c < self.spec_channels(),
        ensures
            r == self.value_at(x as int, y as int, c as int),
    {
        proof {
            lemma_grid_index_bound(self.spec_width(), self.spec_height(), self.spec_channels(), x as int, y as int, c as int);
            lemma_index_arith(self.spec_width(), self.spec_height(), self.spec_channels(), x as int, y as int, c as int);
        }
        let idx: usize = (y * self.width + x) * self.channels + c;
        self.data[idx]
    }

    /// Accumulate a signed error contribution at (x, y, c); a position
    /// outside the grid is left untouched, so diffusion that would land
    /// beyond the image edge is silently dropped.
    pub fn add(&mut self, x: i64, y: i64, c: usize, delta: i64)
        requires
            old(self).wf(),
            c < old(self).spec_channels(),
            -DELTA_MAX <= delta <= DELTA_MAX,
        ensures
            final(self).wf(),
            final(self).spec_width() == old(self).spec_width(),
            final(self).spec_height() == old(self).spec_height(),
            final(self).spec_channels() == old(self).spec_channels(),
            final(self).grid() == push_one(old(self).grid(), old(self).spec_width(), old(self).spec_height(),
                old(self).spec_channels(), x as int, y as int, c as int, delta as int),
    {
        if x >= 0 && y >= 0 && x < self.width as i64 && y < self.height as i64 {
            proof {
                lemma_grid_index_bound(self.spec_width(), self.spec_height(), self.spec_channels(), x as int, y as int, c as int);
                lemma_index_arith(self.spec_width(), self.spec_height(), self.spec_channels(), x as int, y as int, c as int);
            }
            let xu: usize = x as usize;
            let yu: usize = y as usize;
            let idx: usize = (yu * self.width + xu) * self.channels + c;
            let v: i64 = self.data[idx];
            let s: i64 = v + delta;
            let clamped: i64 = if s > ACC_SAT {
                ACC_SAT
            } else if s < -ACC_SAT {
                -ACC_SAT
            } else {
                s
            };
            self.data.set(idx, clamped);
        }
    }

    /// Diffuse the error `e` sourced at pixel (x, y), channel c, forward over
    /// the fixed 12-tap kernel (2 columns ahead and behind, 2 rows below).
    /// Each tap receives its kernel weight's share in forty-seconds, split so
    /// that the twelve shares sum to exactly `e`.
    pub fn push_error(&mut self, x: usize, y: usize, c: usize, e: i64)
        requires
            old(self).wf(),
            x < old(self).spec_width(),
            y < old(self).spec_height(),
            c < old(self).spec_channels(),
            -0x100000000000000 <= e <= 0x100000000000000,
        ensures
            final(self).wf(),
            final(self).spec_width() == old(self).spec_width(),
            final(self).spec_height() == old(self).spec_height(),
            final(self).spec_channels() == old(self).spec_channels(),
            final(self).grid() == push_taps(old(self).grid(), old(self).spec_width(), old(self).spec_height(),
                old(self).spec_channels(), x as int, y as int, c as int, e as int, 12),
    {
        let xi: i64 = x as i64;
        let yi: i64 = y as i64;
        let mut prev: i64 = 0;
        let mut i: u8 = 0;
        while i < 12
            invariant
                self.wf(),
                self.spec_width() == old(self).spec_width(),
                self.spec_height() == old(self).spec_height(),
                self.spec_channels() == old(self).spec_channels(),
                c < self.spec_channels(),
                xi == x as int,
                yi == y as int,
                x < self.spec_width(),
                y < self.spec_height(),
                -0x100000000000000 <= e <= 0x100000000000000,
                i <= 12,
                prev == (e * tap_cum(i as int - 1)) / 42,
                self.grid() == push_taps(old(self).grid(), old(self).spec_width(), old(self).spec_height(),
                    old(self).spec_channels(), x as int, y as int, c as int, e as int, i as int),
            decreases 12 - i,
        {
            let (dx, dy, cum): (i64, i64, i64) = match i {
                0 => (1, 0, 8),
                1 => (2, 0, 12),
                2 => (-2, 1, 14),
                3 => (-1, 1, 18),
                4 => (0, 1, 26),
                5 => (1, 1, 30),
                6 => (2, 1, 32),
                7 => (-2, 2, 33),
                8 => (-1, 2, 35),
                9 => (0, 2, 39),
                10 => (1, 2, 41),
                _ => (2, 2, 42),
            };
            proof {
                lemma_div_42_bounds(e as int, cum as int);
            }
            let here: i64 = floor_div_42(e * cum);
            let d: i64 = here - prev;
            proof {
                lemma_div_42_bounds(e as int, cum as int);
                lemma_div_42_bounds(e as int, tap_cum(i as int - 1));
            }
            self.add(xi + dx, yi + dy, c, d);
            prev = here;
            i += 1;
        }
    }
}

/// Floor division by 42 (exec division truncates toward zero, so negative
/// dividends need one correction step).
fn floor_div_42(a: i64) -> (q: i64)
    requires
        -0x4000000000000000 <= a <= 0x4000000000000000,
    ensures
        q == (a as int) / 42,
{
    let t: i64 = a / 42;
    if a % 42 != 0 && a < 0 {
        t - 1
    } else {
        t
    }
}

/// The cumulative share of a bounded error keeps a bounded magnitude.
proof fn lemma_div_42_bounds(e: int, cum: int)
    requires
        -0x100000000000000 <= e <= 0x100000000000000,
        0 <= cum <= 42,
    ensures
        -0x4000000000000000 <= e * cum <= 0x4000000000000000,
        -0x200000000000000 <= (e * cum) / 42 <= 0x200000000000000,
{
    assert(-0x4000000000000000 <= e * cum <= 0x4000000000000000) by (nonlinear_arith)
        requires -0x100000000000000 <= e <= 0x100000000000000 && 0 <= cum <= 42;
    vstd::arithmetic::div_mod::lemma_div_is_ordered(e * cum, 0x4000000000000000, 42);
    vstd::arithmetic::div_mod::lemma_div_is_ordered(-0x4000000000000000, e * cum, 42);
}

/// Intermediate bounds of the index computation, so that it stays inside
/// the machine range.
pub proof fn lemma_index_arith(w: int, h: int, ch: int, x: int, y: int, c: int)
    requires
        0 <= x < w <= 16384,
        0 <= y < h <= 16384,
        0 <= c < ch <= 4,
    ensures
        0 <= y * w,
        y * w + x < 0x10000000,
        0 <= (y * w + x) * ch,
        (y * w + x) * ch + c < 0x40000000,
{
    assert(0 <= y * w && y * w + x < 0x10000000) by (nonlinear_arith)
        requires 0 <= x < w <= 16384 && 0 <= y < h <= 16384;
    assert(0 <= (y * w + x) * ch && (y * w + x) * ch + c < 0x40000000) by (nonlinear_arith)
        requires 0 <= y * w + x < 0x10000000 && 0 <= c < ch <= 4;
}

/// An all-zero grid sums to zero.
pub proof fn lemma_zero_grid_sum(s: Seq<i64>)
    requires
        forall|i: int| 0 <= i < s.len() ==> #[trigger] s[i] == 0i64,
    ensures
        grid_sum(s) == 0,
    decreases s.len(),
{
    if s.len() > 0 {
        lemma_zero_grid_sum(s.drop_last());
    }
}

/// Updating one accumulator changes the grid sum by the difference.
pub proof fn lemma_grid_sum_update(s: Seq<i64>, i: int, v: i64)
    requires
        0 <= i < s.len(),
    ensures
        grid_sum(s.update(i, v)) == grid_sum(s) - s[i] + v,
    decreases s.len(),
{
    if i == s.len() - 1 {
        assert(s.update(i, v).drop_last() =~= s.drop_last());
    } else {
        assert(s.update(i, v).drop_last() =~= s.drop_last().update(i, v));
        lemma_grid_sum_update(s.drop_last(), i, v);
    }
}

/// A position and channel inside the grid indexes inside the grid's length.
pub proof fn lemma_grid_index_bound(w: int, h: int, ch: int, x: int, y: int, c: int)
    requires
        0 <= x < w,
        0 <= y < h,
        0 <= c < ch,
    ensures
        0 <= grid_index(w, ch, x, y, c) < w * h * ch,
{
    assert(0 <= (y * w + x) * ch + c < w * h * ch) by (nonlinear_arith)
        requires 0 <= x < w && 0 <= y < h && 0 <= c < ch;
}

/// Distinct in-bounds positions and channels index distinct accumulators.
pub proof fn lemma_grid_index_injective(w: int, h: int, ch: int, x1: int, y1: int, c1: int, x2: int, y2: int, c2: int)
    requires
        0 <= x1 < w,
        0 <= y1 < h,
        0 <= c1 < ch,
        0 <= x2 < w,
        0 <= y2 < h,
        0 <= c2 < ch,
        (x1, y1, c1) != (x2, y2, c2),
    ensures
        grid_index(w, ch, x1, y1, c1) != grid_index(w, ch, x2, y2, c2),
{
    assert((y1 * w + x1) * ch + c1 != (y2 * w + x2) * ch + c2) by (nonlinear_arith)
        requires
            0 <= x1 < w && 0 <= y1 < h && 0 <= c1 < ch
            && 0 <= x2 < w && 0 <= y2 < h && 0 <= c2 < ch
            && !(x1 == x2 && y1 == y2 && c1 == c2);
}


/// Magnitude bound kept by every accumulator for the conservation law:
/// far below the saturation bound, far above anything a pass accumulates.
pub const ACC_ROOM: i64 = 0x1000000000000;

/// Error magnitude bound for the conservation law.
pub const ERR_ROOM: i64 = 0x10000000000;

/// Each tap's share of the error never exceeds the error itself: for a
/// non-negative error every delta lies in [0, e], for a negative one in
/// [e, 0].
pub proof fn lemma_tap_delta_bound(e: int, i: int)
    ensures
        e >= 0 ==> 0 <= tap_delta(e, i) <= e,
        e < 0 ==> e <= tap_delta(e, i) <= 0,
{
    let c0 = tap_cum(i - 1);
    let c1 = tap_cum(i);
    assert(0 <= c0 <= c1 <= 42);
    if e >= 0 {
        assert(0 <= e * c0 && e * c0 <= e * c1 && e * c1 <= e * 42) by (nonlinear_arith)
            requires e >= 0 && 0 <= c0 <= c1 <= 42;
        vstd::arithmetic::div_mod::lemma_div_is_ordered(0, e * c0, 42);
        vstd::arithmetic::div_mod::lemma_div_is_ordered(e * c0, e * c1, 42);
        vstd::arithmetic::div_mod::lemma_div_is_ordered(e * c1, e * 42, 42);
        vstd::arithmetic::div_mod::lemma_div_multiples_vanish(e, 42);
        assert(e * 42 == 42 * e);
    } else {
        assert(e * 42 <= e * c1 && e * c1 <= e * c0 && e * c0 <= 0) by (nonlinear_arith)
            requires e < 0 && 0 <= c0 <= c1 <= 42;
        vstd::arithmetic::div_mod::lemma_div_is_ordered(e * c0, 0, 42);
        vstd::arithmetic::div_mod::lemma_div_is_ordered(e * c1, e * c0, 42);
        vstd::arithmetic::div_mod::lemma_div_is_ordered(e * 42, e * c1, 42);
        vstd::arithmetic::div_mod::lemma_div_multiples_vanish(e, 42);
        assert(e * 42 == 42 * e);
    }
}

/// The twelve tap positions of one source pixel are pairwise distinct.
proof fn lemma_tap_positions_distinct(i: int, j: int)
    requires
        0 <= i < 12,
        0 <= j < 12,
        i != j,
    ensures
        (tap_dx(i), tap_dy(i)) != (tap_dx(j), tap_dy(j)),
{
}

/// Whether grid slot `s` is the target of one of the first `n` in-bounds taps.
pub open spec fn is_tap_target(w: int, h: int, ch: int, x: int, y: int, c: int, n: int, s: int) -> bool {
    exists|i: int|
        0 <= i < n
        && 0 <= x + tap_dx(i) < w
        && 0 <= y + tap_dy(i) < h
        && s == grid_index(w, ch, x + tap_dx(i), y + tap_dy(i), c)
}

/// Conservation of diffused error: pushing an error `e` from source pixel
/// (x, y) adds to the grid total exactly the sum of the tap deltas that land
/// inside the grid, and touches no other accumulator. Nothing is lost or
/// invented except at the image edge, where out-of-bounds taps are dropped.
pub proof fn lemma_push_taps_conserves(g: Seq<i64>, w: int, h: int, ch: int, x: int, y: int, c: int, e: int, n: int)
    requires
        0 <= n <= 12,
        0 <= x < w,
        0 <= y < h,
        0 <= c < ch,
        g.len() == w * h * ch,
        -ERR_ROOM <= e <= ERR_ROOM,
        forall|i: int| 0 <= i < g.len() ==> -ACC_ROOM <= #[trigger] g[i] <= ACC_ROOM,
    ensures
        push_taps(g, w, h, ch, x, y, c, e, n).len() == g.len(),
        grid_sum(push_taps(g, w, h, ch, x, y, c, e, n))
            == grid_sum(g) + in_bounds_delta_sum(w, h, x, y, e, n),
        forall|s: int| 0 <= s < g.len() && !is_tap_target(w, h, ch, x, y, c, n, s)
            ==> #[trigger] push_taps(g, w, h, ch, x, y, c, e, n)[s] == g[s],
    decreases n,
{
    if n > 0 {
        lemma_push_taps_conserves(g, w, h, ch, x, y, c, e, n - 1);
        let prev = push_taps(g, w, h, ch, x, y, c, e, n - 1);
        let tx = x + tap_dx(n - 1);
        let ty = y + tap_dy(n - 1);
        lemma_tap_delta_bound(e, n - 1);
        if 0 <= tx < w && 0 <= ty < h {
            let s = grid_index(w, ch, tx, ty, c);
            lemma_grid_index_bound(w, h, ch, tx, ty, c);
            assert(!is_tap_target(w, h, ch, x, y, c, n - 1, s)) by {
                assert forall|i: int|
                    0 <= i < n - 1
                    && 0 <= x + tap_dx(i) < w
                    && 0 <= y + tap_dy(i) < h
                    implies grid_index(w, ch, x + tap_dx(i), y + tap_dy(i), c) != s by {
                    lemma_tap_positions_distinct(i, n - 1);
                    lemma_grid_index_injective(w, h, ch, x + tap_dx(i), y + tap_dy(i), c, tx, ty, c);
                }
            }
            assert(prev[s] == g[s]);
            lemma_grid_sum_update(prev, s, sat_add(prev[s] as int, tap_delta(e, n - 1)) as i64);
            assert forall|s2: int| 0 <= s2 < g.len() && !is_tap_target(w, h, ch, x, y, c, n, s2)
                implies #[trigger] push_taps(g, w, h, ch, x, y, c, e, n)[s2] == g[s2] by {
                assert(!is_tap_target(w, h, ch, x, y, c, n - 1, s2));
                assert(s2 != s);
            }
        } else {
            assert forall|s2: int| 0 <= s2 < g.len() && !is_tap_target(w, h, ch, x, y, c, n, s2)
                implies #[trigger] push_taps(g, w, h, ch, x, y, c, e, n)[s2] == g[s2] by {
                assert(!is_tap_target(w, h, ch, x, y, c, n - 1, s2));
            }
        }
    }
}

/// The in-bounds tap deltas of the first `n` taps telescope to the
/// cumulative share of the last tap, when every tap lands inside the grid.
proof fn lemma_delta_sum_interior(w: int, h: int, x: int, y: int, e: int, n: int)
    requires
        0 <= n <= 12,
        2 <= x,
        x + 2 < w,
        y + 2 < h,
        0 <= y,
    ensures
        in_bounds_delta_sum(w, h, x, y, e, n) == (e * tap_cum(n - 1)) / 42,
    decreases n,
{
    if n == 0 {
    } else {
        lemma_delta_sum_interior(w, h, x, y, e, n - 1);
    }
}

/// Full conservation in the image interior: a source pixel at least two
/// columns from the side edges and two rows above the bottom edge diffuses
/// exactly its whole error into the grid.
pub proof fn lemma_push_taps_interior_sum(g: Seq<i64>, w: int, h: int, ch: int, x: int, y: int, c: int, e: int)
    requires
        2 <= x,
        x + 2 < w,
        0 <= y,
        y + 2 < h,
        0 <= c < ch,
        g.len() == w * h * ch,
        -ERR_ROOM <= e <= ERR_ROOM,
        forall|i: int| 0 <= i < g.len() ==> -ACC_ROOM <= #[trigger] g[i] <= ACC_ROOM,
    ensures
        grid_sum(push_taps(g, w, h, ch, x, y, c, e, 12)) == grid_sum(g) + e,
{
    lemma_push_taps_conserves(g, w, h, ch, x, y, c, e, 12);
    lemma_delta_sum_interior(w, h, x, y, e, 12);
    vstd::arithmetic::div_mod::lemma_div_multiples_vanish(e, 42);
    assert(e * 42 == 42 * e);
}

/// Pushing a zero error changes nothing.
pub proof fn lemma_push_taps_zero(g: Seq<i64>, w: int, h: int, ch: int, x: int, y: int, c: int, n: int)
    requires
        0 <= n <= 12,
        0 <= x < w,
        0 <= y < h,
        0 <= c < ch,
        g.len() == w * h * ch,
        forall|i: int| 0 <= i < g.len() ==> -ACC_SAT <= #[trigger] g[i] <= ACC_SAT,
    ensures
        push_taps(g, w, h, ch, x, y, c, 0, n) == g,
    decreases n,
{
    if n > 0 {
        lemma_push_taps_zero(g, w, h, ch, x, y, c, n - 1);
        let tx = x + tap_dx(n - 1);
        let ty = y + tap_dy(n - 1);
        if 0 <= tx < w && 0 <= ty < h {
            let s = grid_index(w, ch, tx, ty, c);
            lemma_grid_index_bound(w, h, ch, tx, ty, c);
            assert(g.update(s, sat_add(g[s] as int, 0) as i64) =~= g);
        }
    }
}

} // verus!

use vstd::prelude::*;

use crate::color::{linear_of, encoded_of, to_linear, to_encoded, lemma_encoded_range};
use crate::fixed::{spec_icbrt, icbrt64};

verus! {

/// Truncating (toward zero) division by a positive divisor, matching how
/// machine division of signed values behaves.
pub open spec fn tdiv(a: int, d: int) -> int {
    if a >= 0 { a / d } else { -((-a) / d) }
}

fn div_fp(a: i64) -> (q: i64)
    requires
        -0x4000000000000000 <= a <= 0x4000000000000000,
    ensures
        q == tdiv(a as int, 65536),
{
    if a >= 0 { a / 65536 } else { -((-a) / 65536) }
}

fn div_sq(a: i64) -> (q: i64)
    requires
        -0x4000000000000000 <= a <= 0x4000000000000000,
    ensures
        q == tdiv(a as int, 0x100000000),
{
    if a >= 0 { a / 0x100000000 } else { -((-a) / 0x100000000) }
}

/// Truncating division keeps a scaled bound.
proof fn lemma_tdiv_bound(x: int, d: int, b: int)
    requires
        0 < d,
        0 <= b,
        x <= b * d,
        x >= -(b * d),
    ensures
        -b <= tdiv(x, d) <= b,
{
    assert(b * d == d * b) by (nonlinear_arith);
    vstd::arithmetic::div_mod::lemma_div_multiples_vanish(b, d);
    assert((b * d) / d == b);
    if x >= 0 {
        vstd::arithmetic::div_mod::lemma_div_is_ordered(x, b * d, d);
        vstd::arithmetic::div_mod::lemma_div_is_ordered(0, x, d);
    } else {
        assert(-x <= b * d);
        vstd::arithmetic::div_mod::lemma_div_is_ordered(-x, b * d, d);
        vstd::arithmetic::div_mod::lemma_div_is_ordered(0, -x, d);
    }
}

/// A non-negative numerator up to the unit square divides down to the unit
/// scale.
proof fn lemma_unit_div(x: int)
    requires
        0 <= x <= 0x100000000,
    ensures
        0 <= x / 65536 <= 65536,
{
    vstd::arithmetic::div_mod::lemma_div_is_ordered(0, x, 65536);
    vstd::arithmetic::div_mod::lemma_div_is_ordered(x, 0x100000000, 65536);
}

/// The long, medium and short cone responses of a linear RGB color: the
/// fixed 3 x 3 matrix, on the unit scale. Every coefficient is positive, so
/// the responses of an in-range color are non-negative.
pub open spec fn lms_of(r: int, g: int, b: int) -> (int, int, int) {
    ((27015 * r + 35149 * g + 3372 * b) / 65536, (13887 * r + 44610 * g + 7038 * b) / 65536, (5787 * r + 18463 * g + 41286 * b) / 65536)
}

/// The cube root of a unit-scale value, on the unit scale.
pub open spec fn cbrt_fp(v: int) -> int {
    spec_icbrt((v * 0x100000000) as nat) as int
}

/// The perceptual (L, a, b) coordinates of a linear RGB color: cone
/// responses, component-wise cube root, then the second fixed matrix.
pub open spec fn oklab_of(r: int, g: int, b: int) -> (int, int, int) {
    let lm = lms_of(r, g, b);
    let lc = cbrt_fp(lm.0);
    let mc = cbrt_fp(lm.1);
    let sc = cbrt_fp(lm.2);
    (
        tdiv(13792 * lc + 52011 * mc - 267 * sc, 65536),
        tdiv(129630 * lc + 29530 * sc - 159160 * mc, 65536),
        tdiv(1698 * lc + 51300 * mc - 52997 * sc, 65536),
    )
}

/// Convert linear RGB (unit scale) to the perceptual space.
pub fn linear_to_oklab(r: u32, g: u32, b: u32) -> (o: (i64, i64, i64))
    requires
        r <= 65536,
        g <= 65536,
        b <= 65536,
    ensures
        o.0 == oklab_of(r as int, g as int, b as int).0,
        o.1 == oklab_of(r as int, g as int, b as int).1,
        o.2 == oklab_of(r as int, g as int, b as int).2,
{
    let l: i64 = (27015 * (r as i64) + 35149 * (g as i64) + 3372 * (b as i64)) / 65536;
    let m: i64 = (13887 * (r as i64) + 44610 * (g as i64) + 7038 * (b as i64)) / 65536;
    let s: i64 = (5787 * (r as i64) + 18463 * (g as i64) + 41286 * (b as i64)) / 65536;
    proof {
        lemma_unit_div(27015 * (r as int) + 35149 * (g as int) + 3372 * (b as int));
        lemma_unit_div(13887 * (r as int) + 44610 * (g as int) + 7038 * (b as int));
        lemma_unit_div(5787 * (r as int) + 18463 * (g as int) + 41286 * (b as int));
    }
    let lc = icbrt64((l as u64) * 0x100000000) as i64;
    let mc = icbrt64((m as u64) * 0x100000000) as i64;
    let sc = icbrt64((s as u64) * 0x100000000) as i64;
    let ol = div_fp(13792 * lc + 52011 * mc - 267 * sc);
    let oa = div_fp(129630 * lc + 29530 * sc - 159160 * mc);
    let ob = div_fp(1698 * lc + 51300 * mc - 52997 * sc);
    (ol, oa, ob)
}

/// The linear RGB color of perceptual (L, a, b) coordinates: the inverse
/// matrix to cone space, component-wise cube, then the inverse matrix to
/// linear RGB. The result can leave the unit range for out-of-gamut inputs;
/// callers clamp before re-encoding.
pub open spec fn oklab_linear_of(l: int, a: int, b: int) -> (int, int, int) {
    let lc = l + tdiv(25974 * a + 14143 * b, 65536);
    let mc = l - tdiv(6918 * a + 4185 * b, 65536);
    let sc = l - tdiv(5864 * a + 84639 * b, 65536);
    let lv = tdiv(lc * lc * lc, 0x100000000);
    let mv = tdiv(mc * mc * mc, 0x100000000);
    let sv = tdiv(sc * sc * sc, 0x100000000);
    (
        tdiv(267173 * lv + 15137 * sv - 216774 * mv, 65536),
        tdiv(171033 * mv - 83128 * lv - 22369 * sv, 65536),
        tdiv(111910 * sv - 275 * lv - 46099 * mv, 65536),
    )
}

/// Convert perceptual (L, a, b) coordinates back to linear RGB.
pub fn oklab_to_linear(l: i64, a: i64, b: i64) -> (o: (i64, i64, i64))
    requires
        -0x40000 <= l <= 0x40000,
        -0x40000 <= a <= 0x40000,
        -0x40000 <= b <= 0x40000,
    ensures
        o.0 == oklab_linear_of(l as int, a as int, b as int).0,
        o.1 == oklab_linear_of(l as int, a as int, b as int).1,
        o.2 == oklab_linear_of(l as int, a as int, b as int).2,
{
    proof {
        lemma_tdiv_bound(25974 * (a as int) + 14143 * (b as int), 65536, 0x100000);
        lemma_tdiv_bound(6918 * (a as int) + 4185 * (b as int), 65536, 0x100000);
        lemma_tdiv_bound(5864 * (a as int) + 84639 * (b as int), 65536, 0x100000);
    }
    let lc: i64 = l + div_fp(25974 * a + 14143 * b);
    let mc: i64 = l - div_fp(6918 * a + 4185 * b);
    let sc: i64 = l - div_fp(5864 * a + 84639 * b);
    proof {
        assert(0 <= lc * lc <= 0x140000i64 * 0x140000
            && lc * lc * lc <= 0x140000i64 * 0x140000 * 0x140000
            && lc * lc * lc >= -(0x140000i64 * 0x140000 * 0x140000)) by (nonlinear_arith)
            requires -0x140000 <= lc <= 0x140000;
        assert(0 <= mc * mc <= 0x140000i64 * 0x140000
            && mc * mc * mc <= 0x140000i64 * 0x140000 * 0x140000
            && mc * mc * mc >= -(0x140000i64 * 0x140000 * 0x140000)) by (nonlinear_arith)
            requires -0x140000 <= mc <= 0x140000;
        assert(0 <= sc * sc <= 0x140000i64 * 0x140000
            && sc * sc * sc <= 0x140000i64 * 0x140000 * 0x140000
            && sc * sc * sc >= -(0x140000i64 * 0x140000 * 0x140000)) by (nonlinear_arith)
            requires -0x140000 <= sc <= 0x140000;
        lemma_tdiv_bound(lc * lc * lc, 0x100000000, 0x20000000);
        lemma_tdiv_bound(mc * mc * mc, 0x100000000, 0x20000000);
        lemma_tdiv_bound(sc * sc * sc, 0x100000000, 0x20000000);
    }
    let lv = div_sq(lc * lc * lc);
    let mv = div_sq(mc * mc * mc);
    let sv = div_sq(sc * sc * sc);
    let rr = div_fp(267173 * lv + 15137 * sv - 216774 * mv);
    let gg = div_fp(171033 * mv - 83128 * lv - 22369 * sv);
    let bb = div_fp(111910 * sv - 275 * lv - 46099 * mv);
    (rr, gg, bb)
}

/// Convert an encoded 8-bit RGB color to the perceptual space: decode each
/// channel to linear light, then convert.
pub fn srgb_to_oklab(r: u8, g: u8, b: u8) -> (o: (i64, i64, i64))
    ensures
        o.0 == oklab_of(linear_of(r as int), linear_of(g as int), linear_of(b as int)).0,
        o.1 == oklab_of(linear_of(r as int), linear_of(g as int), linear_of(b as int)).1,
        o.2 == oklab_of(linear_of(r as int), linear_of(g as int), linear_of(b as int)).2,
{
    linear_to_oklab(to_linear(r), to_linear(g), to_linear(b))
}

/// Clamp a linear value to the unit range, as re-encoding requires for
/// out-of-gamut perceptual inputs.
pub open spec fn clamp_lin(v: int) -> int {
    if v < 0 { 0 } else if v > 65536 { 65536 } else { v }
}

/// Convert perceptual (L, a, b) coordinates to an encoded 8-bit RGB color,
/// clamping each linear channel into range before re-encoding.
pub fn oklab_to_srgb(l: i64, a: i64, b: i64) -> (o: (u8, u8, u8))
    requires
        -0x40000 <= l <= 0x40000,
        -0x40000 <= a <= 0x40000,
        -0x40000 <= b <= 0x40000,
    ensures
        o.0 == encoded_of(clamp_lin(oklab_linear_of(l as int, a as int, b as int).0)),
        o.1 == encoded_of(clamp_lin(oklab_linear_of(l as int, a as int, b as int).1)),
        o.2 == encoded_of(clamp_lin(oklab_linear_of(l as int, a as int, b as int).2)),
{
    let (lr, lg, lb) = oklab_to_linear(l, a, b);
    let cr: u32 = if lr < 0 { 0 } else if lr > 65536 { 65536 } else { lr as u32 };
    let cg: u32 = if lg < 0 { 0 } else if lg > 65536 { 65536 } else { lg as u32 };
    let cb: u32 = if lb < 0 { 0 } else if lb > 65536 { 65536 } else { lb as u32 };
    proof { lemma_encoded_range(cr as int); }
    (to_encoded(cr), to_encoded(cg), to_encoded(cb))
}

/// Whether perceptual coordinates map into the displayable gamut: every
/// linear channel within the unit range.
pub open spec fn in_gamut(l: int, a: int, b: int) -> bool {
    let o = oklab_linear_of(l, a, b);
    0 <= o.0 <= 65536 && 0 <= o.1 <= 65536 && 0 <= o.2 <= 65536
}

/// One binary-search run for the highest in-gamut luma: `n` halving steps
/// between `lo` and `hi`, keeping the best in-gamut midpoint seen.
pub open spec fn max_luma_steps(lo: int, hi: int, best: int, a: int, b: int, n: int) -> int
    decreases n,
{
    if n <= 0 {
        best
    } else {
        let mid = (lo + hi) / 2;
        if in_gamut(mid, a, b) {
            max_luma_steps(mid, hi, mid, a, b, n - 1)
        } else {
            max_luma_steps(lo, mid, best, a, b, n - 1)
        }
    }
}

/// Raise the luma of a perceptual color as high as the displayable gamut
/// allows, by twenty steps of binary search between the given luma and full
/// brightness; the given luma is returned unchanged when no probed midpoint
/// is in gamut.
pub fn maximize_oklab_luma_within_srgb(l: i64, a: i64, b: i64) -> (r: (i64, i64, i64))
    requires
        0 <= l <= 65536,
        -0x40000 <= a <= 0x40000,
        -0x40000 <= b <= 0x40000,
    ensures
        r.0 == max_luma_steps(l as int, 65536, l as int, a as int, b as int, 20),
        r.1 == a,
        r.2 == b,
{
    let mut lo: i64 = l;
    let mut hi: i64 = 65536;
    let mut best: i64 = l;
    let mut n: u8 = 20;
    while n > 0
        invariant
            -0x40000 <= a <= 0x40000,
            -0x40000 <= b <= 0x40000,
            0 <= lo <= 65536,
            0 <= hi <= 65536,
            0 <= best <= 65536,
            n <= 20,
            max_luma_steps(l as int, 65536, l as int, a as int, b as int, 20)
                == max_luma_steps(lo as int, hi as int, best as int, a as int, b as int, n as int),
        decreases n,
    {
        let mid: i64 = (lo + hi) / 2;
        let o = oklab_to_linear(mid, a, b);
        if o.0 >= 0 && o.0 <= 65536 && o.1 >= 0 && o.1 <= 65536 && o.2 >= 0 && o.2 <= 65536 {
            best = mid;
            lo = mid;
        } else {
            hi = mid;
        }
        n -= 1;
    }
    (best, a, b)
}

} // verus!

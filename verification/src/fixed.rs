use vstd::prelude::*;

verus! {

/// Floor of the square root of a natural number, by halving recursion.
pub open spec fn spec_isqrt(v: nat) -> nat
    decreases v,
{
    if v == 0 {
        0
    } else {
        let h = spec_isqrt(v / 4) * 2;
        if (h + 1) * (h + 1) <= v {
            h + 1
        } else {
            h
        }
    }
}

/// The defining property of the floor square root.
pub proof fn lemma_isqrt_char(v: nat)
    ensures
        spec_isqrt(v) * spec_isqrt(v) <= v,
        v < (spec_isqrt(v) + 1) * (spec_isqrt(v) + 1),
    decreases v,
{
    if v > 0 {
        lemma_isqrt_char(v / 4);
        let q = v / 4;
        let a = spec_isqrt(q);
        let h = a * 2;
        assert(4 * q <= v && v < 4 * q + 4);
        assert(h * h <= v && v < (h + 2) * (h + 2)) by (nonlinear_arith)
            requires
                h == a * 2,
                a * a <= q,
                q < (a + 1) * (a + 1),
                4 * q <= v,
                v < 4 * q + 4,
                a >= 0,
                q >= 0;
        if (h + 1) * (h + 1) <= v {
            assert(spec_isqrt(v) == h + 1);
            assert(v < (spec_isqrt(v) + 1) * (spec_isqrt(v) + 1)) by (nonlinear_arith)
                requires spec_isqrt(v) == h + 1 && v < (h + 2) * (h + 2);
        } else {
            assert(spec_isqrt(v) == h);
            assert(v < (spec_isqrt(v) + 1) * (spec_isqrt(v) + 1)) by (nonlinear_arith)
                requires spec_isqrt(v) == h && !((h + 1) * (h + 1) <= v);
        }
    } else {
        assert(v == 0);
        assert(spec_isqrt(v) == 0);
        assert(v < (spec_isqrt(v) + 1) * (spec_isqrt(v) + 1)) by (nonlinear_arith)
            requires v == 0 && spec_isqrt(v) == 0;
    }
}

/// Any integer whose square brackets `v` is the floor square root.
pub proof fn lemma_isqrt_unique(v: nat, r: nat)
    requires
        r * r <= v,
        v < (r + 1) * (r + 1),
    ensures
        r == spec_isqrt(v),
{
    lemma_isqrt_char(v);
    let s = spec_isqrt(v);
    assert(r == s) by (nonlinear_arith)
        requires
            r * r <= v && v < (r + 1) * (r + 1)
            && s * s <= v && v < (s + 1) * (s + 1)
            && r >= 0 && s >= 0;
}

/// Floor square root of a 48-bit number, by binary search.
pub fn isqrt64(v: u64) -> (r: u64)
    requires
        v <= 0x1000000000000,
    ensures
        r == spec_isqrt(v as nat),
        r <= 0x1000000,
{
    let mut lo: u64 = 0;
    let mut hi: u64 = 0x1000001;
    proof {
        assert(0x1000001u64 * 0x1000001u64 > 0x1000000000000) by (nonlinear_arith);
    }
    while lo + 1 < hi
        invariant
            lo < hi <= 0x1000001,
            (lo as nat) * (lo as nat) <= v as nat,
            (v as nat) < (hi as nat) * (hi as nat),
        decreases hi - lo,
    {
        let mid: u64 = lo + (hi - lo) / 2;
        proof {
            assert(mid * mid <= 0x1000001u64 * 0x1000001u64) by (nonlinear_arith)
                requires mid <= 0x1000001u64;
        }
        if mid * mid <= v {
            lo = mid;
        } else {
            hi = mid;
        }
    }
    proof {
        lemma_isqrt_unique(v as nat, lo as nat);
    }
    lo
}

/// Floor cube root of a natural number, by halving recursion.
pub open spec fn spec_icbrt(v: nat) -> nat
    decreases v,
{
    if v == 0 {
        0
    } else {
        let h = spec_icbrt(v / 8) * 2;
        if (h + 1) * (h + 1) * (h + 1) <= v {
            h + 1
        } else {
            h
        }
    }
}

/// The defining property of the floor cube root.
pub proof fn lemma_icbrt_char(v: nat)
    ensures
        spec_icbrt(v) * spec_icbrt(v) * spec_icbrt(v) <= v,
        v < (spec_icbrt(v) + 1) * (spec_icbrt(v) + 1) * (spec_icbrt(v) + 1),
    decreases v,
{
    if v > 0 {
        lemma_icbrt_char(v / 8);
        let q = v / 8;
        let c = spec_icbrt(q);
        let h = c * 2;
        assert(8 * q <= v && v < 8 * q + 8);
        assert(h * h * h <= v && v < (h + 2) * (h + 2) * (h + 2)) by (nonlinear_arith)
            requires
                h == c * 2,
                c * c * c <= q,
                q < (c + 1) * (c + 1) * (c + 1),
                8 * q <= v,
                v < 8 * q + 8,
                c >= 0,
                q >= 0;
        if (h + 1) * (h + 1) * (h + 1) <= v {
            assert(spec_icbrt(v) == h + 1);
            assert(v < (spec_icbrt(v) + 1) * (spec_icbrt(v) + 1) * (spec_icbrt(v) + 1)) by (nonlinear_arith)
                requires spec_icbrt(v) == h + 1 && v < (h + 2) * (h + 2) * (h + 2);
        } else {
            assert(spec_icbrt(v) == h);
            assert(v < (spec_icbrt(v) + 1) * (spec_icbrt(v) + 1) * (spec_icbrt(v) + 1)) by (nonlinear_arith)
                requires spec_icbrt(v) == h && !((h + 1) * (h + 1) * (h + 1) <= v);
        }
    } else {
        assert(v == 0);
        assert(spec_icbrt(v) == 0);
        assert(v < (spec_icbrt(v) + 1) * (spec_icbrt(v) + 1) * (spec_icbrt(v) + 1)) by (nonlinear_arith)
            requires v == 0 && spec_icbrt(v) == 0;
    }
}

/// Any integer whose cube brackets `v` is the floor cube root.
pub proof fn lemma_icbrt_unique(v: nat, r: nat)
    requires
        r * r * r <= v,
        v < (r + 1) * (r + 1) * (r + 1),
    ensures
        r == spec_icbrt(v),
{
    lemma_icbrt_char(v);
    let s = spec_icbrt(v);
    assert(r == s) by (nonlinear_arith)
        requires
            r * r * r <= v && v < (r + 1) * (r + 1) * (r + 1)
            && s * s * s <= v && v < (s + 1) * (s + 1) * (s + 1)
            && r >= 0 && s >= 0;
}

/// Floor cube root of a number up to 2^54, by binary search.
pub fn icbrt64(v: u64) -> (r: u64)
    requires
        v <= 0x40000000000000,
    ensures
        r == spec_icbrt(v as nat),
        r <= 0x40000,
{
    let mut lo: u64 = 0;
    let mut hi: u64 = 0x40001;
    proof {
        assert(0x40001u64 * 0x40001u64 * 0x40001u64 > 0x40000000000000) by (nonlinear_arith);
    }
    while lo + 1 < hi
        invariant
            lo < hi <= 0x40001,
            (lo as nat) * (lo as nat) * (lo as nat) <= v as nat,
            (v as nat) < (hi as nat) * (hi as nat) * (hi as nat),
        decreases hi - lo,
    {
        let mid: u64 = lo + (hi - lo) / 2;
        proof {
            assert(mid * mid <= 0x40001u64 * 0x40001u64 && mid * mid * mid <= 0x40001u64 * 0x40001u64 * 0x40001u64) by (nonlinear_arith)
                requires mid <= 0x40001u64;
        }
        if mid * mid * mid <= v {
            lo = mid;
        } else {
            hi = mid;
        }
    }
    proof {
        lemma_icbrt_unique(v as nat, lo as nat);
    }
    lo
}

/// Fixed-point multiplication: the product of two scaled values, rescaled.
pub open spec fn fp_mul(a: int, b: int) -> int {
    (a * b) / 65536
}

/// Fixed-point square root: the root of a scaled value, on the same scale.
pub open spec fn fp_sqrt(x: int) -> int {
    spec_isqrt((x * 65536) as nat) as int
}

/// The square root of a value on the unit scale stays on the unit scale.
pub proof fn lemma_fp_sqrt_le_one(x: int)
    requires
        0 <= x <= 65536,
    ensures
        0 <= fp_sqrt(x) <= 65536,
        x == 65536 ==> fp_sqrt(x) == 65536,
        x == 0 ==> fp_sqrt(x) == 0,
{
    lemma_isqrt_char((x * 65536) as nat);
    let r = spec_isqrt((x * 65536) as nat);
    assert(r <= 65536) by (nonlinear_arith)
        requires
            r * r <= x * 65536,
            0 <= x <= 65536,
            r >= 0;
    if x == 65536 {
        assert(65536nat * 65536nat < (65536nat + 1) * (65536nat + 1)) by (nonlinear_arith);
        lemma_isqrt_unique((65536 * 65536) as nat, 65536 as nat);
    }
}

/// The product of two values on the unit scale stays on the unit scale.
pub proof fn lemma_fp_mul_le_one(a: int, b: int)
    requires
        0 <= a <= 65536,
        0 <= b <= 65536,
    ensures
        0 <= fp_mul(a, b) <= 65536,
{
    assert(0 <= a * b <= 65536 * 65536) by (nonlinear_arith)
        requires 0 <= a <= 65536 && 0 <= b <= 65536;
    vstd::arithmetic::div_mod::lemma_div_is_ordered(0, a * b, 65536);
    vstd::arithmetic::div_mod::lemma_div_is_ordered(a * b, 65536int * 65536, 65536);
}

/// Fixed-point square root of a unit-scale value.
pub fn sqrt_fp(x: u32) -> (r: u32)
    requires
        x <= 65536,
    ensures
        r == fp_sqrt(x as int),
        r <= 65536,
{
    let r = isqrt64((x as u64) * 65536);
    proof { lemma_fp_sqrt_le_one(x as int); }
    r as u32
}

/// One step of the fractional-power chain: `s` is the current iterated
/// square root of the base, `acc` the product of the roots selected by the
/// exponent bits so far, and `p` the place value of the next exponent bit.
pub open spec fn pow_frac_step(s: int, acc: int, e: int, p: int) -> int
    decreases p,
{
    if p <= 0 {
        acc
    } else {
        let s2 = fp_sqrt(s);
        let acc2 = if (e / p) % 2 == 1 { fp_mul(acc, s2) } else { acc };
        pow_frac_step(s2, acc2, e, p / 2)
    }
}

/// `x` raised to the fractional exponent `e` (both on the unit scale,
/// 65536 = 1.0): the product of iterated square roots of `x` selected by the
/// binary digits of `e`.
pub open spec fn spec_pow_frac(x: int, e: int) -> int {
    pow_frac_step(x, 65536, e, 32768)
}

/// The chain keeps unit-scale values on the unit scale.
proof fn lemma_pow_frac_step_le_one(s: int, acc: int, e: int, p: int)
    requires
        0 <= s <= 65536,
        0 <= acc <= 65536,
        0 <= p <= 32768,
    ensures
        0 <= pow_frac_step(s, acc, e, p) <= 65536,
    decreases p,
{
    if p > 0 {
        lemma_fp_sqrt_le_one(s);
        lemma_fp_mul_le_one(acc, fp_sqrt(s));
        if (e / p) % 2 == 1 {
            lemma_pow_frac_step_le_one(fp_sqrt(s), fp_mul(acc, fp_sqrt(s)), e, p / 2);
        } else {
            lemma_pow_frac_step_le_one(fp_sqrt(s), acc, e, p / 2);
        }
    }
}

/// Raise a unit-scale value to a fractional exponent below one
/// (both fixed point, 65536 = 1.0).
pub fn pow_frac(x: u32, e: u32) -> (r: u32)
    requires
        x <= 65536,
        e < 65536,
    ensures
        r == spec_pow_frac(x as int, e as int),
        r <= 65536,
{
    let mut s: u32 = x;
    let mut acc: u32 = 65536;
    let mut p: u32 = 32768;
    while p > 0
        invariant
            s <= 65536,
            acc <= 65536,
            p <= 32768,
            spec_pow_frac(x as int, e as int) == pow_frac_step(s as int, acc as int, e as int, p as int),
        decreases p,
    {
        let s2 = sqrt_fp(s);
        if (e / p) % 2 == 1 {
            proof { lemma_fp_mul_le_one(acc as int, s2 as int); }
            acc = (((acc as u64) * (s2 as u64)) / 65536) as u32;
        }
        s = s2;
        p = p / 2;
    }
    proof {
        lemma_pow_frac_step_le_one(s as int, acc as int, e as int, 0);
    }
    acc
}

} // verus!

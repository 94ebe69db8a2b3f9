use unipix::color::{to_linear, to_encoded, luma, LINEAR_ONE};
use unipix::fixed::{isqrt64, icbrt64, sqrt_fp, pow_frac};
use unipix::oklab::{srgb_to_oklab, oklab_to_srgb, linear_to_oklab, oklab_to_linear, maximize_oklab_luma_within_srgb};

#[test]
fn decode_endpoints() {
    assert_eq!(to_linear(0), 0);
    assert_eq!(to_linear(255), LINEAR_ONE);
    assert!(to_linear(127) < to_linear(128));
}

#[test]
fn decode_monotone_all() {
    for e in 0u8..255 {
        assert!(to_linear(e) < to_linear(e + 1));
    }
}

#[test]
fn encode_decode_round_trip_all() {
    for e in 0u16..=255 {
        let e = e as u8;
        assert_eq!(to_encoded(to_linear(e)), e);
    }
}

#[test]
fn encode_clamps_high() {
    assert_eq!(to_encoded(LINEAR_ONE), 255);
    assert_eq!(to_encoded(u32::MAX), 255);
    assert_eq!(to_encoded(0), 0);
}

#[test]
fn luma_weights() {
    assert_eq!(luma(255, 255, 255), 10000 * 255);
    assert_eq!(luma(0, 0, 0), 0);
    assert_eq!(luma(100, 0, 0), 2126 * 100);
    assert_eq!(luma(0, 100, 0), 7152 * 100);
    assert_eq!(luma(0, 0, 100), 722 * 100);
}

#[test]
fn integer_roots() {
    assert_eq!(isqrt64(0), 0);
    assert_eq!(isqrt64(15), 3);
    assert_eq!(isqrt64(16), 4);
    assert_eq!(isqrt64(1 << 48), 1 << 24);
    assert_eq!(icbrt64(0), 0);
    assert_eq!(icbrt64(26), 2);
    assert_eq!(icbrt64(27), 3);
    assert_eq!(icbrt64(1 << 30), 1 << 10);
}

#[test]
fn fixed_point_sqrt_and_pow() {
    assert_eq!(sqrt_fp(0), 0);
    assert_eq!(sqrt_fp(65536), 65536);
    // sqrt(0.25) == 0.5 exactly on the scale
    assert_eq!(sqrt_fp(16384), 32768);
    // x^(1/2) through the power chain agrees with the square root
    assert_eq!(pow_frac(16384, 32768), 32768);
    // endpoints are exact for any exponent
    assert_eq!(pow_frac(0, 40000), 0);
    assert_eq!(pow_frac(65536, 40000), 65536);
}

#[test]
fn oklab_white_and_black() {
    let (l, a, b) = srgb_to_oklab(255, 255, 255);
    assert!((l - 65536).abs() < 300, "white luma was {l}");
    assert!(a.abs() < 300 && b.abs() < 300);
    let (l0, a0, b0) = srgb_to_oklab(0, 0, 0);
    assert!(l0.abs() < 300 && a0.abs() < 300 && b0.abs() < 300);
}

#[test]
fn oklab_round_trip_tolerance() {
    // Round trip through the perceptual pair, within fixed-point tolerance.
    for &(r, g, b) in &[(255u8, 255u8, 255u8), (128, 64, 32), (10, 200, 60), (0, 0, 0), (255, 0, 0)] {
        let (l, a, bb) = srgb_to_oklab(r, g, b);
        let (r2, g2, b2) = oklab_to_srgb(l, a, bb);
        assert!((r as i32 - r2 as i32).abs() <= 3, "{r} vs {r2}");
        assert!((g as i32 - g2 as i32).abs() <= 3, "{g} vs {g2}");
        assert!((b as i32 - b2 as i32).abs() <= 3, "{b} vs {b2}");
    }
}

#[test]
fn oklab_linear_round_trip() {
    let (l, a, b) = linear_to_oklab(30000, 20000, 10000);
    let (r, g, bb) = oklab_to_linear(l, a, b);
    assert!((r - 30000).abs() < 400);
    assert!((g - 20000).abs() < 400);
    assert!((bb - 10000).abs() < 400);
}

#[test]
fn maximize_luma_reaches_white_for_neutral() {
    let (l, a, b) = maximize_oklab_luma_within_srgb(1000, 0, 0);
    assert_eq!(a, 0);
    assert_eq!(b, 0);
    assert!(l > 65000, "raised luma was {l}");
}

#[test]
fn maximize_luma_stops_at_gamut_edge() {
    // A strongly chromatic color cannot be raised to full brightness.
    let (l, a, b) = srgb_to_oklab(255, 0, 0);
    let (l2, _, _) = maximize_oklab_luma_within_srgb(l, a, b);
    assert!(l2 < 50000, "raised luma was {l2}");
    assert!(l2 >= l);
}

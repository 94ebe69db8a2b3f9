use unipix::glyph::{GlyphFamily, mask_to_char, quadrant_char, sextant_char, dot_matrix_char, subcell_pos, subcell_bit};

#[test]
fn quadrant_table_complete() {
    let mut seen = Vec::new();
    for m in 0u8..16 {
        let c = quadrant_char(m);
        assert!(!seen.contains(&c));
        seen.push(c);
    }
    assert_eq!(quadrant_char(0), ' ');
    assert_eq!(quadrant_char(1), '\u{2598}');
    assert_eq!(quadrant_char(9), '\u{259a}');
    assert_eq!(quadrant_char(15), '\u{2588}');
}

#[test]
fn sextant_table_complete() {
    let mut seen = Vec::new();
    for m in 0u8..64 {
        let c = sextant_char(m);
        assert!(!seen.contains(&c));
        seen.push(c);
    }
    assert_eq!(sextant_char(0), ' ');
    assert_eq!(sextant_char(1), '\u{1fb00}');
    assert_eq!(sextant_char(63), '\u{2588}');
}

#[test]
fn sextant_half_block_exceptions() {
    // The two deliberate table exceptions: solid left and right columns use
    // the pre-existing half-block characters, not sextant code points.
    assert_eq!(sextant_char(21), '\u{258c}');
    assert_eq!(sextant_char(42), '\u{2590}');
}

#[test]
fn dot_matrix_table_complete() {
    for m in 0u16..=255 {
        let c = dot_matrix_char(m as u8);
        assert_eq!(c as u32, 0x2800 + m as u32);
    }
}

#[test]
fn mask_to_char_dispatch() {
    assert_eq!(mask_to_char(GlyphFamily::Quadrant, 5), '\u{258c}');
    assert_eq!(mask_to_char(GlyphFamily::Sextant, 21), '\u{258c}');
    assert_eq!(mask_to_char(GlyphFamily::DotMatrix, 0xff), '\u{28ff}');
}

#[test]
fn braille_bit_layout() {
    // The dot-matrix enumeration follows the Braille bit layout: left
    // column rows 0..3 carry bits 1, 2, 4, the right column 8, 16, 32, and
    // the bottom row 64, 128.
    let expect = [
        ((0, 0), 1u8), ((0, 1), 2), ((0, 2), 4), ((1, 0), 8),
        ((1, 1), 16), ((1, 2), 32), ((0, 3), 64), ((1, 3), 128),
    ];
    for (k, (pos, bit)) in expect.iter().enumerate() {
        assert_eq!(subcell_pos(GlyphFamily::DotMatrix, k), *pos);
        assert_eq!(subcell_bit(k), *bit);
    }
}

#[test]
fn block_families_row_major() {
    assert_eq!(subcell_pos(GlyphFamily::Quadrant, 0), (0, 0));
    assert_eq!(subcell_pos(GlyphFamily::Quadrant, 3), (1, 1));
    assert_eq!(subcell_pos(GlyphFamily::Sextant, 4), (0, 2));
    assert_eq!(subcell_pos(GlyphFamily::Sextant, 5), (1, 2));
}

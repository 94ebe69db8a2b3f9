use vstd::prelude::*;

verus! {

/// The three glyph families: Braille dot patterns (2 x 4 sub-cells),
/// quadrant blocks (2 x 2) and legacy-computing sextant blocks (2 x 3).
#[derive(Clone, Copy, PartialEq, Eq, Structural)]
pub enum GlyphFamily {
    DotMatrix,
    Quadrant,
    Sextant,
}

impl GlyphFamily {
    /// Width of one cell in sub-pixels (the same for every family).
    pub open spec fn spec_cell_width(self) -> int {
        2
    }

    /// Height of one cell in sub-pixels.
    pub open spec fn spec_cell_height(self) -> int {
        match self {
            GlyphFamily::DotMatrix => 4,
            GlyphFamily::Quadrant => 2,
            GlyphFamily::Sextant => 3,
        }
    }

    /// Number of sub-cells (mask bits) of one cell.
    pub open spec fn spec_subcells(self) -> int {
        match self {
            GlyphFamily::DotMatrix => 8,
            GlyphFamily::Quadrant => 4,
            GlyphFamily::Sextant => 6,
        }
    }

    /// Number of distinct masks: 2 to the power of the sub-cell count.
    pub open spec fn spec_mask_count(self) -> int {
        match self {
            GlyphFamily::DotMatrix => 256,
            GlyphFamily::Quadrant => 16,
            GlyphFamily::Sextant => 64,
        }
    }

    pub fn cell_width(self) -> (w: usize)
        ensures w == self.spec_cell_width(),
    {
        2
    }

    pub fn cell_height(self) -> (h: usize)
        ensures h == self.spec_cell_height(),
    {
        match self {
            GlyphFamily::DotMatrix => 4,
            GlyphFamily::Quadrant => 2,
            GlyphFamily::Sextant => 3,
        }
    }

    pub fn subcells(self) -> (n: usize)
        ensures n == self.spec_subcells(),
    {
        match self {
            GlyphFamily::DotMatrix => 8,
            GlyphFamily::Quadrant => 4,
            GlyphFamily::Sextant => 6,
        }
    }
}

/// Column, inside its cell, of the sub-cell that carries mask bit `k`.
/// The dot-matrix family enumerates the left column of the upper three rows,
/// then the right column, then the bottom row, following the Braille
/// bit layout; the block families enumerate row-major.
pub open spec fn subcell_x_of(fam: GlyphFamily, k: int) -> int {
    match fam {
        GlyphFamily::DotMatrix => if k == 0 || k == 1 || k == 2 || k == 6 { 0 } else { 1 },
        GlyphFamily::Quadrant => if k % 2 == 0 { 0 } else { 1 },
        GlyphFamily::Sextant => if k % 2 == 0 { 0 } else { 1 },
    }
}

/// Row, inside its cell, of the sub-cell that carries mask bit `k`.
pub open spec fn subcell_y_of(fam: GlyphFamily, k: int) -> int {
    match fam {
        GlyphFamily::DotMatrix => if k == 0 || k == 3 { 0 } else if k == 1 || k == 4 { 1 }
            else if k == 2 || k == 5 { 2 } else { 3 },
        GlyphFamily::Quadrant => if k < 2 { 0 } else { 1 },
        GlyphFamily::Sextant => if k < 2 { 0 } else if k < 4 { 1 } else { 2 },
    }
}

/// The mask bit of sub-cell `k` is 2 to the power `k` in every family.
pub open spec fn subcell_bit_of(k: int) -> int {
    if k == 0 { 1 } else if k == 1 { 2 } else if k == 2 { 4 } else if k == 3 { 8 }
    else if k == 4 { 16 } else if k == 5 { 32 } else if k == 6 { 64 } else { 128 }
}

/// Position of sub-cell `k` inside a cell of family `fam`.
pub fn subcell_pos(fam: GlyphFamily, k: usize) -> (p: (usize, usize))
    requires k < fam.spec_subcells(),
    ensures
        p.0 == subcell_x_of(fam, k as int),
        p.1 == subcell_y_of(fam, k as int),
        p.0 < fam.spec_cell_width(),
        p.1 < fam.spec_cell_height(),
{
    match fam {
        GlyphFamily::DotMatrix => match k {
            0 => (0, 0),
            1 => (0, 1),
            2 => (0, 2),
            3 => (1, 0),
            4 => (1, 1),
            5 => (1, 2),
            6 => (0, 3),
            _ => (1, 3),
        },
        GlyphFamily::Quadrant => (k % 2, k / 2),
        GlyphFamily::Sextant => (k % 2, k / 2),
    }
}

/// Mask bit of sub-cell `k`.
pub fn subcell_bit(k: usize) -> (b: u8)
    requires k < 8,
    ensures b == subcell_bit_of(k as int),
{
    match k {
        0 => 1,
        1 => 2,
        2 => 4,
        3 => 8,
        4 => 16,
        5 => 32,
        6 => 64,
        _ => 128,
    }
}

/// The quadrant-block character for a 4-bit mask
/// (bit order: top-left 1, top-right 2, bottom-left 4, bottom-right 8).
pub open spec fn quadrant_char_of(m: int) -> char {
    if m == 0 { '\u{20}' }
    else if m == 1 { '\u{2598}' }
    else if m == 2 { '\u{259d}' }
    else if m == 3 { '\u{2580}' }
    else if m == 4 { '\u{2596}' }
    else if m == 5 { '\u{258c}' }
    else if m == 6 { '\u{259e}' }
    else if m == 7 { '\u{259b}' }
    else if m == 8 { '\u{2597}' }
    else if m == 9 { '\u{259a}' }
    else if m == 10 { '\u{2590}' }
    else if m == 11 { '\u{259c}' }
    else if m == 12 { '\u{2584}' }
    else if m == 13 { '\u{2599}' }
    else if m == 14 { '\u{259f}' }
    else { '\u{2588}' }
}

/// Look up the quadrant-block character of a 4-bit mask.
pub fn quadrant_char(m: u8) -> (c: char)
    requires m < 16,
    ensures c == quadrant_char_of(m as int),
{
    match m {
        0 => '\u{20}',
        1 => '\u{2598}',
        2 => '\u{259d}',
        3 => '\u{2580}',
        4 => '\u{2596}',
        5 => '\u{258c}',
        6 => '\u{259e}',
        7 => '\u{259b}',
        8 => '\u{2597}',
        9 => '\u{259a}',
        10 => '\u{2590}',
        11 => '\u{259c}',
        12 => '\u{2584}',
        13 => '\u{2599}',
        14 => '\u{259f}',
        _ => '\u{2588}',
    }
}

/// The sextant character for a 6-bit mask (bit order: top-left 1,
/// top-right 2, middle-left 4, middle-right 8, bottom-left 16,
/// bottom-right 32). Masks 21 and 42 fall on the pre-existing left and
/// right half-block characters instead of dedicated sextant code points.
pub open spec fn sextant_char_of(m: int) -> char {
    if m == 0 { '\u{20}' }
    else if m == 1 { '\u{1fb00}' }
    else if m == 2 { '\u{1fb01}' }
    else if m == 3 { '\u{1fb02}' }
    else if m == 4 { '\u{1fb03}' }
    else if m == 5 { '\u{1fb04}' }
    else if m == 6 { '\u{1fb05}' }
    else if m == 7 { '\u{1fb06}' }
    else if m == 8 { '\u{1fb07}' }
    else if m == 9 { '\u{1fb08}' }
    else if m == 10 { '\u{1fb09}' }
    else if m == 11 { '\u{1fb0a}' }
    else if m == 12 { '\u{1fb0b}' }
    else if m == 13 { '\u{1fb0c}' }
    else if m == 14 { '\u{1fb0d}' }
    else if m == 15 { '\u{1fb0e}' }
    else if m == 16 { '\u{1fb0f}' }
    else if m == 17 { '\u{1fb10}' }
    else if m == 18 { '\u{1fb11}' }
    else if m == 19 { '\u{1fb12}' }
    else if m == 20 { '\u{1fb13}' }
    else if m == 21 { '\u{258c}' }
    else if m == 22 { '\u{1fb14}' }
    else if m == 23 { '\u{1fb15}' }
    else if m == 24 { '\u{1fb16}' }
    else if m == 25 { '\u{1fb17}' }
    else if m == 26 { '\u{1fb18}' }
    else if m == 27 { '\u{1fb19}' }
    else if m == 28 { '\u{1fb1a}' }
    else if m == 29 { '\u{1fb1b}' }
    else if m == 30 { '\u{1fb1c}' }
    else if m == 31 { '\u{1fb1d}' }
    else if m == 32 { '\u{1fb1e}' }
    else if m == 33 { '\u{1fb1f}' }
    else if m == 34 { '\u{1fb20}' }
    else if m == 35 { '\u{1fb21}' }
    else if m == 36 { '\u{1fb22}' }
    else if m == 37 { '\u{1fb23}' }
    else if m == 38 { '\u{1fb24}' }
    else if m == 39 { '\u{1fb25}' }
    else if m == 40 { '\u{1fb26}' }
    else if m == 41 { '\u{1fb27}' }
    else if m == 42 { '\u{2590}' }
    else if m == 43 { '\u{1fb28}' }
    else if m == 44 { '\u{1fb29}' }
    else if m == 45 { '\u{1fb2a}' }
    else if m == 46 { '\u{1fb2b}' }
    else if m == 47 { '\u{1fb2c}' }
    else if m == 48 { '\u{1fb2d}' }
    else if m == 49 { '\u{1fb2e}' }
    else if m == 50 { '\u{1fb2f}' }
    else if m == 51 { '\u{1fb30}' }
    else if m == 52 { '\u{1fb31}' }
    else if m == 53 { '\u{1fb32}' }
    else if m == 54 { '\u{1fb33}' }
    else if m == 55 { '\u{1fb34}' }
    else if m == 56 { '\u{1fb35}' }
    else if m == 57 { '\u{1fb36}' }
    else if m == 58 { '\u{1fb37}' }
    else if m == 59 { '\u{1fb38}' }
    else if m == 60 { '\u{1fb39}' }
    else if m == 61 { '\u{1fb3a}' }
    else if m == 62 { '\u{1fb3b}' }
    else { '\u{2588}' }
}

/// Look up the sextant character of a 6-bit mask.
pub fn sextant_char(m: u8) -> (c: char)
    requires m < 64,
    ensures c == sextant_char_of(m as int),
{
    match m {
        0 => '\u{20}',
        1 => '\u{1fb00}',
        2 => '\u{1fb01}',
        3 => '\u{1fb02}',
        4 => '\u{1fb03}',
        5 => '\u{1fb04}',
        6 => '\u{1fb05}',
        7 => '\u{1fb06}',
        8 => '\u{1fb07}',
        9 => '\u{1fb08}',
        10 => '\u{1fb09}',
        11 => '\u{1fb0a}',
        12 => '\u{1fb0b}',
        13 => '\u{1fb0c}',
        14 => '\u{1fb0d}',
        15 => '\u{1fb0e}',
        16 => '\u{1fb0f}',
        17 => '\u{1fb10}',
        18 => '\u{1fb11}',
        19 => '\u{1fb12}',
        20 => '\u{1fb13}',
        21 => '\u{258c}',
        22 => '\u{1fb14}',
        23 => '\u{1fb15}',
        24 => '\u{1fb16}',
        25 => '\u{1fb17}',
        26 => '\u{1fb18}',
        27 => '\u{1fb19}',
        28 => '\u{1fb1a}',
        29 => '\u{1fb1b}',
        30 => '\u{1fb1c}',
        31 => '\u{1fb1d}',
        32 => '\u{1fb1e}',
        33 => '\u{1fb1f}',
        34 => '\u{1fb20}',
        35 => '\u{1fb21}',
        36 => '\u{1fb22}',
        37 => '\u{1fb23}',
        38 => '\u{1fb24}',
        39 => '\u{1fb25}',
        40 => '\u{1fb26}',
        41 => '\u{1fb27}',
        42 => '\u{2590}',
        43 => '\u{1fb28}',
        44 => '\u{1fb29}',
        45 => '\u{1fb2a}',
        46 => '\u{1fb2b}',
        47 => '\u{1fb2c}',
        48 => '\u{1fb2d}',
        49 => '\u{1fb2e}',
        50 => '\u{1fb2f}',
        51 => '\u{1fb30}',
        52 => '\u{1fb31}',
        53 => '\u{1fb32}',
        54 => '\u{1fb33}',
        55 => '\u{1fb34}',
        56 => '\u{1fb35}',
        57 => '\u{1fb36}',
        58 => '\u{1fb37}',
        59 => '\u{1fb38}',
        60 => '\u{1fb39}',
        61 => '\u{1fb3a}',
        62 => '\u{1fb3b}',
        _ => '\u{2588}',
    }
}

/// The Braille-pattern character for an 8-bit mask: the base code point
/// of the Braille block plus the mask value.
pub open spec fn dot_matrix_char_of(m: int) -> char {
    if m == 0 { '\u{2800}' }
    else if m == 1 { '\u{2801}' }
    else if m == 2 { '\u{2802}' }
    else if m == 3 { '\u{2803}' }
    else if m == 4 { '\u{2804}' }
    else if m == 5 { '\u{2805}' }
    else if m == 6 { '\u{2806}' }
    else if m == 7 { '\u{2807}' }
    else if m == 8 { '\u{2808}' }
    else if m == 9 { '\u{2809}' }
    else if m == 10 { '\u{280a}' }
    else if m == 11 { '\u{280b}' }
    else if m == 12 { '\u{280c}' }
    else if m == 13 { '\u{280d}' }
    else if m == 14 { '\u{280e}' }
    else if m == 15 { '\u{280f}' }
    else if m == 16 { '\u{2810}' }
    else if m == 17 { '\u{2811}' }
    else if m == 18 { '\u{2812}' }
    else if m == 19 { '\u{2813}' }
    else if m == 20 { '\u{2814}' }
    else if m == 21 { '\u{2815}' }
    else if m == 22 { '\u{2816}' }
    else if m == 23 { '\u{2817}' }
    else if m == 24 { '\u{2818}' }
    else if m == 25 { '\u{2819}' }
    else if m == 26 { '\u{281a}' }
    else if m == 27 { '\u{281b}' }
    else if m == 28 { '\u{281c}' }
    else if m == 29 { '\u{281d}' }
    else if m == 30 { '\u{281e}' }
    else if m == 31 { '\u{281f}' }
    else if m == 32 { '\u{2820}' }
    else if m == 33 { '\u{2821}' }
    else if m == 34 { '\u{2822}' }
    else if m == 35 { '\u{2823}' }
    else if m == 36 { '\u{2824}' }
    else if m == 37 { '\u{2825}' }
    else if m == 38 { '\u{2826}' }
    else if m == 39 { '\u{2827}' }
    else if m == 40 { '\u{2828}' }
    else if m == 41 { '\u{2829}' }
    else if m == 42 { '\u{282a}' }
    else if m == 43 { '\u{282b}' }
    else if m == 44 { '\u{282c}' }
    else if m == 45 { '\u{282d}' }
    else if m == 46 { '\u{282e}' }
    else if m == 47 { '\u{282f}' }
    else if m == 48 { '\u{2830}' }
    else if m == 49 { '\u{2831}' }
    else if m == 50 { '\u{2832}' }
    else if m == 51 { '\u{2833}' }
    else if m == 52 { '\u{2834}' }
    else if m == 53 { '\u{2835}' }
    else if m == 54 { '\u{2836}' }
    else if m == 55 { '\u{2837}' }
    else if m == 56 { '\u{2838}' }
    else if m == 57 { '\u{2839}' }
    else if m == 58 { '\u{283a}' }
    else if m == 59 { '\u{283b}' }
    else if m == 60 { '\u{283c}' }
    else if m == 61 { '\u{283d}' }
    else if m == 62 { '\u{283e}' }
    else if m == 63 { '\u{283f}' }
    else if m == 64 { '\u{2840}' }
    else if m == 65 { '\u{2841}' }
    else if m == 66 { '\u{2842}' }
    else if m == 67 { '\u{2843}' }
    else if m == 68 { '\u{2844}' }
    else if m == 69 { '\u{2845}' }
    else if m == 70 { '\u{2846}' }
    else if m == 71 { '\u{2847}' }
    else if m == 72 { '\u{2848}' }
    else if m == 73 { '\u{2849}' }
    else if m == 74 { '\u{284a}' }
    else if m == 75 { '\u{284b}' }
    else if m == 76 { '\u{284c}' }
    else if m == 77 { '\u{284d}' }
    else if m == 78 { '\u{284e}' }
    else if m == 79 { '\u{284f}' }
    else if m == 80 { '\u{2850}' }
    else if m == 81 { '\u{2851}' }
    else if m == 82 { '\u{2852}' }
    else if m == 83 { '\u{2853}' }
    else if m == 84 { '\u{2854}' }
    else if m == 85 { '\u{2855}' }
    else if m == 86 { '\u{2856}' }
    else if m == 87 { '\u{2857}' }
    else if m == 88 { '\u{2858}' }
    else if m == 89 { '\u{2859}' }
    else if m == 90 { '\u{285a}' }
    else if m == 91 { '\u{285b}' }
    else if m == 92 { '\u{285c}' }
    else if m == 93 { '\u{285d}' }
    else if m == 94 { '\u{285e}' }
    else if m == 95 { '\u{285f}' }
    else if m == 96 { '\u{2860}' }
    else if m == 97 { '\u{2861}' }
    else if m == 98 { '\u{2862}' }
    else if m == 99 { '\u{2863}' }
    else if m == 100 { '\u{2864}' }
    else if m == 101 { '\u{2865}' }
    else if m == 102 { '\u{2866}' }
    else if m == 103 { '\u{2867}' }
    else if m == 104 { '\u{2868}' }
    else if m == 105 { '\u{2869}' }
    else if m == 106 { '\u{286a}' }
    else if m == 107 { '\u{286b}' }
    else if m == 108 { '\u{286c}' }
    else if m == 109 { '\u{286d}' }
    else if m == 110 { '\u{286e}' }
    else if m == 111 { '\u{286f}' }
    else if m == 112 { '\u{2870}' }
    else if m == 113 { '\u{2871}' }
    else if m == 114 { '\u{2872}' }
    else if m == 115 { '\u{2873}' }
    else if m == 116 { '\u{2874}' }
    else if m == 117 { '\u{2875}' }
    else if m == 118 { '\u{2876}' }
    else if m == 119 { '\u{2877}' }
    else if m == 120 { '\u{2878}' }
    else if m == 121 { '\u{2879}' }
    else if m == 122 { '\u{287a}' }
    else if m == 123 { '\u{287b}' }
    else if m == 124 { '\u{287c}' }
    else if m == 125 { '\u{287d}' }
    else if m == 126 { '\u{287e}' }
    else if m == 127 { '\u{287f}' }
    else if m == 128 { '\u{2880}' }
    else if m == 129 { '\u{2881}' }
    else if m == 130 { '\u{2882}' }
    else if m == 131 { '\u{2883}' }
    else if m == 132 { '\u{2884}' }
    else if m == 133 { '\u{2885}' }
    else if m == 134 { '\u{2886}' }
    else if m == 135 { '\u{2887}' }
    else if m == 136 { '\u{2888}' }
    else if m == 137 { '\u{2889}' }
    else if m == 138 { '\u{288a}' }
    else if m == 139 { '\u{288b}' }
    else if m == 140 { '\u{288c}' }
    else if m == 141 { '\u{288d}' }
    else if m == 142 { '\u{288e}' }
    else if m == 143 { '\u{288f}' }
    else if m == 144 { '\u{2890}' }
    else if m == 145 { '\u{2891}' }
    else if m == 146 { '\u{2892}' }
    else if m == 147 { '\u{2893}' }
    else if m == 148 { '\u{2894}' }
    else if m == 149 { '\u{2895}' }
    else if m == 150 { '\u{2896}' }
    else if m == 151 { '\u{2897}' }
    else if m == 152 { '\u{2898}' }
    else if m == 153 { '\u{2899}' }
    else if m == 154 { '\u{289a}' }
    else if m == 155 { '\u{289b}' }
    else if m == 156 { '\u{289c}' }
    else if m == 157 { '\u{289d}' }
    else if m == 158 { '\u{289e}' }
    else if m == 159 { '\u{289f}' }
    else if m == 160 { '\u{28a0}' }
    else if m == 161 { '\u{28a1}' }
    else if m == 162 { '\u{28a2}' }
    else if m == 163 { '\u{28a3}' }
    else if m == 164 { '\u{28a4}' }
    else if m == 165 { '\u{28a5}' }
    else if m == 166 { '\u{28a6}' }
    else if m == 167 { '\u{28a7}' }
    else if m == 168 { '\u{28a8}' }
    else if m == 169 { '\u{28a9}' }
    else if m == 170 { '\u{28aa}' }
    else if m == 171 { '\u{28ab}' }
    else if m == 172 { '\u{28ac}' }
    else if m == 173 { '\u{28ad}' }
    else if m == 174 { '\u{28ae}' }
    else if m == 175 { '\u{28af}' }
    else if m == 176 { '\u{28b0}' }
    else if m == 177 { '\u{28b1}' }
    else if m == 178 { '\u{28b2}' }
    else if m == 179 { '\u{28b3}' }
    else if m == 180 { '\u{28b4}' }
    else if m == 181 { '\u{28b5}' }
    else if m == 182 { '\u{28b6}' }
    else if m == 183 { '\u{28b7}' }
    else if m == 184 { '\u{28b8}' }
    else if m == 185 { '\u{28b9}' }
    else if m == 186 { '\u{28ba}' }
    else if m == 187 { '\u{28bb}' }
    else if m == 188 { '\u{28bc}' }
    else if m == 189 { '\u{28bd}' }
    else if m == 190 { '\u{28be}' }
    else if m == 191 { '\u{28bf}' }
    else if m == 192 { '\u{28c0}' }
    else if m == 193 { '\u{28c1}' }
    else if m == 194 { '\u{28c2}' }
    else if m == 195 { '\u{28c3}' }
    else if m == 196 { '\u{28c4}' }
    else if m == 197 { '\u{28c5}' }
    else if m == 198 { '\u{28c6}' }
    else if m == 199 { '\u{28c7}' }
    else if m == 200 { '\u{28c8}' }
    else if m == 201 { '\u{28c9}' }
    else if m == 202 { '\u{28ca}' }
    else if m == 203 { '\u{28cb}' }
    else if m == 204 { '\u{28cc}' }
    else if m == 205 { '\u{28cd}' }
    else if m == 206 { '\u{28ce}' }
    else if m == 207 { '\u{28cf}' }
    else if m == 208 { '\u{28d0}' }
    else if m == 209 { '\u{28d1}' }
    else if m == 210 { '\u{28d2}' }
    else if m == 211 { '\u{28d3}' }
    else if m == 212 { '\u{28d4}' }
    else if m == 213 { '\u{28d5}' }
    else if m == 214 { '\u{28d6}' }
    else if m == 215 { '\u{28d7}' }
    else if m == 216 { '\u{28d8}' }
    else if m == 217 { '\u{28d9}' }
    else if m == 218 { '\u{28da}' }
    else if m == 219 { '\u{28db}' }
    else if m == 220 { '\u{28dc}' }
    else if m == 221 { '\u{28dd}' }
    else if m == 222 { '\u{28de}' }
    else if m == 223 { '\u{28df}' }
    else if m == 224 { '\u{28e0}' }
    else if m == 225 { '\u{28e1}' }
    else if m == 226 { '\u{28e2}' }
    else if m == 227 { '\u{28e3}' }
    else if m == 228 { '\u{28e4}' }
    else if m == 229 { '\u{28e5}' }
    else if m == 230 { '\u{28e6}' }
    else if m == 231 { '\u{28e7}' }
    else if m == 232 { '\u{28e8}' }
    else if m == 233 { '\u{28e9}' }
    else if m == 234 { '\u{28ea}' }
    else if m == 235 { '\u{28eb}' }
    else if m == 236 { '\u{28ec}' }
    else if m == 237 { '\u{28ed}' }
    else if m == 238 { '\u{28ee}' }
    else if m == 239 { '\u{28ef}' }
    else if m == 240 { '\u{28f0}' }
    else if m == 241 { '\u{28f1}' }
    else if m == 242 { '\u{28f2}' }
    else if m == 243 { '\u{28f3}' }
    else if m == 244 { '\u{28f4}' }
    else if m == 245 { '\u{28f5}' }
    else if m == 246 { '\u{28f6}' }
    else if m == 247 { '\u{28f7}' }
    else if m == 248 { '\u{28f8}' }
    else if m == 249 { '\u{28f9}' }
    else if m == 250 { '\u{28fa}' }
    else if m == 251 { '\u{28fb}' }
    else if m == 252 { '\u{28fc}' }
    else if m == 253 { '\u{28fd}' }
    else if m == 254 { '\u{28fe}' }
    else { '\u{28ff}' }
}

/// Look up the Braille-pattern character of an 8-bit mask.
pub fn dot_matrix_char(m: u8) -> (c: char)
    ensures c == dot_matrix_char_of(m as int),
{
    match m {
        0 => '\u{2800}',
        1 => '\u{2801}',
        2 => '\u{2802}',
        3 => '\u{2803}',
        4 => '\u{2804}',
        5 => '\u{2805}',
        6 => '\u{2806}',
        7 => '\u{2807}',
        8 => '\u{2808}',
        9 => '\u{2809}',
        10 => '\u{280a}',
        11 => '\u{280b}',
        12 => '\u{280c}',
        13 => '\u{280d}',
        14 => '\u{280e}',
        15 => '\u{280f}',
        16 => '\u{2810}',
        17 => '\u{2811}',
        18 => '\u{2812}',
        19 => '\u{2813}',
        20 => '\u{2814}',
        21 => '\u{2815}',
        22 => '\u{2816}',
        23 => '\u{2817}',
        24 => '\u{2818}',
        25 => '\u{2819}',
        26 => '\u{281a}',
        27 => '\u{281b}',
        28 => '\u{281c}',
        29 => '\u{281d}',
        30 => '\u{281e}',
        31 => '\u{281f}',
        32 => '\u{2820}',
        33 => '\u{2821}',
        34 => '\u{2822}',
        35 => '\u{2823}',
        36 => '\u{2824}',
        37 => '\u{2825}',
        38 => '\u{2826}',
        39 => '\u{2827}',
        40 => '\u{2828}',
        41 => '\u{2829}',
        42 => '\u{282a}',
        43 => '\u{282b}',
        44 => '\u{282c}',
        45 => '\u{282d}',
        46 => '\u{282e}',
        47 => '\u{282f}',
        48 => '\u{2830}',
        49 => '\u{2831}',
        50 => '\u{2832}',
        51 => '\u{2833}',
        52 => '\u{2834}',
        53 => '\u{2835}',
        54 => '\u{2836}',
        55 => '\u{2837}',
        56 => '\u{2838}',
        57 => '\u{2839}',
        58 => '\u{283a}',
        59 => '\u{283b}',
        60 => '\u{283c}',
        61 => '\u{283d}',
        62 => '\u{283e}',
        63 => '\u{283f}',
        64 => '\u{2840}',
        65 => '\u{2841}',
        66 => '\u{2842}',
        67 => '\u{2843}',
        68 => '\u{2844}',
        69 => '\u{2845}',
        70 => '\u{2846}',
        71 => '\u{2847}',
        72 => '\u{2848}',
        73 => '\u{2849}',
        74 => '\u{284a}',
        75 => '\u{284b}',
        76 => '\u{284c}',
        77 => '\u{284d}',
        78 => '\u{284e}',
        79 => '\u{284f}',
        80 => '\u{2850}',
        81 => '\u{2851}',
        82 => '\u{2852}',
        83 => '\u{2853}',
        84 => '\u{2854}',
        85 => '\u{2855}',
        86 => '\u{2856}',
        87 => '\u{2857}',
        88 => '\u{2858}',
        89 => '\u{2859}',
        90 => '\u{285a}',
        91 => '\u{285b}',
        92 => '\u{285c}',
        93 => '\u{285d}',
        94 => '\u{285e}',
        95 => '\u{285f}',
        96 => '\u{2860}',
        97 => '\u{2861}',
        98 => '\u{2862}',
        99 => '\u{2863}',
        100 => '\u{2864}',
        101 => '\u{2865}',
        102 => '\u{2866}',
        103 => '\u{2867}',
        104 => '\u{2868}',
        105 => '\u{2869}',
        106 => '\u{286a}',
        107 => '\u{286b}',
        108 => '\u{286c}',
        109 => '\u{286d}',
        110 => '\u{286e}',
        111 => '\u{286f}',
        112 => '\u{2870}',
        113 => '\u{2871}',
        114 => '\u{2872}',
        115 => '\u{2873}',
        116 => '\u{2874}',
        117 => '\u{2875}',
        118 => '\u{2876}',
        119 => '\u{2877}',
        120 => '\u{2878}',
        121 => '\u{2879}',
        122 => '\u{287a}',
        123 => '\u{287b}',
        124 => '\u{287c}',
        125 => '\u{287d}',
        126 => '\u{287e}',
        127 => '\u{287f}',
        128 => '\u{2880}',
        129 => '\u{2881}',
        130 => '\u{2882}',
        131 => '\u{2883}',
        132 => '\u{2884}',
        133 => '\u{2885}',
        134 => '\u{2886}',
        135 => '\u{2887}',
        136 => '\u{2888}',
        137 => '\u{2889}',
        138 => '\u{288a}',
        139 => '\u{288b}',
        140 => '\u{288c}',
        141 => '\u{288d}',
        142 => '\u{288e}',
        143 => '\u{288f}',
        144 => '\u{2890}',
        145 => '\u{2891}',
        146 => '\u{2892}',
        147 => '\u{2893}',
        148 => '\u{2894}',
        149 => '\u{2895}',
        150 => '\u{2896}',
        151 => '\u{2897}',
        152 => '\u{2898}',
        153 => '\u{2899}',
        154 => '\u{289a}',
        155 => '\u{289b}',
        156 => '\u{289c}',
        157 => '\u{289d}',
        158 => '\u{289e}',
        159 => '\u{289f}',
        160 => '\u{28a0}',
        161 => '\u{28a1}',
        162 => '\u{28a2}',
        163 => '\u{28a3}',
        164 => '\u{28a4}',
        165 => '\u{28a5}',
        166 => '\u{28a6}',
        167 => '\u{28a7}',
        168 => '\u{28a8}',
        169 => '\u{28a9}',
        170 => '\u{28aa}',
        171 => '\u{28ab}',
        172 => '\u{28ac}',
        173 => '\u{28ad}',
        174 => '\u{28ae}',
        175 => '\u{28af}',
        176 => '\u{28b0}',
        177 => '\u{28b1}',
        178 => '\u{28b2}',
        179 => '\u{28b3}',
        180 => '\u{28b4}',
        181 => '\u{28b5}',
        182 => '\u{28b6}',
        183 => '\u{28b7}',
        184 => '\u{28b8}',
        185 => '\u{28b9}',
        186 => '\u{28ba}',
        187 => '\u{28bb}',
        188 => '\u{28bc}',
        189 => '\u{28bd}',
        190 => '\u{28be}',
        191 => '\u{28bf}',
        192 => '\u{28c0}',
        193 => '\u{28c1}',
        194 => '\u{28c2}',
        195 => '\u{28c3}',
        196 => '\u{28c4}',
        197 => '\u{28c5}',
        198 => '\u{28c6}',
        199 => '\u{28c7}',
        200 => '\u{28c8}',
        201 => '\u{28c9}',
        202 => '\u{28ca}',
        203 => '\u{28cb}',
        204 => '\u{28cc}',
        205 => '\u{28cd}',
        206 => '\u{28ce}',
        207 => '\u{28cf}',
        208 => '\u{28d0}',
        209 => '\u{28d1}',
        210 => '\u{28d2}',
        211 => '\u{28d3}',
        212 => '\u{28d4}',
        213 => '\u{28d5}',
        214 => '\u{28d6}',
        215 => '\u{28d7}',
        216 => '\u{28d8}',
        217 => '\u{28d9}',
        218 => '\u{28da}',
        219 => '\u{28db}',
        220 => '\u{28dc}',
        221 => '\u{28dd}',
        222 => '\u{28de}',
        223 => '\u{28df}',
        224 => '\u{28e0}',
        225 => '\u{28e1}',
        226 => '\u{28e2}',
        227 => '\u{28e3}',
        228 => '\u{28e4}',
        229 => '\u{28e5}',
        230 => '\u{28e6}',
        231 => '\u{28e7}',
        232 => '\u{28e8}',
        233 => '\u{28e9}',
        234 => '\u{28ea}',
        235 => '\u{28eb}',
        236 => '\u{28ec}',
        237 => '\u{28ed}',
        238 => '\u{28ee}',
        239 => '\u{28ef}',
        240 => '\u{28f0}',
        241 => '\u{28f1}',
        242 => '\u{28f2}',
        243 => '\u{28f3}',
        244 => '\u{28f4}',
        245 => '\u{28f5}',
        246 => '\u{28f6}',
        247 => '\u{28f7}',
        248 => '\u{28f8}',
        249 => '\u{28f9}',
        250 => '\u{28fa}',
        251 => '\u{28fb}',
        252 => '\u{28fc}',
        253 => '\u{28fd}',
        254 => '\u{28fe}',
        _ => '\u{28ff}',
    }
}

/// The displayable character of a mask, in the family's own table. Every
/// mask value below the family's mask count resolves to exactly one
/// character.
pub open spec fn glyph_char_of(fam: GlyphFamily, m: int) -> char {
    match fam {
        GlyphFamily::DotMatrix => dot_matrix_char_of(m),
        GlyphFamily::Quadrant => quadrant_char_of(m),
        GlyphFamily::Sextant => sextant_char_of(m),
    }
}

/// Map a sub-cell on/off mask to its displayable character.
pub fn mask_to_char(fam: GlyphFamily, m: u8) -> (c: char)
    requires m < fam.spec_mask_count(),
    ensures c == glyph_char_of(fam, m as int),
{
    match fam {
        GlyphFamily::DotMatrix => dot_matrix_char(m),
        GlyphFamily::Quadrant => quadrant_char(m),
        GlyphFamily::Sextant => sextant_char(m),
    }
}

/// The sextant table's two deliberate exceptions: the masks for a solid left
/// column and a solid right column render as the pre-existing half-block
/// characters, not as sextant code points.
pub proof fn lemma_sextant_exceptions()
    ensures
        sextant_char_of(21) == '\u{258c}',
        sextant_char_of(42) == '\u{2590}',
{
}

} // verus!
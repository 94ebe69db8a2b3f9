use vstd::prelude::*;

use crate::ansi::{sgr_prefix_of, sgr_reset_of, utf8_of, push_sgr_prefix, push_sgr_reset, push_utf8};
use crate::cell::{Bitmap, CellOut, GrayBitmap, btc_mask_of, btc_fg_of, btc_bg_of, render_cell_btc,
    dot_state, dot_color_chan, render_cell_dot,
    btc_dither_mask_of, btc_dither_target_of, btc_dither_bg_of, dot_chan, mix_resid, cell_push_all,
    render_cell_btc_dither};
use crate::diffusion::ErrorDiffusionBuffer;
use crate::color::encoded_of;
use crate::glyph::{GlyphFamily, glyph_char_of, dot_matrix_char_of, mask_to_char, dot_matrix_char};

verus! {

/// Target pixel width of the resized image: twice the character width, from
/// an explicit override when one is given, else from the terminal; the
/// override is capped so that doubling cannot wrap.
pub open spec fn target_width_of(term_w: int, width_chars: Option<u32>) -> int {
    match width_chars {
        Some(w) => if w > 0x7fffffff { 0xfffffffe } else { 2 * w },
        None => 2 * term_w,
    }
}

/// Target pixel height of the resized image: the terminal rows minus the
/// reserved prompt rows (never below zero), times the glyph height in
/// sub-pixels.
pub open spec fn target_height_of(term_h: int, reserve: int, glyph_h: int) -> int {
    (if term_h >= reserve { term_h - reserve } else { 0 }) * glyph_h
}

/// Compute the resize target in pixels from the terminal geometry, an
/// optional explicit width in characters, the number of reserved rows and
/// the glyph height.
pub fn target_dimensions(term_w: u16, term_h: u16, width_chars: Option<u32>, reserve: u16, glyph_h: u16) -> (r: (u32, u32))
    requires
        glyph_h <= 4,
    ensures
        r.0 == target_width_of(term_w as int, width_chars),
        r.1 == target_height_of(term_h as int, reserve as int, glyph_h as int),
{
    let w: u32 = match width_chars {
        Some(wc) => if wc > 0x7fffffff { 0xfffffffe } else { 2 * wc },
        None => 2 * (term_w as u32),
    };
    let rows: u32 = if term_h >= reserve { (term_h - reserve) as u32 } else { 0 };
    proof {
        assert((rows as int) * (glyph_h as int) <= 0x40000) by (nonlinear_arith)
            requires rows <= 0xffff && glyph_h <= 4;
    }
    let h: u32 = rows * (glyph_h as u32);
    (w, h)
}

/// The bytes of one rendered cell under the block-truncation policy: the
/// color-selecting escape sequence, then the glyph's character.
pub open spec fn btc_cell_bytes_of(img: Bitmap, fam: GlyphFamily, x0: int, y0: int) -> Seq<u8> {
    sgr_prefix_of(
        false,
        (
            encoded_of(btc_fg_of(img, fam, x0, y0).0) as u8,
            encoded_of(btc_fg_of(img, fam, x0, y0).1) as u8,
            encoded_of(btc_fg_of(img, fam, x0, y0).2) as u8,
        ),
        Some((
            encoded_of(btc_bg_of(img, fam, x0, y0).0) as u8,
            encoded_of(btc_bg_of(img, fam, x0, y0).1) as u8,
            encoded_of(btc_bg_of(img, fam, x0, y0).2) as u8,
        )),
    ) + utf8_of(glyph_char_of(fam, btc_mask_of(img, fam, x0, y0)))
}

/// The first `i` cells of the row of cells whose top sub-pixel row is `y0`.
pub open spec fn btc_row_bytes_of(img: Bitmap, fam: GlyphFamily, y0: int, i: int) -> Seq<u8>
    decreases i,
{
    if i <= 0 {
        Seq::empty()
    } else {
        btc_row_bytes_of(img, fam, y0, i - 1) + btc_cell_bytes_of(img, fam, 2 * (i - 1), y0)
    }
}

/// One full output line: every cell of the row, then the style reset.
pub open spec fn btc_line_of(img: Bitmap, fam: GlyphFamily, r: int) -> Seq<u8> {
    btc_row_bytes_of(img, fam, r * fam.spec_cell_height(), (img.width as int + 1) / 2)
        + sgr_reset_of()
}

/// Number of output lines: the image height in cell rows, rounded up.
pub open spec fn btc_line_count_of(img: Bitmap, fam: GlyphFamily) -> int {
    (img.height as int + fam.spec_cell_height() - 1) / fam.spec_cell_height()
}

/// Render a whole bitmap as terminal output lines under the
/// block-truncation policy, scanning cells in raster order: top cell row
/// first, left to right within a row. Each line is the concatenation of its
/// cells' escape sequences and glyphs, terminated by a style reset.
pub fn render_frame_btc(img: &Bitmap, fam: GlyphFamily) -> (lines: Vec<Vec<u8>>)
    requires
        img.wf(),
    ensures
        lines@.len() == btc_line_count_of(*img, fam),
        forall|r: int| 0 <= r < lines@.len()
            ==> (#[trigger] lines@[r])@ == btc_line_of(*img, fam, r),
{
    let ch = fam.cell_height();
    let ncols: usize = (img.width + 1) / 2;
    let nrows: usize = (img.height + ch - 1) / ch;
    let mut lines: Vec<Vec<u8>> = Vec::new();
    let mut r: usize = 0;
    while r < nrows
        invariant
            img.wf(),
            ch == fam.spec_cell_height(),
            ncols == (img.width as int + 1) / 2,
            nrows == btc_line_count_of(*img, fam),
            r <= nrows,
            lines@.len() == r,
            forall|r2: int| 0 <= r2 < r ==> (#[trigger] lines@[r2])@ == btc_line_of(*img, fam, r2),
        decreases nrows - r,
    {
        let y0: usize = r * ch;
        proof {
            assert(y0 == r * ch);
            assert((r as int) * (ch as int) <= (nrows as int - 1) * 4) by (nonlinear_arith)
                requires r < nrows && ch <= 4 && 0 <= r && 0 <= ch;
            assert((nrows as int - 1) * 4 <= 0x10000) by (nonlinear_arith)
                requires nrows <= 16384;
            assert((y0 as int) < img.height as int) by {
                let hh = img.height as int;
                let c = ch as int;
                assert(nrows == (hh + c - 1) / c);
                assert(c * ((hh + c - 1) / c) <= hh + c - 1) by {
                    vstd::arithmetic::div_mod::lemma_fundamental_div_mod(hh + c - 1, c);
                    assert(c * ((hh + c - 1) / c) == hh + c - 1 - (hh + c - 1) % c);
                    vstd::arithmetic::div_mod::lemma_mod_bound(hh + c - 1, c);
                }
                assert((r as int) < (hh + c - 1) / c);
                assert((r as int) * c + c <= c * ((hh + c - 1) / c)) by (nonlinear_arith)
                    requires (r as int) + 1 <= (hh + c - 1) / c && c > 0;
            }
        }
        let mut line: Vec<u8> = Vec::new();
        let mut i: usize = 0;
        while i < ncols
            invariant
                img.wf(),
                ch == fam.spec_cell_height(),
                ncols == (img.width as int + 1) / 2,
                y0 < img.height,
                i <= ncols,
                line@ == btc_row_bytes_of(*img, fam, y0 as int, i as int),
            decreases ncols - i,
        {
            let x0: usize = 2 * i;
            proof {
                assert(2 * (i as int) < img.width as int) by {
                    let ww = img.width as int;
                    assert((i as int) < (ww + 1) / 2);
                    vstd::arithmetic::div_mod::lemma_fundamental_div_mod(ww + 1, 2);
                    vstd::arithmetic::div_mod::lemma_mod_bound(ww + 1, 2);
                }
            }
            let out: CellOut = render_cell_btc(img, fam, x0, y0);
            proof {
                crate::color::lemma_encoded_range(btc_fg_of(*img, fam, x0 as int, y0 as int).0);
            }
            push_sgr_prefix(&mut line, false, out.fg, Some(out.bg));
            let g = mask_to_char(fam, out.mask);
            push_utf8(&mut line, g);
            proof {
                assert(line@ =~= btc_row_bytes_of(*img, fam, y0 as int, i as int + 1));
            }
            i += 1;
        }
        push_sgr_reset(&mut line);
        proof {
            assert(line@ =~= btc_line_of(*img, fam, r as int));
        }
        lines.push(line);
        r += 1;
    }
    lines
}


/// The zero error grid for a one-channel or three-channel pass.
pub open spec fn zero_grid(w: int, h: int, ch: int) -> Seq<i64> {
    Seq::new((w * h * ch) as nat, |i: int| 0i64)
}

/// The bytes of one dot-matrix cell: bold color prefix (with a black
/// background in the adaptive configuration), the Braille character, and a
/// per-cell style reset.
pub open spec fn dot_cell_bytes_of(mask: int, color: (u8, u8, u8), adaptive: bool) -> Seq<u8> {
    sgr_prefix_of(true, color, if adaptive { Some((0u8, 0u8, 0u8)) } else { None })
        + utf8_of(dot_matrix_char_of(mask)) + sgr_reset_of()
}

/// One row of dot-matrix cells: bytes and the error grid threaded through
/// the first `i` cells, starting from grid `g`.
pub open spec fn dot_row_state(img: Bitmap, gray: GrayBitmap, g: Seq<i64>, y0: int, adaptive: bool, invert: bool, thr: int, i: int) -> (Seq<u8>, Seq<i64>)
    decreases i,
{
    if i <= 0 {
        (Seq::empty(), g)
    } else {
        let (bytes, g1) = dot_row_state(img, gray, g, y0, adaptive, invert, thr, i - 1);
        let x0 = 2 * (i - 1);
        let st = dot_state(gray, g1, x0, y0, adaptive, invert, thr, 8);
        let color = (
            dot_color_chan(img, gray, x0, y0, adaptive, 0) as u8,
            dot_color_chan(img, gray, x0, y0, adaptive, 1) as u8,
            dot_color_chan(img, gray, x0, y0, adaptive, 2) as u8,
        );
        (bytes + dot_cell_bytes_of(st.0, color, adaptive), st.1)
    }
}

/// The first `r` output lines of a dot-matrix pass and the error grid after
/// them; the grid starts at zero and is carried from row to row, so that
/// diffusion from each row reaches the rows below it.
pub open spec fn dot_lines_state(img: Bitmap, gray: GrayBitmap, adaptive: bool, invert: bool, thr: int, r: int) -> (Seq<Seq<u8>>, Seq<i64>)
    decreases r,
{
    if r <= 0 {
        (Seq::empty(), zero_grid(gray.width as int, gray.height as int, 1))
    } else {
        let (lines, g) = dot_lines_state(img, gray, adaptive, invert, thr, r - 1);
        let (bytes, g2) = dot_row_state(img, gray, g, 4 * (r - 1), adaptive, invert, thr, (img.width as int + 1) / 2);
        (lines.push(bytes), g2)
    }
}

/// Render a whole pass of the dot-matrix pipeline: cells in raster order,
/// one error-diffusion grid threaded through the whole pass, each cell's
/// bytes as its bold color prefix, Braille character and style reset.
#[verifier::rlimit(100)]
pub fn render_frame_dot(img: &Bitmap, gray: &GrayBitmap, adaptive: bool, invert: bool, threshold: u8) -> (lines: Vec<Vec<u8>>)
    requires
        img.wf(),
        gray.wf(),
        img.width == gray.width,
        img.height == gray.height,
    ensures
        lines@.len() == (img.height as int + 3) / 4,
        ({
            let thr = (if adaptive { 128int } else { threshold as int }) * 65536;
            forall|r: int| 0 <= r < lines@.len()
                ==> (#[trigger] lines@[r])@
                    == dot_lines_state(*img, *gray, adaptive, invert, thr, lines@.len() as int).0[r]
        }),
{
    let w = img.width;
    let h = img.height;
    let ghost thr: int = (if adaptive { 128int } else { threshold as int }) * 65536;
    let ncols: usize = (w + 1) / 2;
    let nrows: usize = (h + 3) / 4;
    let mut buf = ErrorDiffusionBuffer::new(w, h, 1);
    let mut lines: Vec<Vec<u8>> = Vec::new();
    let mut r: usize = 0;
    while r < nrows
        invariant
            img.wf(),
            gray.wf(),
            img.width == gray.width,
            img.height == gray.height,
            w == img.width,
            h == img.height,
            thr == (if adaptive { 128int } else { threshold as int }) * 65536,
            ncols == (w as int + 1) / 2,
            nrows == (h as int + 3) / 4,
            r <= nrows,
            buf.wf(),
            buf.spec_width() == w,
            buf.spec_height() == h,
            buf.spec_channels() == 1,
            lines@.len() == r,
            lines@.map_values(|l: Vec<u8>| l@)
                == dot_lines_state(*img, *gray, adaptive, invert, thr, r as int).0,
            buf.grid() == dot_lines_state(*img, *gray, adaptive, invert, thr, r as int).1,
        decreases nrows - r,
    {
        let y0: usize = r * 4;
        proof {
            assert((r as int) * 4 <= (nrows as int - 1) * 4) by (nonlinear_arith)
                requires r < nrows && 0 <= r;
            assert((y0 as int) < h as int) by {
                let hh = h as int;
                assert(nrows == (hh + 3) / 4);
                vstd::arithmetic::div_mod::lemma_fundamental_div_mod(hh + 3, 4);
                vstd::arithmetic::div_mod::lemma_mod_bound(hh + 3, 4);
                assert((r as int) * 4 + 4 <= 4 * ((hh + 3) / 4)) by (nonlinear_arith)
                    requires (r as int) + 1 <= (hh + 3) / 4;
            }
        }
        let ghost gstart = buf.grid();
        let mut line: Vec<u8> = Vec::new();
        let mut i: usize = 0;
        while i < ncols
            invariant
                img.wf(),
                gray.wf(),
                img.width == gray.width,
                img.height == gray.height,
                w == img.width,
                h == img.height,
                thr == (if adaptive { 128int } else { threshold as int }) * 65536,
                ncols == (w as int + 1) / 2,
                y0 < h,
                i <= ncols,
                buf.wf(),
                buf.spec_width() == w,
                buf.spec_height() == h,
                buf.spec_channels() == 1,
                line@ == dot_row_state(*img, *gray, gstart, y0 as int, adaptive, invert, thr, i as int).0,
                buf.grid() == dot_row_state(*img, *gray, gstart, y0 as int, adaptive, invert, thr, i as int).1,
            decreases ncols - i,
        {
            let x0: usize = 2 * i;
            proof {
                assert(2 * (i as int) < w as int) by {
                    let ww = w as int;
                    assert((i as int) < (ww + 1) / 2);
                    vstd::arithmetic::div_mod::lemma_fundamental_div_mod(ww + 1, 2);
                    vstd::arithmetic::div_mod::lemma_mod_bound(ww + 1, 2);
                }
            }
            let (mask, color) = render_cell_dot(img, gray, &mut buf, x0, y0, adaptive, invert, threshold);
            let bg = if adaptive { Some((0u8, 0u8, 0u8)) } else { None };
            push_sgr_prefix(&mut line, true, color, bg);
            let g = dot_matrix_char(mask);
            push_utf8(&mut line, g);
            push_sgr_reset(&mut line);
            proof {
                assert(line@ =~= dot_row_state(*img, *gray, gstart, y0 as int, adaptive, invert, thr, i as int + 1).0);
            }
            i += 1;
        }
        lines.push(line);
        proof {
            assert(lines@.map_values(|l: Vec<u8>| l@)
                =~= dot_lines_state(*img, *gray, adaptive, invert, thr, r as int + 1).0);
        }
        r += 1;
    }
    proof {
        assert forall|r2: int| 0 <= r2 < lines@.len()
            implies (#[trigger] lines@[r2])@
                == dot_lines_state(*img, *gray, adaptive, invert, thr, lines@.len() as int).0[r2] by {
            assert(lines@.map_values(|l: Vec<u8>| l@)[r2] == lines@[r2]@);
        }
    }
    lines
}

/// The bytes of one dithered block-truncation cell: its color prefix and
/// Braille character.
pub open spec fn btc_dither_cell_bytes_of(img: Bitmap, g: Seq<i64>, x0: int, y0: int) -> Seq<u8> {
    let fam = GlyphFamily::DotMatrix;
    let t = btc_dither_target_of(img, g, fam, x0, y0);
    let b = btc_dither_bg_of(img, g, fam, x0, y0);
    sgr_prefix_of(
        false,
        (
            encoded_of(dot_chan(t.0, b.0)) as u8,
            encoded_of(dot_chan(t.1, b.1)) as u8,
            encoded_of(dot_chan(t.2, b.2)) as u8,
        ),
        Some((encoded_of(b.0) as u8, encoded_of(b.1) as u8, encoded_of(b.2) as u8)),
    ) + utf8_of(dot_matrix_char_of(btc_dither_mask_of(img, g, fam, x0, y0)))
}

/// The grid after one dithered cell: its three per-channel residuals pushed
/// from every in-bounds sub-cell.
pub open spec fn btc_dither_cell_grid_of(img: Bitmap, g: Seq<i64>, x0: int, y0: int) -> Seq<i64> {
    let fam = GlyphFamily::DotMatrix;
    let t = btc_dither_target_of(img, g, fam, x0, y0);
    let b = btc_dither_bg_of(img, g, fam, x0, y0);
    cell_push_all(g, img.width as int, img.height as int, fam, x0, y0,
        mix_resid(t.0, b.0) * 65536, mix_resid(t.1, b.1) * 65536, mix_resid(t.2, b.2) * 65536, 8)
}

/// One row of dithered cells: bytes and the threaded grid.
pub open spec fn btc_dither_row_state(img: Bitmap, g: Seq<i64>, y0: int, i: int) -> (Seq<u8>, Seq<i64>)
    decreases i,
{
    if i <= 0 {
        (Seq::empty(), g)
    } else {
        let (bytes, g1) = btc_dither_row_state(img, g, y0, i - 1);
        let x0 = 2 * (i - 1);
        (bytes + btc_dither_cell_bytes_of(img, g1, x0, y0), btc_dither_cell_grid_of(img, g1, x0, y0))
    }
}

/// The first `r` lines of a dithered block-truncation pass and the grid
/// after them; each line ends with a style reset.
pub open spec fn btc_dither_lines_state(img: Bitmap, r: int) -> (Seq<Seq<u8>>, Seq<i64>)
    decreases r,
{
    if r <= 0 {
        (Seq::empty(), zero_grid(img.width as int, img.height as int, 3))
    } else {
        let (lines, g) = btc_dither_lines_state(img, r - 1);
        let (bytes, g2) = btc_dither_row_state(img, g, 4 * (r - 1), (img.width as int + 1) / 2);
        (lines.push(bytes + sgr_reset_of()), g2)
    }
}

/// Render a whole pass of the dithered block-truncation dot-matrix
/// pipeline: cells in raster order, a three-channel error grid threaded
/// through the pass, one style reset per line.
#[verifier::rlimit(100)]
pub fn render_frame_btc_dither(img: &Bitmap) -> (lines: Vec<Vec<u8>>)
    requires
        img.wf(),
    ensures
        lines@.len() == (img.height as int + 3) / 4,
        forall|r: int| 0 <= r < lines@.len()
            ==> (#[trigger] lines@[r])@ == btc_dither_lines_state(*img, lines@.len() as int).0[r],
{
    let w = img.width;
    let h = img.height;
    let ncols: usize = (w + 1) / 2;
    let nrows: usize = (h + 3) / 4;
    let mut buf = ErrorDiffusionBuffer::new(w, h, 3);
    let mut lines: Vec<Vec<u8>> = Vec::new();
    let mut r: usize = 0;
    while r < nrows
        invariant
            img.wf(),
            w == img.width,
            h == img.height,
            ncols == (w as int + 1) / 2,
            nrows == (h as int + 3) / 4,
            r <= nrows,
            buf.wf(),
            buf.spec_width() == w,
            buf.spec_height() == h,
            buf.spec_channels() == 3,
            lines@.len() == r,
            lines@.map_values(|l: Vec<u8>| l@) == btc_dither_lines_state(*img, r as int).0,
            buf.grid() == btc_dither_lines_state(*img, r as int).1,
        decreases nrows - r,
    {
        let y0: usize = r * 4;
        proof {
            assert((r as int) * 4 <= (nrows as int - 1) * 4) by (nonlinear_arith)
                requires r < nrows && 0 <= r;
            assert((y0 as int) < h as int) by {
                let hh = h as int;
                assert(nrows == (hh + 3) / 4);
                vstd::arithmetic::div_mod::lemma_fundamental_div_mod(hh + 3, 4);
                vstd::arithmetic::div_mod::lemma_mod_bound(hh + 3, 4);
                assert((r as int) * 4 + 4 <= 4 * ((hh + 3) / 4)) by (nonlinear_arith)
                    requires (r as int) + 1 <= (hh + 3) / 4;
            }
        }
        let ghost gstart = buf.grid();
        let mut line: Vec<u8> = Vec::new();
        let mut i: usize = 0;
        while i < ncols
            invariant
                img.wf(),
                w == img.width,
                h == img.height,
                ncols == (w as int + 1) / 2,
                y0 < h,
                i <= ncols,
                buf.wf(),
                buf.spec_width() == w,
                buf.spec_height() == h,
                buf.spec_channels() == 3,
                line@ == btc_dither_row_state(*img, gstart, y0 as int, i as int).0,
                buf.grid() == btc_dither_row_state(*img, gstart, y0 as int, i as int).1,
            decreases ncols - i,
        {
            let x0: usize = 2 * i;
            proof {
                assert(2 * (i as int) < w as int) by {
                    let ww = w as int;
                    assert((i as int) < (ww + 1) / 2);
                    vstd::arithmetic::div_mod::lemma_fundamental_div_mod(ww + 1, 2);
                    vstd::arithmetic::div_mod::lemma_mod_bound(ww + 1, 2);
                }
            }
            let out: CellOut = render_cell_btc_dither(img, &mut buf, x0, y0);
            push_sgr_prefix(&mut line, false, out.fg, Some(out.bg));
            let g = dot_matrix_char(out.mask);
            push_utf8(&mut line, g);
            proof {
                assert(line@ =~= btc_dither_row_state(*img, gstart, y0 as int, i as int + 1).0);
            }
            i += 1;
        }
        push_sgr_reset(&mut line);
        lines.push(line);
        proof {
            assert(lines@.map_values(|l: Vec<u8>| l@)
                =~= btc_dither_lines_state(*img, r as int + 1).0);
        }
        r += 1;
    }
    proof {
        assert forall|r2: int| 0 <= r2 < lines@.len()
            implies (#[trigger] lines@[r2])@ == btc_dither_lines_state(*img, lines@.len() as int).0[r2] by {
            assert(lines@.map_values(|l: Vec<u8>| l@)[r2] == lines@[r2]@);
        }
    }
    lines
}

} // verus!

use unipix::ansi::{push_dec, push_sgr_prefix, push_sgr_reset, push_utf8};
use unipix::cell::{Bitmap, GrayBitmap, render_cell_btc, render_cell_btc_dither, render_cell_dot, solve_dot_color};
use unipix::diffusion::ErrorDiffusionBuffer;
use unipix::frame::{render_frame_btc, render_frame_btc_dither, render_frame_dot, target_dimensions};
use unipix::glyph::GlyphFamily;

fn rgb_image(w: usize, h: usize, px: &[(u8, u8, u8)]) -> Bitmap {
    assert_eq!(px.len(), w * h);
    let mut data = Vec::new();
    for &(r, g, b) in px {
        data.push(r);
        data.push(g);
        data.push(b);
    }
    Bitmap::new(w, h, data).unwrap()
}

fn gray_image(w: usize, h: usize, px: &[u8]) -> GrayBitmap {
    GrayBitmap::new(w, h, px.to_vec()).unwrap()
}

#[test]
fn sgr_prefix_bytes_exact() {
    let mut out: Vec<u8> = Vec::new();
    push_sgr_prefix(&mut out, true, (255, 0, 7), None);
    assert_eq!(out, b"\x1b[1;38;2;255;0;7m");
    let mut out2: Vec<u8> = Vec::new();
    push_sgr_prefix(&mut out2, false, (1, 22, 133), Some((0, 0, 0)));
    assert_eq!(out2, b"\x1b[38;2;1;22;133;48;2;0;0;0m");
    let mut out3: Vec<u8> = Vec::new();
    push_sgr_reset(&mut out3);
    assert_eq!(out3, b"\x1b[0m");
}

#[test]
fn decimal_digits() {
    for n in [0u8, 7, 10, 42, 99, 100, 199, 255] {
        let mut out: Vec<u8> = Vec::new();
        push_dec(&mut out, n);
        assert_eq!(String::from_utf8(out).unwrap(), n.to_string());
    }
}

#[test]
fn utf8_encodings() {
    let mut out: Vec<u8> = Vec::new();
    push_utf8(&mut out, 'A');
    push_utf8(&mut out, '\u{2588}');
    push_utf8(&mut out, '\u{1fb00}');
    let mut expect = Vec::new();
    expect.extend_from_slice("A\u{2588}\u{1fb00}".as_bytes());
    assert_eq!(out, expect);
}

#[test]
fn quadrant_checkerboard_cell() {
    // Two opposite white corners, two black: the white diagonal becomes the
    // foreground, the glyph is the matching diagonal quadrant character,
    // foreground white and background black.
    let w = (255, 255, 255);
    let k = (0, 0, 0);
    let img = rgb_image(2, 2, &[w, k, k, w]);
    let out = render_cell_btc(&img, GlyphFamily::Quadrant, 0, 0);
    assert_eq!(out.mask, 1 | 8);
    assert_eq!(unipix::glyph::quadrant_char(out.mask), '\u{259a}');
    assert_eq!(out.fg, (255, 255, 255));
    assert_eq!(out.bg, (0, 0, 0));

    // The other diagonal gives the other diagonal character.
    let img2 = rgb_image(2, 2, &[k, w, w, k]);
    let out2 = render_cell_btc(&img2, GlyphFamily::Quadrant, 0, 0);
    assert_eq!(out2.mask, 2 | 4);
    assert_eq!(unipix::glyph::quadrant_char(out2.mask), '\u{259e}');
    assert_eq!(out2.fg, (255, 255, 255));
    assert_eq!(out2.bg, (0, 0, 0));
}

#[test]
fn uniform_cell_renders_full_block_same_color() {
    // An all-one-color cell puts every sub-cell in the foreground, and the
    // background takes the foreground color rather than black.
    let c = (10, 200, 60);
    let img = rgb_image(2, 3, &[c; 6]);
    let out = render_cell_btc(&img, GlyphFamily::Sextant, 0, 0);
    assert_eq!(out.mask, 63);
    assert_eq!(out.fg, c);
    assert_eq!(out.bg, c);
}

#[test]
fn uniform_image_renders_identical_cells() {
    let c = (10, 200, 60);
    let img = rgb_image(4, 4, &[c; 16]);
    let a = render_cell_btc(&img, GlyphFamily::Quadrant, 0, 0);
    let b = render_cell_btc(&img, GlyphFamily::Quadrant, 2, 2);
    assert_eq!(a.mask, b.mask);
    assert_eq!(a.fg, b.fg);
    assert_eq!(a.bg, b.bg);

    // The dithered pipeline gathers no noise on a uniform image: the cells
    // come out equal and the buffer stays empty.
    let lines = render_frame_btc_dither(&img);
    assert_eq!(lines.len(), 1);
    let lines2 = render_frame_btc(&img, GlyphFamily::Quadrant);
    assert_eq!(lines2.len(), 2);
    assert_eq!(lines2[0], lines2[1]);
}

#[test]
fn uniform_dither_cell_zero_residual() {
    let c = (10, 200, 60);
    let img = rgb_image(2, 4, &[c; 8]);
    let mut buf = ErrorDiffusionBuffer::new(2, 4, 3);
    let out = render_cell_btc_dither(&img, &mut buf, 0, 0);
    assert_eq!(out.mask, 0xff);
    assert_eq!(out.fg, out.bg);
    assert!(buf.data.iter().all(|&v| v == 0), "residual was pushed");
}

#[test]
fn all_white_dot_cell_full_mask_no_error() {
    // A 2x4 all-white block under the fixed threshold of 128 with an empty
    // buffer: every dot on, white foreground, and no error pushed forward.
    let img = rgb_image(2, 4, &[(255, 255, 255); 8]);
    let gray = gray_image(2, 4, &[255; 8]);
    let mut buf = ErrorDiffusionBuffer::new(2, 4, 1);
    let (mask, fg) = render_cell_dot(&img, &gray, &mut buf, 0, 0, false, false, 128);
    assert_eq!(mask, 0xff);
    assert_eq!(fg, (255, 255, 255));
    assert!(buf.data.iter().all(|&v| v == 0), "error was pushed");
}

#[test]
fn all_white_inverted_dot_cell_empty_mask() {
    let img = rgb_image(2, 4, &[(255, 255, 255); 8]);
    let gray = gray_image(2, 4, &[255; 8]);
    let mut buf = ErrorDiffusionBuffer::new(2, 4, 1);
    let (mask, _) = render_cell_dot(&img, &gray, &mut buf, 0, 0, false, true, 128);
    assert_eq!(mask, 0);
}

#[test]
fn dot_threshold_splits_black_and_white() {
    // Left column white, right column black: only the left column's bits on.
    let px = [
        (255, 255, 255), (0, 0, 0),
        (255, 255, 255), (0, 0, 0),
        (255, 255, 255), (0, 0, 0),
        (255, 255, 255), (0, 0, 0),
    ];
    let img = rgb_image(2, 4, &px);
    let gray = gray_image(2, 4, &[255, 0, 255, 0, 255, 0, 255, 0]);
    let mut buf = ErrorDiffusionBuffer::new(2, 4, 1);
    let (mask, _) = render_cell_dot(&img, &gray, &mut buf, 0, 0, false, false, 128);
    assert_eq!(mask, 1 | 2 | 4 | 64);
}

#[test]
fn solve_dot_color_unmixes_and_clamps() {
    // 2 * target - bg, clamped to the unit scale per channel.
    assert_eq!(solve_dot_color((30000, 40000, 10000), (20000, 10000, 30000)), (40000, 65536, 0));
    assert_eq!(solve_dot_color((0, 0, 0), (0, 0, 0)), (0, 0, 0));
    assert_eq!(solve_dot_color((65536, 65536, 65536), (65536, 65536, 65536)), (65536, 65536, 65536));
}

#[test]
fn partial_edge_cell_sets_no_out_of_bounds_bits() {
    // A 1-pixel-wide image: the right column of every cell is out of
    // bounds, so no right-column bit can be set.
    let img = rgb_image(1, 2, &[(255, 255, 255), (255, 255, 255)]);
    let out = render_cell_btc(&img, GlyphFamily::Quadrant, 0, 0);
    assert_eq!(out.mask & (2 | 8), 0);
    assert_eq!(out.mask, 1 | 4);
}

#[test]
fn frame_line_counts() {
    let img = rgb_image(4, 5, &[(9, 9, 9); 20]);
    assert_eq!(render_frame_btc(&img, GlyphFamily::Quadrant).len(), 3);
    assert_eq!(render_frame_btc(&img, GlyphFamily::Sextant).len(), 2);
    assert_eq!(render_frame_btc_dither(&img).len(), 2);
    let gray = gray_image(4, 5, &[9; 20]);
    assert_eq!(render_frame_dot(&img, &gray, false, false, 128).len(), 2);
    assert_eq!(render_frame_dot(&img, &gray, true, false, 128).len(), 2);
}

#[test]
fn frame_lines_are_valid_escape_text() {
    let img = rgb_image(4, 4, &[(200, 30, 40); 16]);
    let lines = render_frame_btc(&img, GlyphFamily::Quadrant);
    for line in &lines {
        let s = String::from_utf8(line.clone()).unwrap();
        assert!(s.starts_with("\x1b[38;2;"));
        assert!(s.ends_with("\x1b[0m"));
    }
}

#[test]
fn target_dimension_rules() {
    assert_eq!(target_dimensions(80, 24, None, 2, 4), (160, 88));
    assert_eq!(target_dimensions(80, 24, Some(40), 2, 4), (80, 88));
    assert_eq!(target_dimensions(80, 1, None, 2, 4), (160, 0));
    assert_eq!(target_dimensions(10, 24, None, 1, 2), (20, 46));
}

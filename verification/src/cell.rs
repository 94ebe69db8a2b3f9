use vstd::prelude::*;

use crate::color::{linear_of, luma_of, encoded_of, to_linear, to_encoded, luma};
use crate::diffusion::{grid_index, lemma_grid_index_bound, lemma_index_arith, ErrorDiffusionBuffer, push_taps};
use crate::fixed::{spec_pow_frac, pow_frac};
use crate::glyph::{GlyphFamily, subcell_x_of, subcell_y_of, subcell_bit_of, subcell_pos, subcell_bit};

verus! {

/// An RGB bitmap with 8-bit encoded channels, row-major, three bytes per
/// pixel. This is the resized image that one rendering pass consumes.
pub struct Bitmap {
    pub width: usize,
    pub height: usize,
    pub data: Vec<u8>,
}

impl Bitmap {
    pub open spec fn wf(self) -> bool {
        &&& self.data@.len() == self.width * self.height * 3
        &&& 1 <= self.width <= 16384
        &&& 1 <= self.height <= 16384
    }

    /// Encoded value of channel `c` of the pixel at (x, y).
    pub open spec fn chan_at(self, x: int, y: int, c: int) -> int {
        self.data@[grid_index(self.width as int, 3, x, y, c)] as int
    }

    /// Fetch one pixel's encoded RGB triple.
    pub fn pixel(&self, x: usize, y: usize) -> (p: (u8, u8, u8))
        requires
            self.wf(),
            x < self.width,
            y < self.height,
        ensures
            p.0 == self.chan_at(x as int, y as int, 0),
            p.1 == self.chan_at(x as int, y as int, 1),
            p.2 == self.chan_at(x as int, y as int, 2),
    {
        proof {
            lemma_grid_index_bound(self.width as int, self.height as int, 3, x as int, y as int, 0);
            lemma_grid_index_bound(self.width as int, self.height as int, 3, x as int, y as int, 2);
            lemma_index_arith(self.width as int, self.height as int, 3, x as int, y as int, 0);
        }
        let base: usize = (y * self.width + x) * 3;
        (self.data[base], self.data[base + 1], self.data[base + 2])
    }

    /// Build a bitmap from raw bytes; rejects mismatched dimensions.
    pub fn new(width: usize, height: usize, data: Vec<u8>) -> (r: Option<Bitmap>)
        ensures
            r is Some <==> (data@.len() == width * height * 3 && 1 <= width <= 16384 && 1 <= height <= 16384),
            r is Some ==> r->0.wf() && r->0.width == width && r->0.height == height && r->0.data@ == data@,
    {
        if width >= 1 && width <= 16384 && height >= 1 && height <= 16384 {
            proof {
                assert(width * height <= 0x10000000) by (nonlinear_arith)
                    requires width <= 16384 && height <= 16384;
                assert(width * height * 3 <= 0x30000000) by (nonlinear_arith)
                    requires width * height <= 0x10000000;
            }
            let expect: usize = width * height * 3;
            if data.len() == expect {
                Some(Bitmap { width, height, data })
            } else {
                None
            }
        } else {
            None
        }
    }
}

/// A grayscale bitmap with one 8-bit sample per pixel, row-major.
pub struct GrayBitmap {
    pub width: usize,
    pub height: usize,
    pub data: Vec<u8>,
}

impl GrayBitmap {
    pub open spec fn wf(self) -> bool {
        &&& self.data@.len() == self.width * self.height
        &&& 1 <= self.width <= 16384
        &&& 1 <= self.height <= 16384
    }

    /// Gray value of the pixel at (x, y).
    pub open spec fn gray_at(self, x: int, y: int) -> int {
        self.data@[y * self.width + x] as int
    }

    pub fn pixel(&self, x: usize, y: usize) -> (p: u8)
        requires
            self.wf(),
            x < self.width,
            y < self.height,
        ensures
            p == self.gray_at(x as int, y as int),
    {
        proof {
            lemma_grid_index_bound(self.width as int, self.height as int, 1, x as int, y as int, 0);
            lemma_index_arith(self.width as int, self.height as int, 1, x as int, y as int, 0);
            assert((y * self.width + x) * 1 + 0 == y * self.width + x);
        }
        self.data[y * self.width + x]
    }

    /// Build a grayscale bitmap from raw bytes; rejects mismatched dimensions.
    pub fn new(width: usize, height: usize, data: Vec<u8>) -> (r: Option<GrayBitmap>)
        ensures
            r is Some <==> (data@.len() == width * height && 1 <= width <= 16384 && 1 <= height <= 16384),
            r is Some ==> r->0.wf() && r->0.width == width && r->0.height == height && r->0.data@ == data@,
    {
        if width >= 1 && width <= 16384 && height >= 1 && height <= 16384 {
            proof {
                assert(width * height <= 0x10000000) by (nonlinear_arith)
                    requires width <= 16384 && height <= 16384;
            }
            let expect: usize = width * height;
            if data.len() == expect {
                Some(GrayBitmap { width, height, data })
            } else {
                None
            }
        } else {
            None
        }
    }
}

/// One sub-pixel of a cell: its encoded-domain luma (weighted sum scaled by
/// 10000), its linear-light RGB (fixed point, 65536 = 1.0) and its mask bit.
pub struct SubPixel {
    pub luma: u32,
    pub lr: u32,
    pub lg: u32,
    pub lb: u32,
    pub bit: u8,
}

/// One rendered cell: the glyph's on/off mask and the encoded foreground and
/// background colors.
pub struct CellOut {
    pub mask: u8,
    pub fg: (u8, u8, u8),
    pub bg: (u8, u8, u8),
}

/// Is sub-cell `k` of the cell at (x0, y0) inside the bitmap?
pub open spec fn sub_in(w: int, h: int, fam: GlyphFamily, x0: int, y0: int, k: int) -> bool {
    x0 + subcell_x_of(fam, k) < w && y0 + subcell_y_of(fam, k) < h
}

/// Encoded-domain luma of sub-cell `k` (weights scaled by 10000).
pub open spec fn sub_luma(img: Bitmap, fam: GlyphFamily, x0: int, y0: int, k: int) -> int {
    let x = x0 + subcell_x_of(fam, k);
    let y = y0 + subcell_y_of(fam, k);
    luma_of(img.chan_at(x, y, 0), img.chan_at(x, y, 1), img.chan_at(x, y, 2))
}

/// Linear-light value of channel `c` of sub-cell `k`.
pub open spec fn sub_linear(img: Bitmap, fam: GlyphFamily, x0: int, y0: int, k: int, c: int) -> int {
    linear_of(img.chan_at(x0 + subcell_x_of(fam, k), y0 + subcell_y_of(fam, k), c))
}

/// Number of in-bounds sub-cells among the first `n`.
pub open spec fn cell_count(w: int, h: int, fam: GlyphFamily, x0: int, y0: int, n: int) -> int
    decreases n,
{
    if n <= 0 {
        0
    } else {
        cell_count(w, h, fam, x0, y0, n - 1) + if sub_in(w, h, fam, x0, y0, n - 1) { 1int } else { 0 }
    }
}

/// Sum of the lumas of the in-bounds sub-cells among the first `n`.
pub open spec fn cell_luma_total(img: Bitmap, fam: GlyphFamily, x0: int, y0: int, n: int) -> int
    decreases n,
{
    if n <= 0 {
        0
    } else {
        cell_luma_total(img, fam, x0, y0, n - 1)
            + if sub_in(img.width as int, img.height as int, fam, x0, y0, n - 1) {
                sub_luma(img, fam, x0, y0, n - 1)
            } else {
                0
            }
    }
}

/// The local-mean foreground test: a sub-cell belongs to the foreground
/// group exactly when its luma is at least the cell's mean luma. The
/// comparison multiplies through by the sub-cell count, so it is exact:
/// luma >= total / cnt  <==>  luma * cnt >= total.
pub open spec fn sub_in_fg(img: Bitmap, fam: GlyphFamily, x0: int, y0: int, k: int, total: int, cnt: int) -> bool {
    sub_luma(img, fam, x0, y0, k) * cnt >= total
}

/// The glyph mask accumulated over the first `n` sub-cells: the sum of the
/// mask bits of the in-bounds sub-cells in the foreground group. Each bit is
/// a distinct power of two, so adding it sets exactly that bit.
pub open spec fn cell_mask(img: Bitmap, fam: GlyphFamily, x0: int, y0: int, n: int, total: int, cnt: int) -> int
    decreases n,
{
    if n <= 0 {
        0
    } else {
        cell_mask(img, fam, x0, y0, n - 1, total, cnt)
            + if sub_in(img.width as int, img.height as int, fam, x0, y0, n - 1)
                && sub_in_fg(img, fam, x0, y0, n - 1, total, cnt) {
                subcell_bit_of(n - 1)
            } else {
                0
            }
    }
}

/// The sub-pixels, in sub-cell order, of the chosen group (foreground when
/// `fg` is true) among the first `n` sub-cells.
pub open spec fn group_seq(img: Bitmap, fam: GlyphFamily, x0: int, y0: int, n: int, total: int, cnt: int, fg: bool) -> Seq<SubPixel>
    decreases n,
{
    if n <= 0 {
        Seq::empty()
    } else {
        let rest = group_seq(img, fam, x0, y0, n - 1, total, cnt, fg);
        let k = n - 1;
        if sub_in(img.width as int, img.height as int, fam, x0, y0, k)
            && sub_in_fg(img, fam, x0, y0, k, total, cnt) == fg {
            rest.push(SubPixel {
                luma: sub_luma(img, fam, x0, y0, k) as u32,
                lr: sub_linear(img, fam, x0, y0, k, 0) as u32,
                lg: sub_linear(img, fam, x0, y0, k, 1) as u32,
                lb: sub_linear(img, fam, x0, y0, k, 2) as u32,
                bit: subcell_bit_of(k) as u8,
            })
        } else {
            rest
        }
    }
}

/// Sum of linear channel `c` over the first `i` sub-pixels of a group.
pub open spec fn group_chan_total(s: Seq<SubPixel>, i: int, c: int) -> int
    decreases i,
{
    if i <= 0 {
        0
    } else {
        group_chan_total(s, i - 1, c) + if c == 0 {
            s[i - 1].lr as int
        } else if c == 1 {
            s[i - 1].lg as int
        } else {
            s[i - 1].lb as int
        }
    }
}

/// Whether every sub-pixel of a group holds unit-scale linear values.
pub open spec fn group_wf(s: Seq<SubPixel>) -> bool {
    forall|j: int| 0 <= j < s.len()
        ==> (#[trigger] s[j].lr) <= 65536 && s[j].lg <= 65536 && s[j].lb <= 65536
}

/// The floor average of linear channel `c` over a whole group.
pub open spec fn group_chan_avg(s: Seq<SubPixel>, c: int) -> int {
    group_chan_total(s, s.len() as int, c) / (s.len() as int)
}

/// Channel sums stay within the unit scale times the group size.
pub proof fn lemma_group_chan_total_bound(s: Seq<SubPixel>, i: int, c: int)
    requires
        group_wf(s),
        0 <= i <= s.len(),
    ensures
        0 <= group_chan_total(s, i, c) <= i * 65536,
    decreases i,
{
    if i > 0 {
        lemma_group_chan_total_bound(s, i - 1, c);
        let p = s[i - 1];
        assert(p.lr <= 65536 && p.lg <= 65536 && p.lb <= 65536);
        assert((i - 1) * 65536 + 65536 == i * 65536) by (nonlinear_arith);
    }
}

/// The average linear-light color of a group of sub-pixels: each channel's
/// sum divided by the group size, or nothing for an empty group.
pub fn average_color_linear(pixels: &Vec<SubPixel>) -> (r: Option<(u32, u32, u32)>)
    requires
        group_wf(pixels@),
        pixels@.len() <= 8,
    ensures
        r is Some <==> pixels@.len() > 0,
        r is Some ==> (r->0).0 == group_chan_avg(pixels@, 0)
            && (r->0).1 == group_chan_avg(pixels@, 1)
            && (r->0).2 == group_chan_avg(pixels@, 2)
            && (r->0).0 <= 65536 && (r->0).1 <= 65536 && (r->0).2 <= 65536,
{
    if pixels.len() == 0 {
        return None;
    }
    let mut rs: u32 = 0;
    let mut gs: u32 = 0;
    let mut bs: u32 = 0;
    let mut i: usize = 0;
    while i < pixels.len()
        invariant
            group_wf(pixels@),
            pixels@.len() <= 8,
            i <= pixels@.len(),
            rs == group_chan_total(pixels@, i as int, 0),
            gs == group_chan_total(pixels@, i as int, 1),
            bs == group_chan_total(pixels@, i as int, 2),
        decreases pixels@.len() - i,
    {
        proof {
            lemma_group_chan_total_bound(pixels@, i as int, 0);
            lemma_group_chan_total_bound(pixels@, i as int, 1);
            lemma_group_chan_total_bound(pixels@, i as int, 2);
            assert((i as int) * 65536 <= 8 * 65536) by (nonlinear_arith)
                requires i <= 8;
        }
        rs = rs + pixels[i].lr;
        gs = gs + pixels[i].lg;
        bs = bs + pixels[i].lb;
        i += 1;
    }
    let n: u32 = pixels.len() as u32;
    proof {
        lemma_group_chan_total_bound(pixels@, pixels@.len() as int, 0);
        lemma_group_chan_total_bound(pixels@, pixels@.len() as int, 1);
        lemma_group_chan_total_bound(pixels@, pixels@.len() as int, 2);
        vstd::arithmetic::div_mod::lemma_div_multiples_vanish(65536, n as int);
        vstd::arithmetic::div_mod::lemma_div_is_ordered(rs as int, (n as int) * 65536, n as int);
        vstd::arithmetic::div_mod::lemma_div_is_ordered(gs as int, (n as int) * 65536, n as int);
        vstd::arithmetic::div_mod::lemma_div_is_ordered(bs as int, (n as int) * 65536, n as int);
    }
    Some((rs / n, gs / n, bs / n))
}

/// The average color of a group, re-encoded to 8-bit channels; black for an
/// empty group.
pub fn average_color(pixels: &Vec<SubPixel>) -> (r: (u8, u8, u8))
    requires
        group_wf(pixels@),
        pixels@.len() <= 8,
    ensures
        pixels@.len() == 0 ==> r == (0u8, 0u8, 0u8),
        pixels@.len() > 0 ==> r.0 == encoded_of(group_chan_avg(pixels@, 0))
            && r.1 == encoded_of(group_chan_avg(pixels@, 1))
            && r.2 == encoded_of(group_chan_avg(pixels@, 2)),
{
    match average_color_linear(pixels) {
        None => (0, 0, 0),
        Some((lr, lg, lb)) => {
            proof { crate::color::lemma_encoded_range(lr as int); }
            (to_encoded(lr), to_encoded(lg), to_encoded(lb))
        },
    }
}

/// One channel of the block-truncation unmixing step: the dot color that,
/// mixed half and half with the background, reproduces the target.
pub open spec fn dot_chan(target: int, bg: int) -> int {
    if 2 * target - bg < 0 {
        0
    } else if 2 * target - bg > 65536 {
        65536
    } else {
        2 * target - bg
    }
}

/// Solve for the foreground dot color under a half-half visual mix:
/// `2 * target - bg`, clamped to the unit scale, per channel.
pub fn solve_dot_color(target: (u32, u32, u32), bg: (u32, u32, u32)) -> (r: (u32, u32, u32))
    requires
        target.0 <= 65536 && target.1 <= 65536 && target.2 <= 65536,
        bg.0 <= 65536 && bg.1 <= 65536 && bg.2 <= 65536,
    ensures
        r.0 == dot_chan(target.0 as int, bg.0 as int),
        r.1 == dot_chan(target.1 as int, bg.1 as int),
        r.2 == dot_chan(target.2 as int, bg.2 as int),
        r.0 <= 65536 && r.1 <= 65536 && r.2 <= 65536,
{
    let rr: u32 = if 2 * target.0 < bg.0 {
        0
    } else if 2 * target.0 - bg.0 > 65536 {
        65536
    } else {
        2 * target.0 - bg.0
    };
    let rg: u32 = if 2 * target.1 < bg.1 {
        0
    } else if 2 * target.1 - bg.1 > 65536 {
        65536
    } else {
        2 * target.1 - bg.1
    };
    let rb: u32 = if 2 * target.2 < bg.2 {
        0
    } else if 2 * target.2 - bg.2 > 65536 {
        65536
    } else {
        2 * target.2 - bg.2
    };
    (rr, rg, rb)
}

/// The glyph mask of the cell at (x0, y0) under the local-mean partition.
pub open spec fn btc_mask_of(img: Bitmap, fam: GlyphFamily, x0: int, y0: int) -> int {
    let n = fam.spec_subcells();
    let cnt = cell_count(img.width as int, img.height as int, fam, x0, y0, n);
    let total = cell_luma_total(img, fam, x0, y0, n);
    cell_mask(img, fam, x0, y0, n, total, cnt)
}

/// The foreground group of the cell at (x0, y0).
pub open spec fn btc_fg_seq_of(img: Bitmap, fam: GlyphFamily, x0: int, y0: int) -> Seq<SubPixel> {
    let n = fam.spec_subcells();
    let cnt = cell_count(img.width as int, img.height as int, fam, x0, y0, n);
    let total = cell_luma_total(img, fam, x0, y0, n);
    group_seq(img, fam, x0, y0, n, total, cnt, true)
}

/// The background group of the cell at (x0, y0).
pub open spec fn btc_bg_seq_of(img: Bitmap, fam: GlyphFamily, x0: int, y0: int) -> Seq<SubPixel> {
    let n = fam.spec_subcells();
    let cnt = cell_count(img.width as int, img.height as int, fam, x0, y0, n);
    let total = cell_luma_total(img, fam, x0, y0, n);
    group_seq(img, fam, x0, y0, n, total, cnt, false)
}

/// Two to the power `k`, for the mask bound.
pub open spec fn two_pow(k: int) -> int {
    if k <= 0 { 1 } else if k == 1 { 2 } else if k == 2 { 4 } else if k == 3 { 8 }
    else if k == 4 { 16 } else if k == 5 { 32 } else if k == 6 { 64 } else if k == 7 { 128 } else { 256 }
}

/// The accumulated mask over the first `k` sub-cells stays below 2^k.
pub proof fn lemma_cell_mask_bound(img: Bitmap, fam: GlyphFamily, x0: int, y0: int, k: int, total: int, cnt: int)
    requires
        0 <= k <= 8,
    ensures
        0 <= cell_mask(img, fam, x0, y0, k, total, cnt) < two_pow(k),
    decreases k,
{
    if k > 0 {
        lemma_cell_mask_bound(img, fam, x0, y0, k - 1, total, cnt);
    }
}

/// Each family's mask count is two to the power of its sub-cell count.
pub proof fn lemma_mask_count_is_two_pow(fam: GlyphFamily)
    ensures
        two_pow(fam.spec_subcells()) == fam.spec_mask_count(),
{
}

/// Each group member holds unit-scale linear values.
proof fn lemma_group_seq_elem(img: Bitmap, fam: GlyphFamily, x0: int, y0: int, n: int, total: int, cnt: int, fg: bool, j: int)
    requires
        0 <= n <= 8,
        0 <= j < group_seq(img, fam, x0, y0, n, total, cnt, fg).len(),
    ensures
        group_seq(img, fam, x0, y0, n, total, cnt, fg)[j].lr <= 65536,
        group_seq(img, fam, x0, y0, n, total, cnt, fg)[j].lg <= 65536,
        group_seq(img, fam, x0, y0, n, total, cnt, fg)[j].lb <= 65536,
    decreases n,
{
    let s = group_seq(img, fam, x0, y0, n, total, cnt, fg);
    let prev = group_seq(img, fam, x0, y0, n - 1, total, cnt, fg);
    crate::color::lemma_linear_range();
    if j < prev.len() {
        lemma_group_seq_elem(img, fam, x0, y0, n - 1, total, cnt, fg, j);
        assert(s[j] == prev[j]);
    } else {
        assert(0 <= sub_linear(img, fam, x0, y0, n - 1, 0) <= 65536);
        assert(0 <= sub_linear(img, fam, x0, y0, n - 1, 1) <= 65536);
        assert(0 <= sub_linear(img, fam, x0, y0, n - 1, 2) <= 65536);
        assert(s[j] == s.last());
    }
}

/// A group is made of unit-scale sub-pixels and is no larger than the cell.
pub proof fn lemma_group_seq_wf(img: Bitmap, fam: GlyphFamily, x0: int, y0: int, n: int, total: int, cnt: int, fg: bool)
    requires
        0 <= n <= 8,
    ensures
        group_wf(group_seq(img, fam, x0, y0, n, total, cnt, fg)),
        group_seq(img, fam, x0, y0, n, total, cnt, fg).len() <= n,
    decreases n,
{
    if n > 0 {
        lemma_group_seq_wf(img, fam, x0, y0, n - 1, total, cnt, fg);
    }
    let s = group_seq(img, fam, x0, y0, n, total, cnt, fg);
    assert forall|j: int| 0 <= j < s.len()
        implies (#[trigger] s[j].lr) <= 65536 && s[j].lg <= 65536 && s[j].lb <= 65536 by {
        lemma_group_seq_elem(img, fam, x0, y0, n, total, cnt, fg, j);
    }
}

/// The linear-light foreground color of the cell: the floor average of the
/// foreground group, falling back to the background average when the
/// foreground group is empty, and to black when both are.
pub open spec fn btc_fg_of(img: Bitmap, fam: GlyphFamily, x0: int, y0: int) -> (int, int, int) {
    let fgs = btc_fg_seq_of(img, fam, x0, y0);
    let bgs = btc_bg_seq_of(img, fam, x0, y0);
    if fgs.len() > 0 {
        (group_chan_avg(fgs, 0), group_chan_avg(fgs, 1), group_chan_avg(fgs, 2))
    } else if bgs.len() > 0 {
        (group_chan_avg(bgs, 0), group_chan_avg(bgs, 1), group_chan_avg(bgs, 2))
    } else {
        (0int, 0int, 0int)
    }
}

/// The linear-light background color of the cell: the floor average of the
/// background group; an empty background group (a cell whose sub-cells all
/// tie at the mean) takes the foreground color, not black, so that a uniform
/// cell shows no color seam.
pub open spec fn btc_bg_of(img: Bitmap, fam: GlyphFamily, x0: int, y0: int) -> (int, int, int) {
    let bgs = btc_bg_seq_of(img, fam, x0, y0);
    if bgs.len() > 0 {
        (group_chan_avg(bgs, 0), group_chan_avg(bgs, 1), group_chan_avg(bgs, 2))
    } else {
        btc_fg_of(img, fam, x0, y0)
    }
}

/// Render one cell under the block-truncation policy: partition the
/// sub-cells by the cell's own mean luma, set the mask bits of the
/// foreground group, and average each group's colors in linear light.
pub fn render_cell_btc(img: &Bitmap, fam: GlyphFamily, x0: usize, y0: usize) -> (out: CellOut)
    requires
        img.wf(),
        x0 < img.width,
        y0 < img.height,
    ensures
        out.mask as int == btc_mask_of(*img, fam, x0 as int, y0 as int),
        out.mask < fam.spec_mask_count(),
        out.fg.0 == encoded_of(btc_fg_of(*img, fam, x0 as int, y0 as int).0),
        out.fg.1 == encoded_of(btc_fg_of(*img, fam, x0 as int, y0 as int).1),
        out.fg.2 == encoded_of(btc_fg_of(*img, fam, x0 as int, y0 as int).2),
        out.bg.0 == encoded_of(btc_bg_of(*img, fam, x0 as int, y0 as int).0),
        out.bg.1 == encoded_of(btc_bg_of(*img, fam, x0 as int, y0 as int).1),
        out.bg.2 == encoded_of(btc_bg_of(*img, fam, x0 as int, y0 as int).2),
{
    let w = img.width;
    let h = img.height;
    let n = fam.subcells();
    let xi = Ghost(x0 as int);
    let yi = Ghost(y0 as int);

    // First pass: the cell's in-bounds sub-cell count and luma total.
    let mut cnt: u32 = 0;
    let mut total: u32 = 0;
    let mut k: usize = 0;
    while k < n
        invariant
            img.wf(),
            x0 < img.width,
            y0 < img.height,
            w == img.width,
            h == img.height,
            n == fam.spec_subcells(),
            k <= n,
            cnt == cell_count(w as int, h as int, fam, x0 as int, y0 as int, k as int),
            total == cell_luma_total(*img, fam, x0 as int, y0 as int, k as int),
            cnt <= k,
            total <= k * 2550000,
        decreases n - k,
    {
        let (dx, dy) = subcell_pos(fam, k);
        if x0 + dx < w && y0 + dy < h {
            let p = img.pixel(x0 + dx, y0 + dy);
            let l = luma(p.0, p.1, p.2);
            proof {
                assert((k as int) * 2550000 + 2550000 == (k as int + 1) * 2550000) by (nonlinear_arith);
            }
            cnt = cnt + 1;
            total = total + l;
        } else {
            proof {
                assert((k as int) * 2550000 + 2550000 == (k as int + 1) * 2550000) by (nonlinear_arith);
            }
        }
        k += 1;
    }

    // Second pass: partition by the mean, collecting the mask and the two
    // color groups.
    let mut mask: u8 = 0;
    let mut fg_group: Vec<SubPixel> = Vec::new();
    let mut bg_group: Vec<SubPixel> = Vec::new();
    let mut k2: usize = 0;
    while k2 < n
        invariant
            img.wf(),
            x0 < img.width,
            y0 < img.height,
            w == img.width,
            h == img.height,
            n == fam.spec_subcells(),
            k2 <= n,
            cnt == cell_count(w as int, h as int, fam, x0 as int, y0 as int, n as int),
            total == cell_luma_total(*img, fam, x0 as int, y0 as int, n as int),
            cnt <= 8,
            total <= 20400000,
            mask as int == cell_mask(*img, fam, x0 as int, y0 as int, k2 as int, total as int, cnt as int),
            fg_group@ == group_seq(*img, fam, x0 as int, y0 as int, k2 as int, total as int, cnt as int, true),
            bg_group@ == group_seq(*img, fam, x0 as int, y0 as int, k2 as int, total as int, cnt as int, false),
        decreases n - k2,
    {
        let (dx, dy) = subcell_pos(fam, k2);
        if x0 + dx < w && y0 + dy < h {
            let p = img.pixel(x0 + dx, y0 + dy);
            let l = luma(p.0, p.1, p.2);
            let sp = SubPixel {
                luma: l,
                lr: to_linear(p.0),
                lg: to_linear(p.1),
                lb: to_linear(p.2),
                bit: subcell_bit(k2),
            };
            proof {
                assert((l as int) * (cnt as int) <= 20400000) by (nonlinear_arith)
                    requires l <= 2550000 && cnt <= 8;
            }
            if (l as u64) * (cnt as u64) >= total as u64 {
                proof {
                    lemma_cell_mask_bound(*img, fam, x0 as int, y0 as int, k2 as int, total as int, cnt as int);
                    lemma_cell_mask_bound(*img, fam, x0 as int, y0 as int, k2 as int + 1, total as int, cnt as int);
                    assert(mask as int == cell_mask(*img, fam, x0 as int, y0 as int, k2 as int, total as int, cnt as int));
                    assert((mask as int) < two_pow(k2 as int));
                    assert(k2 < 8);
                    assert(subcell_bit_of(k2 as int) == two_pow(k2 as int));
                    assert(two_pow(k2 as int) <= 128);
                    assert(mask as int + subcell_bit_of(k2 as int) < 256);
                }
                mask = mask + subcell_bit(k2);
                fg_group.push(sp);
            } else {
                bg_group.push(sp);
            }
        }
        k2 += 1;
    }

    proof {
        lemma_cell_mask_bound(*img, fam, x0 as int, y0 as int, n as int, total as int, cnt as int);
        lemma_mask_count_is_two_pow(fam);
        lemma_group_seq_wf(*img, fam, x0 as int, y0 as int, n as int, total as int, cnt as int, true);
        lemma_group_seq_wf(*img, fam, x0 as int, y0 as int, n as int, total as int, cnt as int, false);
    }
    let fg_lin_opt = average_color_linear(&fg_group);
    let bg_lin_opt = average_color_linear(&bg_group);
    let fg_lin: (u32, u32, u32) = match fg_lin_opt {
        Some(v) => v,
        None => match bg_lin_opt {
            Some(v2) => v2,
            None => (0, 0, 0),
        },
    };
    let bg_lin: (u32, u32, u32) = match bg_lin_opt {
        Some(v) => v,
        None => fg_lin,
    };
    CellOut {
        mask,
        fg: (to_encoded(fg_lin.0), to_encoded(fg_lin.1), to_encoded(fg_lin.2)),
        bg: (to_encoded(bg_lin.0), to_encoded(bg_lin.1), to_encoded(bg_lin.2)),
    }
}


/// Sub-cell positions stay inside the cell's own window.
pub proof fn lemma_subcell_bounds(fam: GlyphFamily, k: int)
    requires
        0 <= k < fam.spec_subcells(),
    ensures
        0 <= subcell_x_of(fam, k) < fam.spec_cell_width(),
        0 <= subcell_y_of(fam, k) < fam.spec_cell_height(),
{
}

/// Stability of the block-truncation split: with the cell's own sub-cell
/// count and luma total, a sub-cell strictly brighter than the cell's mean
/// luma is in the foreground group, one strictly darker is in the background
/// group, and a tie resolves to the foreground. The mean comparison is kept
/// exact by cross-multiplying with the count instead of dividing.
pub proof fn lemma_partition_stable(img: Bitmap, fam: GlyphFamily, x0: int, y0: int, k: int)
    requires
        0 <= k < fam.spec_subcells(),
    ensures
        ({
            let n = fam.spec_subcells();
            let cnt = cell_count(img.width as int, img.height as int, fam, x0, y0, n);
            let total = cell_luma_total(img, fam, x0, y0, n);
            &&& sub_luma(img, fam, x0, y0, k) * cnt > total ==> sub_in_fg(img, fam, x0, y0, k, total, cnt)
            &&& sub_luma(img, fam, x0, y0, k) * cnt < total ==> !sub_in_fg(img, fam, x0, y0, k, total, cnt)
            &&& sub_luma(img, fam, x0, y0, k) * cnt == total ==> sub_in_fg(img, fam, x0, y0, k, total, cnt)
        }),
{
}

/// Whether every pixel of the bitmap holds the one encoded color (r, g, b).
pub open spec fn uniform_image(img: Bitmap, r: int, g: int, b: int) -> bool {
    forall|x: int, y: int, c: int|
        0 <= x < img.width && 0 <= y < img.height && 0 <= c < 3
        ==> #[trigger] img.chan_at(x, y, c) == (if c == 0 { r } else if c == 1 { g } else { b })
}

/// Appending a sub-pixel to a group leaves the earlier channel sums alone.
proof fn lemma_group_chan_total_push(s: Seq<SubPixel>, e: SubPixel, i: int, c: int)
    requires
        0 <= i <= s.len(),
    ensures
        group_chan_total(s.push(e), i, c) == group_chan_total(s, i, c),
    decreases i,
{
    if i > 0 {
        lemma_group_chan_total_push(s, e, i - 1, c);
        assert(s.push(e)[i - 1] == s[i - 1]);
    }
}

/// On a uniform image, every fully in-bounds cell puts all its sub-cells in
/// the foreground group: the count is full, the luma total is the count
/// times the one luma, the mask accumulates every bit, and the background
/// group stays empty while the foreground's channel sums are the group size
/// times the one linear color.
proof fn lemma_uniform_cell_aux(img: Bitmap, fam: GlyphFamily, x0: int, y0: int, r: int, g: int, b: int, j: int)
    requires
        img.wf(),
        uniform_image(img, r, g, b),
        0 <= x0,
        0 <= y0,
        x0 + fam.spec_cell_width() <= img.width,
        y0 + fam.spec_cell_height() <= img.height,
        0 <= j <= fam.spec_subcells(),
    ensures
        ({
            let w = img.width as int;
            let h = img.height as int;
            let n = fam.spec_subcells();
            let el = luma_of(r, g, b);
            &&& cell_count(w, h, fam, x0, y0, j) == j
            &&& cell_luma_total(img, fam, x0, y0, j) == j * el
            &&& cell_mask(img, fam, x0, y0, j, n * el, n) == two_pow(j) - 1
            &&& group_seq(img, fam, x0, y0, j, n * el, n, false).len() == 0
            &&& group_seq(img, fam, x0, y0, j, n * el, n, true).len() == j
            &&& group_chan_total(group_seq(img, fam, x0, y0, j, n * el, n, true), j, 0) == j * linear_of(r)
            &&& group_chan_total(group_seq(img, fam, x0, y0, j, n * el, n, true), j, 1) == j * linear_of(g)
            &&& group_chan_total(group_seq(img, fam, x0, y0, j, n * el, n, true), j, 2) == j * linear_of(b)
        }),
    decreases j,
{
    let w = img.width as int;
    let h = img.height as int;
    let n = fam.spec_subcells();
    let el = luma_of(r, g, b);
    if j > 0 {
        lemma_uniform_cell_aux(img, fam, x0, y0, r, g, b, j - 1);
        let k = j - 1;
        lemma_subcell_bounds(fam, k);
        assert(sub_in(w, h, fam, x0, y0, k));
        assert(img.chan_at(x0 + subcell_x_of(fam, k), y0 + subcell_y_of(fam, k), 0) == r);
        assert(img.chan_at(x0 + subcell_x_of(fam, k), y0 + subcell_y_of(fam, k), 1) == g);
        assert(img.chan_at(x0 + subcell_x_of(fam, k), y0 + subcell_y_of(fam, k), 2) == b);
        assert(sub_luma(img, fam, x0, y0, k) == el);
        assert(el * n == n * el);
        assert(sub_in_fg(img, fam, x0, y0, k, n * el, n));
        assert((j - 1) * el + el == j * el) by (nonlinear_arith);
        let prev = group_seq(img, fam, x0, y0, j - 1, n * el, n, true);
        let cur = group_seq(img, fam, x0, y0, j, n * el, n, true);
        let e = cur.last();
        assert(cur == prev.push(e));
        lemma_group_chan_total_push(prev, e, j - 1, 0);
        lemma_group_chan_total_push(prev, e, j - 1, 1);
        lemma_group_chan_total_push(prev, e, j - 1, 2);
        assert(e.lr == linear_of(r) && e.lg == linear_of(g) && e.lb == linear_of(b)) by {
            crate::color::lemma_linear_range();
        }
        assert((j - 1) * linear_of(r) + linear_of(r) == j * linear_of(r)) by (nonlinear_arith);
        assert((j - 1) * linear_of(g) + linear_of(g) == j * linear_of(g)) by (nonlinear_arith);
        assert((j - 1) * linear_of(b) + linear_of(b) == j * linear_of(b)) by (nonlinear_arith);
    }
}

/// A uniform one-color image renders every fully in-bounds cell the same
/// way: the mask is full (every sub-cell on), and both the foreground and
/// the background color are exactly the one color's linear value, whatever
/// the cell's position. Homogeneous regions gather no dithering noise.
pub proof fn lemma_uniform_cell(img: Bitmap, fam: GlyphFamily, x0: int, y0: int, r: int, g: int, b: int)
    requires
        img.wf(),
        uniform_image(img, r, g, b),
        0 <= x0,
        0 <= y0,
        x0 + fam.spec_cell_width() <= img.width,
        y0 + fam.spec_cell_height() <= img.height,
    ensures
        btc_mask_of(img, fam, x0, y0) == fam.spec_mask_count() - 1,
        btc_fg_of(img, fam, x0, y0) == (linear_of(r), linear_of(g), linear_of(b)),
        btc_bg_of(img, fam, x0, y0) == (linear_of(r), linear_of(g), linear_of(b)),
{
    let n = fam.spec_subcells();
    let el = luma_of(r, g, b);
    lemma_uniform_cell_aux(img, fam, x0, y0, r, g, b, n);
    lemma_mask_count_is_two_pow(fam);
    let fgs = btc_fg_seq_of(img, fam, x0, y0);
    assert(fgs.len() == n);
    vstd::arithmetic::div_mod::lemma_div_multiples_vanish(linear_of(r), n);
    vstd::arithmetic::div_mod::lemma_div_multiples_vanish(linear_of(g), n);
    vstd::arithmetic::div_mod::lemma_div_multiples_vanish(linear_of(b), n);
    assert(group_chan_avg(fgs, 0) == (n * linear_of(r)) / n);
    assert(group_chan_avg(fgs, 1) == (n * linear_of(g)) / n);
    assert(group_chan_avg(fgs, 2) == (n * linear_of(b)) / n);
}


/// Largest gray value among the first `k` sub-cells that are in bounds
/// (255 when none is yet, mirroring a running minimum seeded high).
pub open spec fn cell_gray_max(gray: GrayBitmap, x0: int, y0: int, k: int) -> int
    decreases k,
{
    if k <= 0 {
        0
    } else {
        let m = cell_gray_max(gray, x0, y0, k - 1);
        let fam = GlyphFamily::DotMatrix;
        if sub_in(gray.width as int, gray.height as int, fam, x0, y0, k - 1) {
            let v = gray.gray_at(x0 + subcell_x_of(fam, k - 1), y0 + subcell_y_of(fam, k - 1));
            if v > m { v } else { m }
        } else {
            m
        }
    }
}

/// Smallest gray value among the first `k` in-bounds sub-cells (255 when
/// none is yet).
pub open spec fn cell_gray_min(gray: GrayBitmap, x0: int, y0: int, k: int) -> int
    decreases k,
{
    if k <= 0 {
        255
    } else {
        let m = cell_gray_min(gray, x0, y0, k - 1);
        let fam = GlyphFamily::DotMatrix;
        if sub_in(gray.width as int, gray.height as int, fam, x0, y0, k - 1) {
            let v = gray.gray_at(x0 + subcell_x_of(fam, k - 1), y0 + subcell_y_of(fam, k - 1));
            if v < m { v } else { m }
        } else {
            m
        }
    }
}

/// The contrast-adaptive color exponent: 0.8 weighted toward flat cells and
/// 0.5 toward contrasty ones, on the unit scale, from the normalized local
/// gray range. Flatter cells get the stronger lift.
pub open spec fn dot_bleh(gray: GrayBitmap, x0: int, y0: int) -> int {
    let mx = cell_gray_max(gray, x0, y0, 8);
    let mn = cell_gray_min(gray, x0, y0, 8);
    let d = if mx >= mn { mx - mn } else { 0 };
    let dfp = (d * 65536) / 255;
    (8 * (65536 - dfp) + 5 * dfp) / 10
}

/// The shape exponent of one dot-matrix configuration: one half for the
/// fixed-threshold configuration, the complement of the adaptive color
/// exponent for the contrast-adaptive one.
pub open spec fn dot_shape_expo(gray: GrayBitmap, x0: int, y0: int, adaptive: bool) -> int {
    if adaptive { 65536 - dot_bleh(gray, x0, y0) } else { 32768 }
}

/// The brightness value that drives one sub-cell's on/off decision, before
/// pending error is added: the gray sample (taken in linear light for the
/// adaptive configuration, on the plain encoded scale otherwise), raised to
/// the shape exponent, spread over the 0..255 scale (fixed point).
pub open spec fn dot_base(gray: GrayBitmap, x: int, y: int, adaptive: bool, expo: int) -> int {
    let v = if adaptive {
        linear_of(gray.gray_at(x, y))
    } else {
        (gray.gray_at(x, y) * 65536) / 255
    };
    255 * spec_pow_frac(v, expo)
}

/// Truncating division by the fixed-point scale (toward zero, as a float
/// cast to an integer truncates).
pub open spec fn trunc_div_fp(v: int) -> int {
    if v >= 0 { v / 65536 } else { -((-v) / 65536) }
}

/// Saturate to the 16-bit signed range before the whole-step comparison.
pub open spec fn clamp_i16(v: int) -> int {
    if v > 32767 { 32767 } else if v < -32768 { -32768 } else { v }
}

/// The quantization residual of one sub-cell: its brightness value
/// (truncated to whole 0..255 steps and saturated) minus what the binary
/// decision assumes (full white when on, black when off), on the fixed
/// scale.
pub open spec fn dot_resid(v: int, on: bool) -> int {
    (clamp_i16(trunc_div_fp(v)) - if on { 255int } else { 0 }) * 65536
}

/// The dithering state after the first `k` sub-cells of the dot-matrix cell
/// at (x0, y0): the accumulated mask and the error grid. Sub-cells are
/// visited in the fixed Braille order; each in-bounds sub-cell reads its
/// pending error from the grid as left by the previous sub-cells, decides
/// against the threshold, and diffuses its residual forward.
pub open spec fn dot_state(gray: GrayBitmap, g0: Seq<i64>, x0: int, y0: int, adaptive: bool, invert: bool, thr: int, k: int) -> (int, Seq<i64>)
    decreases k,
{
    if k <= 0 {
        (0int, g0)
    } else {
        let (m, g) = dot_state(gray, g0, x0, y0, adaptive, invert, thr, k - 1);
        let fam = GlyphFamily::DotMatrix;
        let w = gray.width as int;
        let h = gray.height as int;
        if sub_in(w, h, fam, x0, y0, k - 1) {
            let x = x0 + subcell_x_of(fam, k - 1);
            let y = y0 + subcell_y_of(fam, k - 1);
            let expo = dot_shape_expo(gray, x0, y0, adaptive);
            let v = dot_base(gray, x, y, adaptive, expo) + g[grid_index(w, 1, x, y, 0)];
            let on = if invert { v < thr } else { v > thr };
            let m2 = m + if on { subcell_bit_of(k - 1) } else { 0int };
            (m2, push_taps(g, w, h, 1, x, y, 0, dot_resid(v, on), 12))
        } else {
            (m, g)
        }
    }
}

/// The mask accumulated by the dithering state stays below 2^k, and the
/// grid keeps its size.
pub proof fn lemma_dot_state_bound(gray: GrayBitmap, g0: Seq<i64>, x0: int, y0: int, adaptive: bool, invert: bool, thr: int, k: int)
    requires
        0 <= k <= 8,
    ensures
        0 <= dot_state(gray, g0, x0, y0, adaptive, invert, thr, k).0 < two_pow(k),
    decreases k,
{
    if k > 0 {
        lemma_dot_state_bound(gray, g0, x0, y0, adaptive, invert, thr, k - 1);
    }
}

/// Sum of the linear-light values of channel `c` over the in-bounds
/// sub-cells among the first `n`.
pub open spec fn cell_lin_total(img: Bitmap, fam: GlyphFamily, x0: int, y0: int, n: int, c: int) -> int
    decreases n,
{
    if n <= 0 {
        0
    } else {
        cell_lin_total(img, fam, x0, y0, n - 1, c)
            + if sub_in(img.width as int, img.height as int, fam, x0, y0, n - 1) {
                sub_linear(img, fam, x0, y0, n - 1, c)
            } else {
                0
            }
    }
}

/// The displayed color of one dot-matrix cell, per channel: the cell's
/// linear average (always over eight sub-cells, in-bounds ones contributing)
/// raised to the color exponent; the adaptive configuration re-encodes the
/// result through the transfer function, the fixed-threshold one spreads the
/// square root onto 0..255 with rounding.
pub open spec fn dot_color_chan(img: Bitmap, gray: GrayBitmap, x0: int, y0: int, adaptive: bool, c: int) -> int {
    let avg = cell_lin_total(img, GlyphFamily::DotMatrix, x0, y0, 8, c) / 8;
    if adaptive {
        encoded_of(spec_pow_frac(avg, dot_bleh(gray, x0, y0)))
    } else {
        (spec_pow_frac(avg, 32768) * 255 + 32768) / 65536
    }
}

/// Channel sums over a cell stay within the unit scale times eight.
pub proof fn lemma_cell_lin_total_bound(img: Bitmap, fam: GlyphFamily, x0: int, y0: int, n: int, c: int)
    requires
        0 <= n <= 8,
    ensures
        0 <= cell_lin_total(img, fam, x0, y0, n, c) <= n * 65536,
    decreases n,
{
    if n > 0 {
        lemma_cell_lin_total_bound(img, fam, x0, y0, n - 1, c);
        crate::color::lemma_linear_range();
        assert((n - 1) * 65536 + 65536 == n * 65536) by (nonlinear_arith);
    }
}

/// Render one dot-matrix cell: decide each sub-cell against the threshold
/// with pending error added, diffuse each residual forward, and compute the
/// cell's displayed color from its linear average. The two configurations
/// share the pipeline: the fixed-threshold one thresholds the square-rooted
/// gray against the given level, the contrast-adaptive one thresholds the
/// exponent-lifted linear gray against the middle level and lifts the color
/// by the complementary exponent.
pub fn render_cell_dot(img: &Bitmap, gray: &GrayBitmap, buf: &mut ErrorDiffusionBuffer, x0: usize, y0: usize, adaptive: bool, invert: bool, threshold: u8) -> (r: (u8, (u8, u8, u8)))
    requires
        img.wf(),
        gray.wf(),
        img.width == gray.width,
        img.height == gray.height,
        old(buf).wf(),
        old(buf).spec_width() == gray.width,
        old(buf).spec_height() == gray.height,
        old(buf).spec_channels() == 1,
        x0 < gray.width,
        y0 < gray.height,
    ensures
        final(buf).wf(),
        final(buf).spec_width() == old(buf).spec_width(),
        final(buf).spec_height() == old(buf).spec_height(),
        final(buf).spec_channels() == old(buf).spec_channels(),
        ({
            let thr = (if adaptive { 128int } else { threshold as int }) * 65536;
            &&& r.0 as int == dot_state(*gray, old(buf).grid(), x0 as int, y0 as int, adaptive, invert, thr, 8).0
            &&& final(buf).grid() == dot_state(*gray, old(buf).grid(), x0 as int, y0 as int, adaptive, invert, thr, 8).1
        }),
        r.1.0 == dot_color_chan(*img, *gray, x0 as int, y0 as int, adaptive, 0),
        r.1.1 == dot_color_chan(*img, *gray, x0 as int, y0 as int, adaptive, 1),
        r.1.2 == dot_color_chan(*img, *gray, x0 as int, y0 as int, adaptive, 2),
{
    let fam = GlyphFamily::DotMatrix;
    let w = gray.width;
    let h = gray.height;

    // The cell's shape and color exponents.
    let mut mx: u8 = 0;
    let mut mn: u8 = 255;
    let mut k0: usize = 0;
    while k0 < 8
        invariant
            gray.wf(),
            x0 < gray.width,
            y0 < gray.height,
            w == gray.width,
            h == gray.height,
            k0 <= 8,
            fam == GlyphFamily::DotMatrix,
            mx as int == cell_gray_max(*gray, x0 as int, y0 as int, k0 as int),
            mn as int == cell_gray_min(*gray, x0 as int, y0 as int, k0 as int),
        decreases 8 - k0,
    {
        let (dx, dy) = subcell_pos(fam, k0);
        if x0 + dx < w && y0 + dy < h {
            let v = gray.pixel(x0 + dx, y0 + dy);
            if v > mx {
                mx = v;
            }
            if v < mn {
                mn = v;
            }
        }
        k0 += 1;
    }
    let d: u8 = if mx >= mn { mx - mn } else { 0 };
    let dfp: u32 = ((d as u32) * 65536) / 255;
    proof {
        assert(((d as int) * 65536) / 255 <= 65536) by {
            vstd::arithmetic::div_mod::lemma_div_is_ordered((d as int) * 65536, 255int * 65536, 255);
            vstd::arithmetic::div_mod::lemma_div_multiples_vanish(65536, 255);
        }
    }
    let bleh: u32 = (8 * (65536 - dfp) + 5 * dfp) / 10;
    let blah: u32 = 65536 - bleh;
    let expo: u32 = if adaptive { blah } else { 32768 };
    let thr: i64 = (if adaptive { 128i64 } else { threshold as i64 }) * 65536;

    // Shape pass: per sub-cell threshold decision with error diffusion.
    let mut mask: u8 = 0;
    let mut k: usize = 0;
    while k < 8
        invariant
            img.wf(),
            gray.wf(),
            img.width == gray.width,
            img.height == gray.height,
            buf.wf(),
            buf.spec_width() == old(buf).spec_width(),
            buf.spec_height() == old(buf).spec_height(),
            buf.spec_channels() == old(buf).spec_channels(),
            old(buf).spec_width() == gray.width,
            old(buf).spec_height() == gray.height,
            old(buf).spec_channels() == 1,
            x0 < gray.width,
            y0 < gray.height,
            w == gray.width,
            h == gray.height,
            k <= 8,
            fam == GlyphFamily::DotMatrix,
            expo == dot_shape_expo(*gray, x0 as int, y0 as int, adaptive),
            expo < 65536,
            thr == (if adaptive { 128int } else { threshold as int }) * 65536,
            mask as int == dot_state(*gray, old(buf).grid(), x0 as int, y0 as int, adaptive, invert, thr as int, k as int).0,
            buf.grid() == dot_state(*gray, old(buf).grid(), x0 as int, y0 as int, adaptive, invert, thr as int, k as int).1,
        decreases 8 - k,
    {
        let (dx, dy) = subcell_pos(fam, k);
        if x0 + dx < w && y0 + dy < h {
            let x = x0 + dx;
            let y = y0 + dy;
            let gv = gray.pixel(x, y);
            let base_in: u32 = if adaptive {
                to_linear(gv)
            } else {
                ((gv as u32) * 65536) / 255
            };
            proof {
                assert(((gv as int) * 65536) / 255 <= 65536) by {
                    vstd::arithmetic::div_mod::lemma_div_is_ordered((gv as int) * 65536, 255int * 65536, 255);
                    vstd::arithmetic::div_mod::lemma_div_multiples_vanish(65536, 255);
                }
            }
            let p = pow_frac(base_in, expo);
            let base: i64 = 255 * (p as i64);
            let pending = buf.take(x, y, 0);
            proof {
                lemma_grid_index_bound(w as int, h as int, 1, x as int, y as int, 0);
                assert(-crate::diffusion::ACC_SAT <= buf.grid()[grid_index(w as int, 1, x as int, y as int, 0)] <= crate::diffusion::ACC_SAT);
            }
            let v: i64 = base + pending;
            let on: bool = if invert { v < thr } else { v > thr };
            if on {
                proof {
                    lemma_dot_state_bound(*gray, old(buf).grid(), x0 as int, y0 as int, adaptive, invert, thr as int, k as int);
                    lemma_dot_state_bound(*gray, old(buf).grid(), x0 as int, y0 as int, adaptive, invert, thr as int, k as int + 1);
                    assert((mask as int) < two_pow(k as int));
                    assert(subcell_bit_of(k as int) == two_pow(k as int));
                    assert(two_pow(k as int) <= 128);
                }
                mask = mask + subcell_bit(k);
            }
            let t: i64 = if v >= 0 { v / 65536 } else { -((-v) / 65536) };
            let tc: i64 = if t > 32767 { 32767 } else if t < -32768 { -32768 } else { t };
            let resid: i64 = (tc - if on { 255 } else { 0 }) * 65536;
            buf.push_error(x, y, 0, resid);
        }
        k += 1;
    }

    // Color pass: the cell's linear average per channel, exponent-lifted.
    let mut rt: u32 = 0;
    let mut gt: u32 = 0;
    let mut bt: u32 = 0;
    let mut k2: usize = 0;
    while k2 < 8
        invariant
            img.wf(),
            x0 < img.width,
            y0 < img.height,
            w == img.width,
            h == img.height,
            k2 <= 8,
            fam == GlyphFamily::DotMatrix,
            rt == cell_lin_total(*img, GlyphFamily::DotMatrix, x0 as int, y0 as int, k2 as int, 0),
            gt == cell_lin_total(*img, GlyphFamily::DotMatrix, x0 as int, y0 as int, k2 as int, 1),
            bt == cell_lin_total(*img, GlyphFamily::DotMatrix, x0 as int, y0 as int, k2 as int, 2),
            rt <= k2 * 65536,
            gt <= k2 * 65536,
            bt <= k2 * 65536,
        decreases 8 - k2,
    {
        let (dx, dy) = subcell_pos(fam, k2);
        if x0 + dx < w && y0 + dy < h {
            let p = img.pixel(x0 + dx, y0 + dy);
            proof {
                crate::color::lemma_linear_range();
                assert((k2 as int) * 65536 + 65536 == (k2 as int + 1) * 65536) by (nonlinear_arith);
            }
            rt = rt + to_linear(p.0);
            gt = gt + to_linear(p.1);
            bt = bt + to_linear(p.2);
        } else {
            proof {
                assert((k2 as int) * 65536 + 65536 == (k2 as int + 1) * 65536) by (nonlinear_arith);
            }
        }
        k2 += 1;
    }
    let ra: u32 = rt / 8;
    let ga: u32 = gt / 8;
    let ba: u32 = bt / 8;
    let cr: u8;
    let cg: u8;
    let cb: u8;
    if adaptive {
        proof { crate::color::lemma_encoded_range(spec_pow_frac(ra as int, bleh as int)); }
        cr = to_encoded(pow_frac(ra, bleh));
        cg = to_encoded(pow_frac(ga, bleh));
        cb = to_encoded(pow_frac(ba, bleh));
    } else {
        cr = ((pow_frac(ra, 32768) * 255 + 32768) / 65536) as u8;
        cg = ((pow_frac(ga, 32768) * 255 + 32768) / 65536) as u8;
        cb = ((pow_frac(ba, 32768) * 255 + 32768) / 65536) as u8;
    }
    (mask, (cr, cg, cb))
}


/// Clamp a linear-light value to the unit scale.
pub open spec fn clamp_unit(v: int) -> int {
    if v < 0 { 0 } else if v > 65536 { 65536 } else { v }
}

/// The error-adjusted linear value of channel `c` of sub-cell `k`: the
/// decoded sample plus the pending diffused error at that pixel, clamped to
/// the unit scale.
pub open spec fn sub_linear_err(img: Bitmap, g: Seq<i64>, fam: GlyphFamily, x0: int, y0: int, k: int, c: int) -> int {
    let x = x0 + subcell_x_of(fam, k);
    let y = y0 + subcell_y_of(fam, k);
    clamp_unit(linear_of(img.chan_at(x, y, c)) + g[grid_index(img.width as int, 3, x, y, c)])
}

/// The error-adjusted sub-pixel of sub-cell `k`: its luma is taken on the
/// re-encoded adjusted channels, its colors are the adjusted linear values.
pub open spec fn sub_px_err(img: Bitmap, g: Seq<i64>, fam: GlyphFamily, x0: int, y0: int, k: int) -> SubPixel {
    let lr = sub_linear_err(img, g, fam, x0, y0, k, 0);
    let lg = sub_linear_err(img, g, fam, x0, y0, k, 1);
    let lb = sub_linear_err(img, g, fam, x0, y0, k, 2);
    SubPixel {
        luma: luma_of(encoded_of(lr), encoded_of(lg), encoded_of(lb)) as u32,
        lr: lr as u32,
        lg: lg as u32,
        lb: lb as u32,
        bit: subcell_bit_of(k) as u8,
    }
}

/// Sum of the error-adjusted lumas of the in-bounds sub-cells among the
/// first `n`.
pub open spec fn cell_luma_total_err(img: Bitmap, g: Seq<i64>, fam: GlyphFamily, x0: int, y0: int, n: int) -> int
    decreases n,
{
    if n <= 0 {
        0
    } else {
        cell_luma_total_err(img, g, fam, x0, y0, n - 1)
            + if sub_in(img.width as int, img.height as int, fam, x0, y0, n - 1) {
                sub_px_err(img, g, fam, x0, y0, n - 1).luma as int
            } else {
                0
            }
    }
}

/// The glyph mask over the first `n` error-adjusted sub-cells.
pub open spec fn cell_mask_err(img: Bitmap, g: Seq<i64>, fam: GlyphFamily, x0: int, y0: int, n: int, total: int, cnt: int) -> int
    decreases n,
{
    if n <= 0 {
        0
    } else {
        cell_mask_err(img, g, fam, x0, y0, n - 1, total, cnt)
            + if sub_in(img.width as int, img.height as int, fam, x0, y0, n - 1)
                && (sub_px_err(img, g, fam, x0, y0, n - 1).luma as int) * cnt >= total {
                subcell_bit_of(n - 1)
            } else {
                0
            }
    }
}

/// The chosen group of error-adjusted sub-pixels among the first `n`.
pub open spec fn group_seq_err(img: Bitmap, g: Seq<i64>, fam: GlyphFamily, x0: int, y0: int, n: int, total: int, cnt: int, fg: bool) -> Seq<SubPixel>
    decreases n,
{
    if n <= 0 {
        Seq::empty()
    } else {
        let rest = group_seq_err(img, g, fam, x0, y0, n - 1, total, cnt, fg);
        let k = n - 1;
        if sub_in(img.width as int, img.height as int, fam, x0, y0, k)
            && ((sub_px_err(img, g, fam, x0, y0, k).luma as int) * cnt >= total) == fg {
            rest.push(sub_px_err(img, g, fam, x0, y0, k))
        } else {
            rest
        }
    }
}

/// The mask over error-adjusted sub-cells stays below 2^n.
pub proof fn lemma_cell_mask_err_bound(img: Bitmap, g: Seq<i64>, fam: GlyphFamily, x0: int, y0: int, n: int, total: int, cnt: int)
    requires
        0 <= n <= 8,
    ensures
        0 <= cell_mask_err(img, g, fam, x0, y0, n, total, cnt) < two_pow(n),
    decreases n,
{
    if n > 0 {
        lemma_cell_mask_err_bound(img, g, fam, x0, y0, n - 1, total, cnt);
    }
}

/// Each error-adjusted group member holds unit-scale linear values.
proof fn lemma_group_seq_err_elem(img: Bitmap, g: Seq<i64>, fam: GlyphFamily, x0: int, y0: int, n: int, total: int, cnt: int, fg: bool, j: int)
    requires
        0 <= n <= 8,
        0 <= j < group_seq_err(img, g, fam, x0, y0, n, total, cnt, fg).len(),
    ensures
        group_seq_err(img, g, fam, x0, y0, n, total, cnt, fg)[j].lr <= 65536,
        group_seq_err(img, g, fam, x0, y0, n, total, cnt, fg)[j].lg <= 65536,
        group_seq_err(img, g, fam, x0, y0, n, total, cnt, fg)[j].lb <= 65536,
    decreases n,
{
    let s = group_seq_err(img, g, fam, x0, y0, n, total, cnt, fg);
    let prev = group_seq_err(img, g, fam, x0, y0, n - 1, total, cnt, fg);
    if j < prev.len() {
        lemma_group_seq_err_elem(img, g, fam, x0, y0, n - 1, total, cnt, fg, j);
        assert(s[j] == prev[j]);
    } else {
        assert(s[j] == s.last());
    }
}

/// An error-adjusted group is made of unit-scale sub-pixels, no larger than
/// the cell.
pub proof fn lemma_group_seq_err_wf(img: Bitmap, g: Seq<i64>, fam: GlyphFamily, x0: int, y0: int, n: int, total: int, cnt: int, fg: bool)
    requires
        0 <= n <= 8,
    ensures
        group_wf(group_seq_err(img, g, fam, x0, y0, n, total, cnt, fg)),
        group_seq_err(img, g, fam, x0, y0, n, total, cnt, fg).len() <= n,
    decreases n,
{
    if n > 0 {
        lemma_group_seq_err_wf(img, g, fam, x0, y0, n - 1, total, cnt, fg);
    }
    let s = group_seq_err(img, g, fam, x0, y0, n, total, cnt, fg);
    assert forall|j: int| 0 <= j < s.len()
        implies (#[trigger] s[j].lr) <= 65536 && s[j].lg <= 65536 && s[j].lb <= 65536 by {
        lemma_group_seq_err_elem(img, g, fam, x0, y0, n, total, cnt, fg, j);
    }
}

/// Diffuse one cell residual triple from every in-bounds sub-cell among the
/// first `n`, channel by channel.
pub open spec fn cell_push_all(g: Seq<i64>, w: int, h: int, fam: GlyphFamily, x0: int, y0: int, er: int, eg: int, eb: int, n: int) -> Seq<i64>
    decreases n,
{
    if n <= 0 {
        g
    } else {
        let prev = cell_push_all(g, w, h, fam, x0, y0, er, eg, eb, n - 1);
        let k = n - 1;
        if sub_in(w, h, fam, x0, y0, k) {
            let x = x0 + subcell_x_of(fam, k);
            let y = y0 + subcell_y_of(fam, k);
            push_taps(
                push_taps(
                    push_taps(prev, w, h, 3, x, y, 0, er, 12),
                    w, h, 3, x, y, 1, eg, 12),
                w, h, 3, x, y, 2, eb, 12)
        } else {
            prev
        }
    }
}

/// The linear target foreground and background of the dithered cell, with
/// the same fallbacks as the plain block-truncation policy.
pub open spec fn btc_dither_bg_of(img: Bitmap, g: Seq<i64>, fam: GlyphFamily, x0: int, y0: int) -> (int, int, int) {
    let n = fam.spec_subcells();
    let cnt = cell_count(img.width as int, img.height as int, fam, x0, y0, n);
    let total = cell_luma_total_err(img, g, fam, x0, y0, n);
    let fgs = group_seq_err(img, g, fam, x0, y0, n, total, cnt, true);
    let bgs = group_seq_err(img, g, fam, x0, y0, n, total, cnt, false);
    if bgs.len() > 0 {
        (group_chan_avg(bgs, 0), group_chan_avg(bgs, 1), group_chan_avg(bgs, 2))
    } else if fgs.len() > 0 {
        (group_chan_avg(fgs, 0), group_chan_avg(fgs, 1), group_chan_avg(fgs, 2))
    } else {
        (0int, 0int, 0int)
    }
}

/// The target foreground: the foreground group's average, or the background
/// color when the foreground group is empty.
pub open spec fn btc_dither_target_of(img: Bitmap, g: Seq<i64>, fam: GlyphFamily, x0: int, y0: int) -> (int, int, int) {
    let n = fam.spec_subcells();
    let cnt = cell_count(img.width as int, img.height as int, fam, x0, y0, n);
    let total = cell_luma_total_err(img, g, fam, x0, y0, n);
    let fgs = group_seq_err(img, g, fam, x0, y0, n, total, cnt, true);
    if fgs.len() > 0 {
        (group_chan_avg(fgs, 0), group_chan_avg(fgs, 1), group_chan_avg(fgs, 2))
    } else {
        btc_dither_bg_of(img, g, fam, x0, y0)
    }
}

/// The dithered cell's mask, over the error-adjusted lumas.
pub open spec fn btc_dither_mask_of(img: Bitmap, g: Seq<i64>, fam: GlyphFamily, x0: int, y0: int) -> int {
    let n = fam.spec_subcells();
    let cnt = cell_count(img.width as int, img.height as int, fam, x0, y0, n);
    let total = cell_luma_total_err(img, g, fam, x0, y0, n);
    cell_mask_err(img, g, fam, x0, y0, n, total, cnt)
}

/// One channel's residual: the target minus what the terminal will show,
/// a half-half mix of the clamped dot color and the background.
pub open spec fn mix_resid(target: int, bg: int) -> int {
    target - (dot_chan(target, bg) + bg) / 2
}

/// Render one dot-matrix cell under block truncation with full-color error
/// diffusion in linear light: adjust each sub-cell by its pending error,
/// partition by the cell's own mean luma, unmix the foreground dot color
/// against the background, and diffuse the per-channel mixing residual
/// forward from every in-bounds sub-cell.
pub fn render_cell_btc_dither(img: &Bitmap, buf: &mut ErrorDiffusionBuffer, x0: usize, y0: usize) -> (out: CellOut)
    requires
        img.wf(),
        old(buf).wf(),
        old(buf).spec_width() == img.width,
        old(buf).spec_height() == img.height,
        old(buf).spec_channels() == 3,
        x0 < img.width,
        y0 < img.height,
    ensures
        final(buf).wf(),
        final(buf).spec_width() == old(buf).spec_width(),
        final(buf).spec_height() == old(buf).spec_height(),
        final(buf).spec_channels() == old(buf).spec_channels(),
        out.mask as int == btc_dither_mask_of(*img, old(buf).grid(), GlyphFamily::DotMatrix, x0 as int, y0 as int),
        ({
            let t = btc_dither_target_of(*img, old(buf).grid(), GlyphFamily::DotMatrix, x0 as int, y0 as int);
            let b = btc_dither_bg_of(*img, old(buf).grid(), GlyphFamily::DotMatrix, x0 as int, y0 as int);
            &&& out.fg.0 == encoded_of(dot_chan(t.0, b.0))
            &&& out.fg.1 == encoded_of(dot_chan(t.1, b.1))
            &&& out.fg.2 == encoded_of(dot_chan(t.2, b.2))
            &&& out.bg.0 == encoded_of(b.0)
            &&& out.bg.1 == encoded_of(b.1)
            &&& out.bg.2 == encoded_of(b.2)
            &&& final(buf).grid() == cell_push_all(old(buf).grid(), img.width as int, img.height as int,
                GlyphFamily::DotMatrix, x0 as int, y0 as int,
                mix_resid(t.0, b.0) * 65536, mix_resid(t.1, b.1) * 65536, mix_resid(t.2, b.2) * 65536, 8)
        }),
{
    let fam = GlyphFamily::DotMatrix;
    let w = img.width;
    let h = img.height;
    let g0 = Ghost(buf.grid());

    // Fetch one error-adjusted sub-pixel.
    // First pass: in-bounds count and error-adjusted luma total.
    let mut cnt: u32 = 0;
    let mut total: u32 = 0;
    let mut k: usize = 0;
    while k < 8
        invariant
            img.wf(),
            buf.wf(),
            buf == old(buf),
            buf.spec_width() == img.width,
            buf.spec_height() == img.height,
            buf.spec_channels() == 3,
            x0 < img.width,
            y0 < img.height,
            w == img.width,
            h == img.height,
            fam == GlyphFamily::DotMatrix,
            g0@ == buf.grid(),
            k <= 8,
            cnt == cell_count(w as int, h as int, fam, x0 as int, y0 as int, k as int),
            total == cell_luma_total_err(*img, g0@, fam, x0 as int, y0 as int, k as int),
            cnt <= k,
            total <= k * 2550000,
        decreases 8 - k,
    {
        let (dx, dy) = subcell_pos(fam, k);
        if x0 + dx < w && y0 + dy < h {
            let sp = fetch_sub_px_err(img, buf, x0 + dx, y0 + dy, Ghost(fam), Ghost(x0 as int), Ghost(y0 as int), Ghost(k as int));
            proof {
                assert((k as int) * 2550000 + 2550000 == (k as int + 1) * 2550000) by (nonlinear_arith);
            }
            cnt = cnt + 1;
            total = total + sp.luma;
        } else {
            proof {
                assert((k as int) * 2550000 + 2550000 == (k as int + 1) * 2550000) by (nonlinear_arith);
            }
        }
        k += 1;
    }

    // Second pass: mask and groups over the error-adjusted sub-pixels.
    let mut mask: u8 = 0;
    let mut fg_group: Vec<SubPixel> = Vec::new();
    let mut bg_group: Vec<SubPixel> = Vec::new();
    let mut k2: usize = 0;
    while k2 < 8
        invariant
            img.wf(),
            buf.wf(),
            buf == old(buf),
            buf.spec_width() == img.width,
            buf.spec_height() == img.height,
            buf.spec_channels() == 3,
            x0 < img.width,
            y0 < img.height,
            w == img.width,
            h == img.height,
            fam == GlyphFamily::DotMatrix,
            g0@ == buf.grid(),
            k2 <= 8,
            cnt == cell_count(w as int, h as int, fam, x0 as int, y0 as int, 8),
            total == cell_luma_total_err(*img, g0@, fam, x0 as int, y0 as int, 8),
            cnt <= 8,
            total <= 20400000,
            mask as int == cell_mask_err(*img, g0@, fam, x0 as int, y0 as int, k2 as int, total as int, cnt as int),
            fg_group@ == group_seq_err(*img, g0@, fam, x0 as int, y0 as int, k2 as int, total as int, cnt as int, true),
            bg_group@ == group_seq_err(*img, g0@, fam, x0 as int, y0 as int, k2 as int, total as int, cnt as int, false),
        decreases 8 - k2,
    {
        let (dx, dy) = subcell_pos(fam, k2);
        if x0 + dx < w && y0 + dy < h {
            let mut sp = fetch_sub_px_err(img, buf, x0 + dx, y0 + dy, Ghost(fam), Ghost(x0 as int), Ghost(y0 as int), Ghost(k2 as int));
            sp.bit = subcell_bit(k2);
            proof {
                assert(sp == sub_px_err(*img, g0@, fam, x0 as int, y0 as int, k2 as int));
                assert((sp.luma as int) * (cnt as int) <= 20400000) by (nonlinear_arith)
                    requires sp.luma <= 2550000 && cnt <= 8;
            }
            if (sp.luma as u64) * (cnt as u64) >= total as u64 {
                proof {
                    lemma_cell_mask_err_bound(*img, g0@, fam, x0 as int, y0 as int, k2 as int, total as int, cnt as int);
                    lemma_cell_mask_err_bound(*img, g0@, fam, x0 as int, y0 as int, k2 as int + 1, total as int, cnt as int);
                    assert((mask as int) < two_pow(k2 as int));
                    assert(subcell_bit_of(k2 as int) == two_pow(k2 as int));
                    assert(two_pow(k2 as int) <= 128);
                }
                mask = mask + subcell_bit(k2);
                fg_group.push(sp);
            } else {
                bg_group.push(sp);
            }
        }
        k2 += 1;
    }

    proof {
        lemma_group_seq_err_wf(*img, g0@, fam, x0 as int, y0 as int, 8, total as int, cnt as int, true);
        lemma_group_seq_err_wf(*img, g0@, fam, x0 as int, y0 as int, 8, total as int, cnt as int, false);
    }
    let fg_lin_opt = average_color_linear(&fg_group);
    let bg_lin_opt = average_color_linear(&bg_group);
    let bg_lin: (u32, u32, u32) = match bg_lin_opt {
        Some(v) => v,
        None => match fg_lin_opt {
            Some(v2) => v2,
            None => (0, 0, 0),
        },
    };
    let target: (u32, u32, u32) = match fg_lin_opt {
        Some(v) => v,
        None => bg_lin,
    };
    let dot = solve_dot_color(target, bg_lin);

    // Mixing residuals, in linear light, on the fixed scale.
    let er: i64 = ((target.0 as i64) - ((dot.0 as i64) + (bg_lin.0 as i64)) / 2) * 65536;
    let eg: i64 = ((target.1 as i64) - ((dot.1 as i64) + (bg_lin.1 as i64)) / 2) * 65536;
    let eb: i64 = ((target.2 as i64) - ((dot.2 as i64) + (bg_lin.2 as i64)) / 2) * 65536;

    // Third pass: diffuse the residuals from every in-bounds sub-cell.
    let mut k3: usize = 0;
    while k3 < 8
        invariant
            img.wf(),
            buf.wf(),
            buf.spec_width() == img.width,
            buf.spec_height() == img.height,
            buf.spec_channels() == 3,
            x0 < img.width,
            y0 < img.height,
            w == img.width,
            h == img.height,
            fam == GlyphFamily::DotMatrix,
            k3 <= 8,
            -0x100000000000000 <= er <= 0x100000000000000,
            -0x100000000000000 <= eg <= 0x100000000000000,
            -0x100000000000000 <= eb <= 0x100000000000000,
            buf.grid() == cell_push_all(g0@, w as int, h as int, fam, x0 as int, y0 as int, er as int, eg as int, eb as int, k3 as int),
        decreases 8 - k3,
    {
        let (dx, dy) = subcell_pos(fam, k3);
        if x0 + dx < w && y0 + dy < h {
            buf.push_error(x0 + dx, y0 + dy, 0, er);
            buf.push_error(x0 + dx, y0 + dy, 1, eg);
            buf.push_error(x0 + dx, y0 + dy, 2, eb);
        }
        k3 += 1;
    }

    proof { crate::color::lemma_encoded_range(dot.0 as int); }
    CellOut {
        mask,
        fg: (to_encoded(dot.0), to_encoded(dot.1), to_encoded(dot.2)),
        bg: (to_encoded(bg_lin.0), to_encoded(bg_lin.1), to_encoded(bg_lin.2)),
    }
}

/// Fetch the error-adjusted sub-pixel at (x, y): each channel decoded to
/// linear light, the pending error added and clamped, and the luma taken on
/// the re-encoded channels. The mask bit is left for the caller to set.
fn fetch_sub_px_err(img: &Bitmap, buf: &ErrorDiffusionBuffer, x: usize, y: usize, fam: Ghost<GlyphFamily>, x0: Ghost<int>, y0: Ghost<int>, k: Ghost<int>) -> (sp: SubPixel)
    requires
        img.wf(),
        buf.wf(),
        buf.spec_width() == img.width,
        buf.spec_height() == img.height,
        buf.spec_channels() == 3,
        x < img.width,
        y < img.height,
        x == x0@ + subcell_x_of(fam@, k@),
        y == y0@ + subcell_y_of(fam@, k@),
    ensures
        sp.luma == sub_px_err(*img, buf.grid(), fam@, x0@, y0@, k@).luma,
        sp.lr == sub_px_err(*img, buf.grid(), fam@, x0@, y0@, k@).lr,
        sp.lg == sub_px_err(*img, buf.grid(), fam@, x0@, y0@, k@).lg,
        sp.lb == sub_px_err(*img, buf.grid(), fam@, x0@, y0@, k@).lb,
        sp.luma <= 2550000,
{
    let p = img.pixel(x, y);
    proof {
        lemma_grid_index_bound(img.width as int, img.height as int, 3, x as int, y as int, 0);
        lemma_grid_index_bound(img.width as int, img.height as int, 3, x as int, y as int, 1);
        lemma_grid_index_bound(img.width as int, img.height as int, 3, x as int, y as int, 2);
    }
    let e0 = buf.take(x, y, 0);
    let e1 = buf.take(x, y, 1);
    let e2 = buf.take(x, y, 2);
    let lr = clamp_unit_exec((to_linear(p.0) as i64) + e0);
    let lg = clamp_unit_exec((to_linear(p.1) as i64) + e1);
    let lb = clamp_unit_exec((to_linear(p.2) as i64) + e2);
    proof {
        crate::color::lemma_encoded_range(lr as int);
        crate::color::lemma_encoded_range(lg as int);
        crate::color::lemma_encoded_range(lb as int);
    }
    let l = luma(to_encoded(lr), to_encoded(lg), to_encoded(lb));
    SubPixel { luma: l, lr, lg, lb, bit: 0 }
}

/// Clamp a linear value with pending error to the unit scale.
fn clamp_unit_exec(v: i64) -> (r: u32)
    ensures
        r == clamp_unit(v as int),
        r <= 65536,
{
    if v < 0 {
        0
    } else if v > 65536 {
        65536
    } else {
        v as u32
    }
}

} // verus!

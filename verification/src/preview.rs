//! Turning a panel frame into terminal cells.
//!
//! A preview answers "what will this look like on the keyboard" before an
//! upload spends forty-five seconds finding out, so it renders the frame the
//! device will actually receive -- 160x96 RGB565 -- not the source file.
//! Bytes and a target size in, colours out: no terminal types.

use crate::protocol::rgb565_value;
use vstd::prelude::*;

verus! {

/// One cell of a preview: the colour of its upper half and of its lower
/// half, each as (red, green, blue).
pub type Cell = ((u8, u8, u8), (u8, u8, u8));

/// A rendered preview: rows of cells, each carrying the two pixels it stacks.
///
/// A terminal cell is about twice as tall as it is wide, so one cell shows
/// two source rows (`▀` drawn with the upper pixel as foreground and the
/// lower as background) and the panel keeps its shape.
#[derive(Debug, Clone, PartialEq, Eq)]
pub struct Preview {
    pub rows: Vec<Vec<Cell>>,
}

impl Preview {
    /// Cells per row (that of the first row; 0 for an empty preview).
    pub fn width(&self) -> (n: usize)
        ensures
            n == if self.rows@.len() == 0 {
                0
            } else {
                self.rows@[0]@.len()
            },
    {
        if self.rows.len() == 0 {
            0
        } else {
            self.rows[0].len()
        }
    }

    /// Number of rows.
    pub fn height(&self) -> (n: usize)
        ensures
            n == self.rows@.len(),
    {
        self.rows.len()
    }
}

/// The rows of the largest preview that fit: limited by the height on offer
/// and by the width (one cell per source column, two source rows per cell,
/// so the panel's 160:96 is `width == rows * 10 / 3`).
pub open spec fn fit_rows(max_w: int, max_h: int) -> int {
    if max_h < max_w * 3 / 10 {
        max_h
    } else {
        max_w * 3 / 10
    }
}

/// What `fit` answers: `None` when nothing honest fits (no space, or fewer
/// than four rows), else `(rows * 10 / 3, rows)`.
pub open spec fn fit_spec(max_w: int, max_h: int) -> Option<(int, int)> {
    let h = fit_rows(max_w, max_h);
    if max_w == 0 || max_h == 0 || h < 4 || h * 10 / 3 == 0 {
        None
    } else {
        Some((h * 10 / 3, h))
    }
}

/// The largest preview that fits in `max_w` x `max_h` cells while keeping the
/// panel's shape; `None` when the space is too small to show anything
/// honest (a two-pixel smear is worse than a sentence).
pub fn fit(max_w: usize, max_h: usize) -> (r: Option<(usize, usize)>)
    ensures
        match r {
            None => fit_spec(max_w as int, max_h as int) is None,
            Some((w, h)) => fit_spec(max_w as int, max_h as int) == Some((w as int, h as int)),
        },
        r matches Some((w, h)) ==> w <= max_w && h <= max_h && h >= 4,
{
    if max_w == 0 || max_h == 0 {
        return None;
    }
    // floor(3 * max_w / 10), without a multiplication that could overflow.
    let by_width = (max_w / 10) * 3 + ((max_w % 10) * 3) / 10;
    assert(by_width == max_w * 3 / 10) by (nonlinear_arith)
        requires
            by_width == (max_w / 10) * 3 + ((max_w % 10) * 3) / 10,
    ;
    let h = if max_h < by_width {
        max_h
    } else {
        by_width
    };
    if h < 4 {
        return None;
    }
    // floor(10 * h / 3), likewise.
    let w = (h / 3) * 10 + ((h % 3) * 10) / 3;
    assert(w == h * 10 / 3) by (nonlinear_arith)
        requires
            w == (h / 3) * 10 + ((h % 3) * 10) / 3,
    ;
    assert(h * 10 / 3 <= max_w) by (nonlinear_arith)
        requires
            h <= max_w * 3 / 10,
    ;
    if w == 0 {
        None
    } else {
        Some((w, h))
    }
}

/// A 5-bit channel widened to 8 bits by repeating its high bits.
pub open spec fn widen5(c: int) -> u8 {
    (c * 8 + c / 4) as u8
}

/// A 6-bit channel widened to 8 bits by repeating its high bits.
pub open spec fn widen6(c: int) -> u8 {
    (c * 4 + c / 16) as u8
}

/// The colour of an RGB565 value, each channel widened so that full
/// intensity stays 255.
pub open spec fn rgb565_colour(v: u16) -> (u8, u8, u8) {
    (widen5((v / 2048) as int), widen6(((v / 32) % 64) as int), widen5((v % 32) as int))
}

/// Expands a 5/6/5 pixel back to 8 bits per channel.
///
/// The low bits are filled by repeating the high ones (`r << 3 | r >> 2`)
/// rather than zero-filling, so full white stays 255 instead of drifting to
/// 248 and making every preview look slightly grey.
pub fn rgb565_to_rgb(v: u16) -> (c: (u8, u8, u8))
    ensures
        c == rgb565_colour(v),
{
    let r: u8 = ((v >> 11) & 0x1f) as u8;
    let g: u8 = ((v >> 5) & 0x3f) as u8;
    let b: u8 = (v & 0x1f) as u8;
    assert(r == v / 2048 && g == (v / 32) % 64 && b == v % 32) by (bit_vector)
        requires
            r == ((v >> 11) & 0x1f) as u8,
            g == ((v >> 5) & 0x3f) as u8,
            b == (v & 0x1f) as u8,
    ;
    let rr: u8 = (r << 3) | (r >> 2);
    let gg: u8 = (g << 2) | (g >> 4);
    let bb: u8 = (b << 3) | (b >> 2);
    assert(rr == (r * 8 + r / 4) as u8) by (bit_vector)
        requires
            r < 32,
            rr == (r << 3) | (r >> 2),
    ;
    assert(gg == (g * 4 + g / 16) as u8) by (bit_vector)
        requires
            g < 64,
            gg == (g << 2) | (g >> 4),
    ;
    assert(bb == (b * 8 + b / 4) as u8) by (bit_vector)
        requires
            b < 32,
            bb == (b << 3) | (b >> 2),
    ;
    (rr, gg, bb)
}

/// The panel column a preview column samples: the cell grid is mapped onto
/// the panel by centre, so a one-cell preview takes the middle pixel.
pub open spec fn sample_x(x: int, w: int) -> int {
    let s = (x * 160 + 80) / if w < 1 {
        1
    } else {
        w
    };
    if s < 159 {
        s
    } else {
        159
    }
}

/// The panel row a preview half-row samples (`h` cells are `2h` half-rows).
pub open spec fn sample_y(y: int, h: int) -> int {
    let s = (y * 96 + 48) / if 2 * h < 1 {
        1
    } else {
        2 * h
    };
    if s < 95 {
        s
    } else {
        95
    }
}

/// The colour of panel pixel (`sx`, `sy`) in a big-endian RGB565 frame;
/// black where the frame is too short to hold it.
pub open spec fn frame_colour(pixels: Seq<u8>, sx: int, sy: int) -> (u8, u8, u8) {
    let o = (sy * 160 + sx) * 2;
    if o + 1 >= pixels.len() {
        (0, 0, 0)
    } else {
        rgb565_colour((pixels[o] * 256 + pixels[o + 1]) as u16)
    }
}

/// Cell (`cx`, `cy`) of a `w` x `h` preview of `pixels`.
pub open spec fn cell_spec(pixels: Seq<u8>, w: int, h: int, cx: int, cy: int) -> Cell {
    (
        frame_colour(pixels, sample_x(cx, w), sample_y(2 * cy, h)),
        frame_colour(pixels, sample_x(cx, w), sample_y(2 * cy + 1, h)),
    )
}

fn sample(pixels: &[u8], x: usize, y: usize, w: usize, h: usize) -> (c: (u8, u8, u8))
    requires
        x < w,
        y < 2 * h,
        w * 160 + 80 <= usize::MAX,
        2 * h * 96 + 48 <= usize::MAX,
    ensures
        c == frame_colour(pixels@, sample_x(x as int, w as int), sample_y(y as int, h as int)),
{
    assert(x * 160 <= w * 160) by (nonlinear_arith)
        requires
            x < w,
    ;
    assert(y * 96 <= 2 * h * 96) by (nonlinear_arith)
        requires
            y < 2 * h,
    ;
    let dw: usize = if w < 1 {
        1
    } else {
        w
    };
    let dh: usize = if 2 * h < 1 {
        1
    } else {
        2 * h
    };
    let sx0 = (x * 160 + 80) / dw;
    let sy0 = (y * 96 + 48) / dh;
    let sx = if sx0 < 159 {
        sx0
    } else {
        159
    };
    let sy = if sy0 < 95 {
        sy0
    } else {
        95
    };
    let o = (sy * 160 + sx) * 2;
    if o + 1 >= pixels.len() {
        return (0, 0, 0);
    }
    let v: u16 = (pixels[o] as u16) * 256 + pixels[o + 1] as u16;
    rgb565_to_rgb(v)
}

/// Renders `pixels` -- one panel frame, RGB565 big-endian -- into `w` x `h`
/// cells by nearest-neighbour sampling, the same sampling that put the
/// picture on the panel, so a hard edge stays hard. A frame too short for a
/// pixel renders that pixel black.
pub fn render(pixels: &[u8], w: usize, h: usize) -> (p: Preview)
    requires
        w * 160 + 80 <= usize::MAX,
        2 * h * 96 + 48 <= usize::MAX,
    ensures
        p.rows@.len() == h,
        forall|cy: int| 0 <= cy < h ==> (#[trigger] p.rows@[cy])@.len() == w,
        forall|cy: int, cx: int|
            0 <= cy < h && 0 <= cx < w ==> (#[trigger] p.rows@[cy]@[cx]) == cell_spec(
                pixels@,
                w as int,
                h as int,
                cx,
                cy,
            ),
{
    let mut rows: Vec<Vec<Cell>> = Vec::new();
    let mut cy: usize = 0;
    while cy < h
        invariant
            cy <= h,
            w * 160 + 80 <= usize::MAX,
            2 * h * 96 + 48 <= usize::MAX,
            rows@.len() == cy,
            forall|j: int| 0 <= j < cy ==> (#[trigger] rows@[j])@.len() == w,
            forall|j: int, cx: int|
                0 <= j < cy && 0 <= cx < w ==> (#[trigger] rows@[j]@[cx]) == cell_spec(
                    pixels@,
                    w as int,
                    h as int,
                    cx,
                    j,
                ),
        decreases h - cy,
    {
        let mut row: Vec<Cell> = Vec::new();
        let mut cx: usize = 0;
        while cx < w
            invariant
                cx <= w,
                cy < h,
                w * 160 + 80 <= usize::MAX,
                2 * h * 96 + 48 <= usize::MAX,
                row@.len() == cx,
                forall|i: int|
                    0 <= i < cx ==> (#[trigger] row@[i]) == cell_spec(
                        pixels@,
                        w as int,
                        h as int,
                        i,
                        cy as int,
                    ),
            decreases w - cx,
        {
            let upper = sample(pixels, cx, cy * 2, w, h);
            let lower = sample(pixels, cx, cy * 2 + 1, w, h);
            row.push((upper, lower));
            cx = cx + 1;
        }
        rows.push(row);
        cy = cy + 1;
    }
    Preview { rows }
}

/// A preview that can be drawn: at least one row, every row as wide as the
/// first, and that width not zero. `render` gives one whenever it is asked
/// for at least one cell each way.
pub open spec fn is_grid(p: Preview) -> bool {
    &&& p.rows@.len() > 0
    &&& p.rows@[0]@.len() > 0
    &&& forall|i: int| 0 <= i < p.rows@.len() ==> (#[trigger] p.rows@[i])@.len() == p.rows@[0]@.len()
}

/// The source row (or column) that pane row `i` of `n` shows, out of `sn`:
/// `i * sn / n`, held inside the source.
pub open spec fn pane_source(i: int, n: int, sn: int) -> int {
    let s = i * sn / n;
    if s < sn - 1 {
        s
    } else {
        sn - 1
    }
}

/// Cell (`x`, `y`) of `p` drawn into a `w` x `h` pane.
pub open spec fn scaled_cell(p: Preview, w: int, h: int, x: int, y: int) -> Cell {
    p.rows@[pane_source(y, h, p.rows@.len() as int)]@[pane_source(x, w, p.rows@[0]@.len() as int)]
}

impl Preview {
    /// Whether this preview can be drawn (see `is_grid`).
    pub fn is_drawable(&self) -> (r: bool)
        ensures
            r == is_grid(*self),
    {
        if self.rows.len() == 0 || self.rows[0].len() == 0 {
            return false;
        }
        let width = self.rows[0].len();
        let mut i: usize = 1;
        while i < self.rows.len()
            invariant
                1 <= i <= self.rows@.len(),
                width == self.rows@[0]@.len(),
                forall|j: int| 0 <= j < i ==> (#[trigger] self.rows@[j])@.len() == width,
            decreases self.rows@.len() - i,
        {
            if self.rows[i].len() != width {
                return false;
            }
            i = i + 1;
        }
        true
    }

    /// The preview resampled, nearest cell, into a `w` x `h` pane: pane
    /// cell (`x`, `y`) shows stored cell (`x * width / w`, `y * height / h`).
    pub fn scaled(&self, w: usize, h: usize) -> (cells: Vec<Vec<Cell>>)
        requires
            is_grid(*self),
            w > 0,
            h > 0,
            w * self.rows@[0]@.len() <= usize::MAX,
            h * self.rows@.len() <= usize::MAX,
        ensures
            cells@.len() == h,
            forall|y: int| 0 <= y < h ==> (#[trigger] cells@[y])@.len() == w,
            forall|y: int, x: int|
                0 <= y < h && 0 <= x < w ==> (#[trigger] cells@[y]@[x]) == scaled_cell(
                    *self,
                    w as int,
                    h as int,
                    x,
                    y,
                ),
    {
        let sw = self.rows[0].len();
        let sh = self.rows.len();
        let mut cells: Vec<Vec<Cell>> = Vec::new();
        let mut y: usize = 0;
        while y < h
            invariant
                is_grid(*self),
                sw == self.rows@[0]@.len(),
                sh == self.rows@.len(),
                w > 0,
                h > 0,
                w * sw <= usize::MAX,
                h * sh <= usize::MAX,
                y <= h,
                cells@.len() == y,
                forall|j: int| 0 <= j < y ==> (#[trigger] cells@[j])@.len() == w,
                forall|j: int, x: int|
                    0 <= j < y && 0 <= x < w ==> (#[trigger] cells@[j]@[x]) == scaled_cell(
                        *self,
                        w as int,
                        h as int,
                        x,
                        j,
                    ),
            decreases h - y,
        {
            assert(y * sh <= h * sh) by (nonlinear_arith)
                requires
                    y < h,
            ;
            let sy0 = y * sh / h;
            let sy = if sy0 < sh - 1 {
                sy0
            } else {
                sh - 1
            };
            let row = &self.rows[sy];
            let mut out: Vec<Cell> = Vec::new();
            let mut x: usize = 0;
            while x < w
                invariant
                    is_grid(*self),
                    sw == self.rows@[0]@.len(),
                    sh == self.rows@.len(),
                    w > 0,
                    h > 0,
                    w * sw <= usize::MAX,
                    y < h,
                    sy == pane_source(y as int, h as int, sh as int),
                    0 <= sy < sh,
                    *row == self.rows@[sy as int],
                    x <= w,
                    out@.len() == x,
                    forall|i: int|
                        0 <= i < x ==> (#[trigger] out@[i]) == scaled_cell(
                            *self,
                            w as int,
                            h as int,
                            i,
                            y as int,
                        ),
                decreases w - x,
            {
                assert(x * sw <= w * sw) by (nonlinear_arith)
                    requires
                        x < w,
                ;
                let sx0 = x * sw / w;
                let sx = if sx0 < sw - 1 {
                    sx0
                } else {
                    sw - 1
                };
                assert(row@.len() == sw);
                out.push(row[sx]);
                x = x + 1;
            }
            cells.push(out);
            y = y + 1;
        }
        cells
    }
}

/// A preview colour encodes back to exactly the panel value it was expanded
/// from: widening loses nothing the panel stores.
pub proof fn lemma_preview_colour_encodes_back(v: u16)
    ensures
        rgb565_value(rgb565_colour(v).0, rgb565_colour(v).1, rgb565_colour(v).2, 255) == v,
{
    let r5 = v / 2048;
    let g6 = (v / 32) % 64;
    let b5 = v % 32;
    assert(v == r5 * 2048 + g6 * 32 + b5);
    assert(widen5(r5 as int) / 8 == r5);
    assert(widen6(g6 as int) / 4 == g6);
    assert(widen5(b5 as int) / 8 == b5);
}

/// A preview keeps the frame's orientation: going down the half-rows of a
/// preview never goes up the panel (the panel row sampled never decreases),
/// and likewise across the columns. At the interface's own size, 160 x 48
/// cells, nothing is resampled: cell (`x`, `y`) shows panel pixels (`x`,
/// `2y`) above (`x`, `2y + 1`).
pub proof fn lemma_preview_keeps_orientation(pixels: Seq<u8>, w: int, h: int, x: int, y: int)
    requires
        w >= 1,
        h >= 1,
        x >= 0,
        y >= 0,
    ensures
        sample_y(y, h) <= sample_y(y + 1, h),
        sample_x(x, w) <= sample_x(x + 1, w),
        0 <= sample_y(y, h) <= 95,
        0 <= sample_x(x, w) <= 159,
        x < 160 && y < 48 ==> cell_spec(pixels, 160, 48, x, y) == (
            frame_colour(pixels, x, 2 * y),
            frame_colour(pixels, x, 2 * y + 1),
        ),
{
    assert((y * 96 + 48) / (2 * h) <= ((y + 1) * 96 + 48) / (2 * h)) by (nonlinear_arith)
        requires
            h >= 1,
            y >= 0,
    ;
    assert((x * 160 + 80) / w <= ((x + 1) * 160 + 80) / w) by (nonlinear_arith)
        requires
            w >= 1,
            x >= 0,
    ;
    assert(0 <= (y * 96 + 48) / (2 * h)) by (nonlinear_arith)
        requires
            h >= 1,
            y >= 0,
    ;
    assert(0 <= (x * 160 + 80) / w) by (nonlinear_arith)
        requires
            w >= 1,
            x >= 0,
    ;
    if x < 160 && y < 48 {
        assert((x * 160 + 80) / 160 == x) by (nonlinear_arith)
            requires
                x >= 0,
        ;
        assert(((2 * y) * 96 + 48) / 96 == 2 * y) by (nonlinear_arith)
            requires
                y >= 0,
        ;
        assert(((2 * y + 1) * 96 + 48) / 96 == 2 * y + 1) by (nonlinear_arith)
            requires
                y >= 0,
        ;
        assert(sample_x(x, 160) == x);
        assert(sample_y(2 * y, 48) == 2 * y);
        assert(sample_y(2 * y + 1, 48) == 2 * y + 1);
    }
}

} // verus!

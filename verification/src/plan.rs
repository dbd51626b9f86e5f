//! Deciding what to upload, with nothing attached to a device or a terminal.
//!
//! The deciding half of each command lives here and returns its
//! explanations as data (`Note`), so a command-line front end prints them and
//! an interactive one shows them in a pane, and neither can drift from the
//! other. Decoding a file is the caller's: this module starts from RGBA
//! pixels.

use crate::protocol::{rgb565_spec, GIF_FPS_DEFAULT, GIF_FPS_MAX, GIF_FPS_MIN, GIF_MAX_FRAMES, GIF_SLOW_DELAY_EVERY};
use crate::text::{decimal, push_decimal};
use vstd::prelude::*;

verus! {

// --- Failures while reading a file ---

/// Which command was reading the file, so a failure names the right one and
/// lists the formats that command actually accepts.
#[derive(Debug, Clone, Copy, PartialEq, Eq, Structural)]
pub enum MediaKind {
    Picture,
    Gif,
}

/// How the file was being used, for "could not use X as ...".
pub open spec fn media_subject(kind: MediaKind) -> Seq<char> {
    match kind {
        MediaKind::Picture => "a picture"@,
        MediaKind::Gif => "an animation"@,
    }
}

/// The formats the command accepts.
pub open spec fn media_supported(kind: MediaKind) -> Seq<char> {
    match kind {
        MediaKind::Picture => "PNG and JPEG"@,
        MediaKind::Gif => "GIF"@,
    }
}

impl MediaKind {
    fn subject(self) -> (s: &'static str)
        ensures
            s@ == media_subject(self),
    {
        proof {
            reveal_strlit("a picture");
            reveal_strlit("an animation");
        }
        match self {
            MediaKind::Picture => "a picture",
            MediaKind::Gif => "an animation",
        }
    }

    fn supported(self) -> (s: &'static str)
        ensures
            s@ == media_supported(self),
    {
        proof {
            reveal_strlit("PNG and JPEG");
            reveal_strlit("GIF");
        }
        match self {
            MediaKind::Picture => "PNG and JPEG",
            MediaKind::Gif => "GIF",
        }
    }
}

/// A `set-picture` or `set-gif` failure that happened while reading or
/// converting the file, i.e. before any HID device was opened.
#[derive(Debug, Clone)]
pub struct MediaError {
    pub kind: MediaKind,
    pub path: String,
    pub detail: String,
}

/// The text a `MediaError` is reported with.
pub open spec fn media_error_text(kind: MediaKind, path: Seq<char>, detail: Seq<char>) -> Seq<char> {
    "could not use "@ + path + " as "@ + media_subject(kind) + ": "@ + detail
        + "\n(supported formats: "@ + media_supported(kind)
        + ". The keyboard was not contacted.)"@
}

impl MediaError {
    /// The text this failure is reported with: the file, what it was being
    /// used as, why it failed, the formats the command accepts, and that the
    /// keyboard was never touched.
    pub fn message(&self) -> (m: String)
        ensures
            m@ == media_error_text(self.kind, self.path@, self.detail@),
    {
        let mut m = String::from_str("could not use ");
        m.append(self.path.as_str());
        m.append(" as ");
        m.append(self.kind.subject());
        m.append(": ");
        m.append(self.detail.as_str());
        m.append("\n(supported formats: ");
        m.append(self.kind.supported());
        m.append(". The keyboard was not contacted.)");
        m
    }
}


// --- Placement ---

/// How a source image is fit into the panel's fixed 160x96.
#[derive(Debug, Clone, Copy, PartialEq, Eq, Structural)]
pub enum Placement {
    /// Scale to fit inside the panel, preserving aspect ratio, centred,
    /// padded with opaque black. The default.
    Contain,
    /// Stretch to exactly fill the panel; aspect ratio is not preserved.
    Fill,
}

impl Default for Placement {
    fn default() -> (p: Self)
        ensures
            p == Placement::Contain,
    {
        Placement::Contain
    }
}

impl Placement {
    /// The placement's name, as the command line spells it.
    pub fn name(self) -> (s: &'static str)
        ensures
            s@ == match self {
                Placement::Contain => "contain"@,
                Placement::Fill => "fill"@,
            },
    {
        proof {
            reveal_strlit("contain");
            reveal_strlit("fill");
        }
        match self {
            Placement::Contain => "contain",
            Placement::Fill => "fill",
        }
    }
}

/// JavaScript's `Math.round` of `p / q` for `p >= 0`, `q > 0`:
/// `floor(p / q + 1/2)`, so halves go up.
pub open spec fn js_round_ratio(p: int, q: int) -> int {
    (2 * p + q) / (2 * q)
}

/// `Contain`'s geometry `(dst_x, dst_y, dst_w, dst_h)` for a `w` x `h`
/// source: scale by `min(160 / w, 96 / h)` (a zero side imposes no limit),
/// then round each of the four numbers on its own, from the unrounded
/// values, halves up (`Math.round`'s rule). The values rounded are the exact
/// ratios; a computation in 64-bit floating point, as JavaScript does it,
/// rounds a few sizes differently where the float lands on the other side
/// of a half (55 x 704 gives a width of 8 here, 7 in floating point; 629 x
/// 544 an x offset of 25 here, 24 there).
pub open spec fn contain_geometry_spec(w: int, h: int) -> (int, int, int, int) {
    if w == 0 && h == 0 {
        (0, 0, 0, 0)
    } else if h == 0 || (w != 0 && 160 * h <= 96 * w) {
        // Width-limited: scale = 160 / w.
        (0, js_round_ratio(96 * w - 160 * h, 2 * w), 160, js_round_ratio(160 * h, w))
    } else {
        // Height-limited: scale = 96 / h.
        (js_round_ratio(160 * h - 96 * w, 2 * h), 0, js_round_ratio(96 * w, h), 96)
    }
}

/// `Contain`'s geometry alone, as `(dst_x, dst_y, dst_w, dst_h)`: where the
/// scaled source lands on the panel and how big it is.
pub fn contain_geometry(src_w: u32, src_h: u32) -> (g: (u32, u32, u32, u32))
    ensures
        (g.0 as int, g.1 as int, g.2 as int, g.3 as int) == contain_geometry_spec(
            src_w as int,
            src_h as int,
        ),
        g.0 + g.2 <= 160 + 1,
        g.1 + g.3 <= 96 + 1,
{
    let w = src_w as u64;
    let h = src_h as u64;
    if w == 0 && h == 0 {
        (0, 0, 0, 0)
    } else if h == 0 || (w != 0 && 160 * h <= 96 * w) {
        let dst_h = (2 * (160 * h) + w) / (2 * w);
        let dst_y = (2 * (96 * w - 160 * h) + 2 * w) / (4 * w);
        assert(dst_h <= 96 + 1) by (nonlinear_arith)
            requires
                w > 0,
                160 * h <= 96 * w,
                dst_h == (2 * (160 * h) + w) / (2 * w),
        ;
        assert(dst_y + dst_h <= 96 + 1) by (nonlinear_arith)
            requires
                w > 0,
                160 * h <= 96 * w,
                dst_h == (2 * (160 * h) + w) / (2 * w),
                dst_y == (2 * (96 * w - 160 * h) + 2 * w) / (4 * w),
        ;
        (0, dst_y as u32, 160, dst_h as u32)
    } else {
        let dst_w = (2 * (96 * w) + h) / (2 * h);
        let dst_x = (2 * (160 * h - 96 * w) + 2 * h) / (4 * h);
        assert(dst_w <= 160 + 1) by (nonlinear_arith)
            requires
                h > 0,
                96 * w < 160 * h,
                dst_w == (2 * (96 * w) + h) / (2 * h),
        ;
        assert(dst_x + dst_w <= 160 + 1) by (nonlinear_arith)
            requires
                h > 0,
                96 * w < 160 * h,
                dst_w == (2 * (96 * w) + h) / (2 * h),
                dst_x == (2 * (160 * h - 96 * w) + 2 * h) / (4 * h),
        ;
        (dst_x as u32, 0, dst_w as u32, 96)
    }
}


// --- Which frames ---

/// The phrase a "too many frames" error is built from, public so a caller
/// can recognise the case without matching on prose it does not own.
pub const TOO_MANY_FRAMES: &'static str = "more frames than the keyboard can store";

/// Index `i` of an even sample of `m` frames out of `n`: `i * (n - 1) /
/// (m - 1)`, rounded half up, so both ends are included.
pub open spec fn sample_index(i: int, n: int, m: int) -> int {
    (2 * i * (n - 1) + (m - 1)) / (2 * (m - 1))
}

/// What `select_frame_indices` keeps: everything when it fits, else `m`
/// evenly spread indices (just the first when `m` is 1).
pub open spec fn kept_indices(n: int, m: int) -> Seq<int> {
    if n <= m {
        Seq::new(n as nat, |i: int| i)
    } else if m == 1 {
        seq![0]
    } else {
        Seq::new(m as nat, |i: int| sample_index(i, n, m))
    }
}

/// The refusal when a GIF is longer than the device stores and no limit was
/// given.
pub open spec fn too_many_frames_text(n: nat) -> Seq<char> {
    "it has "@ + decimal(n) + " frames, "@ + TOO_MANY_FRAMES@ + " (160). Re-run with --max-frames 160 to upload a uniformly sampled subset, or shorten the GIF first."@
}

/// The refusal when the limit itself is above what the device stores.
pub open spec fn limit_too_high_text(m: nat) -> Seq<char> {
    "--max-frames "@ + decimal(m) + " is above the 160 the keyboard can store"@
}

/// The refusal of a GIF of `n` frames, more than the device stores, when no
/// limit was given.
pub fn too_many_frames(n: usize) -> (e: String)
    ensures
        e@ == too_many_frames_text(n as nat),
{
    let mut e = String::from_str("it has ");
    push_decimal(&mut e, n as u64);
    e.append(" frames, ");
    e.append(TOO_MANY_FRAMES);
    e.append(
        " (160). Re-run with --max-frames 160 to upload a uniformly sampled subset, or shorten the GIF first.",
    );
    proof {
        reveal_strlit("it has ");
        reveal_strlit(" frames, ");
        reveal_strlit(" (160). Re-run with --max-frames 160 to upload a uniformly sampled subset, or shorten the GIF first.");
    }
    e
}

proof fn lemma_div_shift(x: int, c: int, d: int)
    requires
        d > 0,
        c >= 0,
    ensures
        (d * x + c) / d == x + c / d,
{
    vstd::arithmetic::div_mod::lemma_fundamental_div_mod(c, d);
    let k = c / d;
    let r = c % d;
    assert(d * x + c == d * (x + k) + r) by (nonlinear_arith)
        requires
            c == d * k + r,
    ;
    vstd::arithmetic::div_mod::lemma_div_multiples_vanish_fancy(x + k, r, d);
}

proof fn lemma_sample_ends(n: int, m: int)
    requires
        2 <= m < n,
    ensures
        sample_index(0, n, m) == 0,
        sample_index(m - 1, n, m) == n - 1,
{
    assert((2 * 0 * (n - 1) + (m - 1)) / (2 * (m - 1)) == 0) by (nonlinear_arith)
        requires
            m >= 2,
    ;
    assert((2 * (m - 1) * (n - 1) + (m - 1)) / (2 * (m - 1)) == n - 1) by (nonlinear_arith)
        requires
            m >= 2,
    ;
}

proof fn lemma_sample_step(i: int, n: int, m: int)
    requires
        2 <= m < n,
        0 <= i,
    ensures
        sample_index(i, n, m) + 1 <= sample_index(i + 1, n, m),
{
    let a = 2 * i * (n - 1) + (m - 1);
    let b = 2 * (m - 1);
    assert(2 * (i + 1) * (n - 1) + (m - 1) == a + 2 * (n - 1)) by (nonlinear_arith)
        requires
            a == 2 * i * (n - 1) + (m - 1),
    ;
    assert((a + b) / b == a / b + 1) by (nonlinear_arith)
        requires
            b > 0,
    ;
    assert((a + b) / b <= (a + 2 * (n - 1)) / b) by (nonlinear_arith)
        requires
            b > 0,
            b <= 2 * (n - 1),
    ;
}

proof fn lemma_sample_increasing(n: int, m: int)
    requires
        2 <= m < n,
    ensures
        forall|i: int, j: int| 0 <= i < j < m ==> sample_index(i, n, m) < sample_index(j, n, m),
{
    assert forall|i: int, j: int| 0 <= i < j < m implies sample_index(i, n, m) < sample_index(
        j,
        n,
        m,
    ) by {
        lemma_sample_chain(i, j, n, m);
    }
}

proof fn lemma_sample_chain(i: int, j: int, n: int, m: int)
    requires
        2 <= m < n,
        0 <= i < j,
    ensures
        sample_index(i, n, m) + (j - i) <= sample_index(j, n, m),
    decreases j - i,
{
    lemma_sample_step(j - 1, n, m);
    if j - 1 > i {
        lemma_sample_chain(i, j - 1, n, m);
    }
}

/// Which source frames to upload.
///
/// With no limit, a GIF longer than the device's 160 frames is an error
/// rather than a silent truncation. With a limit `m`, frames are dropped
/// uniformly across the whole animation, so it still reads as the same
/// motion, just coarser: the kept indices start at the first frame, end at
/// the last (unless only one is kept), and strictly increase.
pub fn select_frame_indices(n: usize, max_frames: Option<usize>) -> (r: Result<Vec<usize>, String>)
    requires
        max_frames != Some(0usize),
    ensures
        match max_frames {
            None => if n > GIF_MAX_FRAMES {
                r matches Err(e) && e@ == too_many_frames_text(n as nat)
            } else {
                r matches Ok(v) && v@.map_values(|x: usize| x as int) == kept_indices(
                    n as int,
                    n as int,
                )
            },
            Some(m) => if m > GIF_MAX_FRAMES {
                r matches Err(e) && e@ == limit_too_high_text(m as nat)
            } else {
                r matches Ok(v) && v@.map_values(|x: usize| x as int) == kept_indices(
                    n as int,
                    m as int,
                )
            },
        },
        r matches Ok(v) ==> {
            &&& v@.len() == match max_frames {
                Some(m) => if m < n {
                    m as int
                } else {
                    n as int
                },
                None => n as int,
            }
            &&& forall|i: int, j: int| 0 <= i < j < v@.len() ==> v@[i] < v@[j]
            &&& forall|i: int| 0 <= i < v@.len() ==> v@[i] < n
            &&& n > 0 ==> v@[0] == 0
            &&& (v@.len() >= 2 || n == 1) ==> v@[v@.len() - 1] == n - 1
        },
{
    let limit: usize = match max_frames {
        None => {
            if n > GIF_MAX_FRAMES {
                return Err(too_many_frames(n));
            }
            n
        },
        Some(m) => m,
    };
    if limit > GIF_MAX_FRAMES {
        let mut e = String::from_str("--max-frames ");
        push_decimal(&mut e, limit as u64);
        e.append(" is above the 160 the keyboard can store");
        return Err(e);
    }
    let mut v: Vec<usize> = Vec::new();
    if n <= limit {
        let mut i: usize = 0;
        while i < n
            invariant
                i <= n,
                v@.len() == i,
                forall|j: int| 0 <= j < i ==> v@[j] == j,
            decreases n - i,
        {
            v.push(i);
            i = i + 1;
        }
        assert(v@.map_values(|x: usize| x as int) =~= kept_indices(n as int, limit as int));
        assert(forall|a: int, b: int| 0 <= a < b < v@.len() ==> v@[a] < v@[b]);
        assert(v@.len() == n);
        assert(n > 0 ==> v@[0] == 0 && v@[v@.len() - 1] == n - 1);
        assert(forall|a: int| 0 <= a < v@.len() ==> v@[a] < n);
        return Ok(v);
    }
    if limit == 1 {
        v.push(0);
        assert(v@.map_values(|x: usize| x as int) =~= kept_indices(n as int, limit as int));
        return Ok(v);
    }
    proof {
        lemma_sample_ends(n as int, limit as int);
        lemma_sample_increasing(n as int, limit as int);
    }
    let mut i: usize = 0;
    while i < limit
        invariant
            2 <= limit <= 160,
            limit < n,
            i <= limit,
            v@.len() == i,
            forall|j: int| 0 <= j < i ==> v@[j] == sample_index(j, n as int, limit as int),
            forall|a: int, b: int|
                0 <= a < b < limit ==> sample_index(a, n as int, limit as int) < sample_index(
                    b,
                    n as int,
                    limit as int,
                ),
            sample_index(limit - 1, n as int, limit as int) == n - 1,
        decreases limit - i,
    {
        // i * (n - 1) / (limit - 1), rounded half up, computed without
        // overflow: the quotient and remainder of n - 1 by limit - 1 first.
        let q = (n - 1) / (limit - 1);
        let rem = (n - 1) % (limit - 1);
        let d = limit - 1;
        assert(i * q <= n - 1 && rem < d) by (nonlinear_arith)
            requires
                d > 0,
                i <= d,
                q == (n - 1) as int / d as int,
                rem == (n - 1) as int % d as int,
        ;
        assert(2 * i * rem + d <= 2 * 160 * 160 + 160) by (nonlinear_arith)
            requires
                i < 160,
                rem < d,
                d < 160,
        ;
        proof {
            vstd::arithmetic::div_mod::lemma_fundamental_div_mod((n - 1) as int, d as int);
            let big = 2 * d as int;
            let c = 2 * i * rem + d;
            assert(2 * i * (n - 1) + (limit - 1) == big * (i * q) + c) by (nonlinear_arith)
                requires
                    n - 1 == d * q + rem,
                    d == limit - 1,
                    big == 2 * d,
                    c == 2 * i * rem + d,
            ;
            lemma_div_shift(i * q, c, big);
        }
        proof {
            if i < limit - 1 {
                assert(sample_index(i as int, n as int, limit as int) < sample_index(
                    limit - 1,
                    n as int,
                    limit as int,
                ));
            }
        }
        let x = i * q + (2 * i * rem + d) / (2 * d);
        v.push(x);
        i = i + 1;
    }
    assert(v@.map_values(|x: usize| x as int) =~= kept_indices(n as int, limit as int));
    Ok(v)
}



// --- Pixels ---

/// What `image::imageops::resize` with the nearest-neighbour filter makes
/// of a `width` x `height` RGBA8 buffer scaled to `nwidth` x `nheight`, as
/// raw RGBA8 bytes. That filter uses only arithmetic, so the same input
/// gives the same output.
pub uninterp spec fn resized_nearest(
    width: u32,
    height: u32,
    rgba: Seq<u8>,
    nwidth: u32,
    nheight: u32,
) -> Seq<u8>;

/// What holds of every resize of a `width` x `height` RGBA8 buffer `rgba` to
/// `nwidth` x `nheight`, whatever the filter: the result holds
/// `nwidth * nheight` pixels, a resize to the source's own size copies it,
/// and an empty source gives an all-zero buffer.
pub open spec fn resize_outcome(
    width: u32,
    height: u32,
    rgba: Seq<u8>,
    nwidth: u32,
    nheight: u32,
    out: Seq<u8>,
) -> bool {
    &&& out.len() == nwidth * nheight * 4
    &&& (width != 0 && height != 0 && nwidth == width && nheight == height ==> out == rgba)
    &&& ((width == 0 || height == 0) ==> out == Seq::new(out.len(), |i: int| 0u8))
}

/// Calls `image::imageops::resize` with `FilterType::Nearest` on the buffer
/// read as an `RgbaImage`. Claims: the result is named by `resized_nearest`;
/// and, from `imageops::resize` and `ImageBuffer::new` in the crate's source,
/// `resize_outcome` holds of it.
#[verifier::external_body]
fn resize_nearest(width: u32, height: u32, rgba: &[u8], nwidth: u32, nheight: u32) -> (out: Vec<u8>)
    requires
        rgba@.len() == width * height * 4,
        nwidth * nheight * 4 <= usize::MAX,
    ensures
        out@ == resized_nearest(width, height, rgba@, nwidth, nheight),
        resize_outcome(width, height, rgba@, nwidth, nheight, out@),
{
    let img = image::RgbaImage::from_raw(width, height, rgba.to_vec()).unwrap();
    image::imageops::resize(&img, nwidth, nheight, image::imageops::FilterType::Nearest).into_raw()
}

/// Calls `image::imageops::resize` with `FilterType::Lanczos3` on the
/// buffer read as an `RgbaImage`. The pixels it computes are not named: the
/// filter's kernel goes through `f32::sin`, whose precision std leaves
/// unspecified, so two runs need not agree. Claims only `resize_outcome`,
/// which `imageops::resize` and `ImageBuffer::new` show for every filter.
#[verifier::external_body]
fn resize_lanczos(width: u32, height: u32, rgba: &[u8], nwidth: u32, nheight: u32) -> (out: Vec<u8>)
    requires
        rgba@.len() == width * height * 4,
        nwidth * nheight * 4 <= usize::MAX,
    ensures
        resize_outcome(width, height, rgba@, nwidth, nheight, out@),
{
    let img = image::RgbaImage::from_raw(width, height, rgba.to_vec()).unwrap();
    image::imageops::resize(&img, nwidth, nheight, image::imageops::FilterType::Lanczos3).into_raw()
}

/// An RGBA buffer with every fully transparent pixel's colour turned black
/// (its alpha stays 0); every other pixel unchanged.
pub open spec fn blackened(rgba: Seq<u8>) -> Seq<u8> {
    Seq::new(
        rgba.len(),
        |i: int|
            if i % 4 != 3 && rgba[i - i % 4 + 3] == 0 {
                0u8
            } else {
                rgba[i]
            },
    )
}

/// Blackens the colour of every fully transparent pixel before a spatial
/// resize, so hidden colour cannot leak into a resized neighbour under
/// Lanczos (which treats the four channels independently). Partial alpha is
/// left alone.
pub fn blacken_transparent(rgba: &mut Vec<u8>)
    requires
        old(rgba)@.len() % 4 == 0,
    ensures
        final(rgba)@ == blackened(old(rgba)@),
{
    let ghost start = rgba@;
    let n = rgba.len() / 4;
    assert(4 * n == start.len()) by (nonlinear_arith)
        requires
            n == start.len() / 4,
            start.len() % 4 == 0,
    ;
    let mut k: usize = 0;
    while k < n
        invariant
            n == start.len() / 4,
            4 * n == start.len(),
            4 * n <= usize::MAX,
            start.len() % 4 == 0,
            rgba@.len() == start.len(),
            k <= n,
            forall|i: int| 0 <= i < 4 * k ==> #[trigger] rgba@[i] == blackened(start)[i],
            forall|i: int| 4 * k <= i < start.len() ==> #[trigger] rgba@[i] == start[i],
        decreases n - k,
    {
        let o = 4 * k;
        if rgba[o + 3] == 0 {
            rgba.set(o, 0);
            rgba.set(o + 1, 0);
            rgba.set(o + 2, 0);
        }
        proof {
            assert forall|i: int| o <= i < o + 4 implies #[trigger] rgba@[i] == blackened(start)[i]
                by {
                assert(i - i % 4 == o) by (nonlinear_arith)
                    requires
                        o <= i < o + 4,
                        o == 4 * k,
                ;
            }
        }
        k = k + 1;
    }
    assert(rgba@ =~= blackened(start));
}

/// An RGBA buffer composited onto opaque black: each colour channel scaled
/// by its alpha (`c * a / 255`, rounded down), every alpha 255.
pub open spec fn flattened(rgba: Seq<u8>) -> Seq<u8> {
    Seq::new(
        rgba.len(),
        |i: int|
            if i % 4 == 3 {
                255u8
            } else {
                (rgba[i] * rgba[i - i % 4 + 3] / 255) as u8
            },
    )
}

/// Composites an RGBA frame onto opaque black.
///
/// The GIF path fills its canvas black before drawing, so partial alpha
/// blends toward black. GIF transparency is a single transparent index, so
/// alpha is 0 or 255 and this is a no-op on opaque pixels -- doing it
/// properly is what makes that a fact about the input.
pub fn flatten_onto_black(rgba: &mut Vec<u8>)
    requires
        old(rgba)@.len() % 4 == 0,
    ensures
        final(rgba)@ == flattened(old(rgba)@),
{
    let ghost start = rgba@;
    let n = rgba.len() / 4;
    assert(4 * n == start.len()) by (nonlinear_arith)
        requires
            n == start.len() / 4,
            start.len() % 4 == 0,
    ;
    let mut k: usize = 0;
    while k < n
        invariant
            n == start.len() / 4,
            4 * n == start.len(),
            4 * n <= usize::MAX,
            start.len() % 4 == 0,
            rgba@.len() == start.len(),
            k <= n,
            forall|i: int| 0 <= i < 4 * k ==> #[trigger] rgba@[i] == flattened(start)[i],
            forall|i: int| 4 * k <= i < start.len() ==> #[trigger] rgba@[i] == start[i],
        decreases n - k,
    {
        let o = 4 * k;
        let a = rgba[o + 3] as u32;
        let r = rgba[o] as u32;
        let g = rgba[o + 1] as u32;
        let b = rgba[o + 2] as u32;
        assert(r * a <= 255 * 255 && g * a <= 255 * 255 && b * a <= 255 * 255) by (nonlinear_arith)
            requires
                r <= 255,
                g <= 255,
                b <= 255,
                a <= 255,
        ;
        assert(r * a / 255 <= 255 && g * a / 255 <= 255 && b * a / 255 <= 255) by (nonlinear_arith)
            requires
                r * a <= 255 * 255,
                g * a <= 255 * 255,
                b * a <= 255 * 255,
        ;
        rgba.set(o, (r * a / 255) as u8);
        rgba.set(o + 1, (g * a / 255) as u8);
        rgba.set(o + 2, (b * a / 255) as u8);
        rgba.set(o + 3, 255);
        proof {
            assert forall|i: int| o <= i < o + 4 implies #[trigger] rgba@[i] == flattened(start)[i]
                by {
                assert(i - i % 4 == o && (i % 4 == 3 <==> i == o + 3)) by (nonlinear_arith)
                    requires
                        o <= i < o + 4,
                        o == 4 * k,
                ;
            }
        }
        k = k + 1;
    }
    assert(rgba@ =~= flattened(start));
}

/// Panel pixel (`x`, `y`) under `Contain`: inside the placed rectangle it is
/// the resized source's pixel, outside it opaque black.
pub open spec fn contained_pixel(
    resized: Seq<u8>,
    g: (int, int, int, int),
    x: int,
    y: int,
    c: int,
) -> u8 {
    let (dx, dy, dw, dh) = g;
    if dx <= x < dx + dw && dy <= y < dy + dh {
        resized[((y - dy) * dw + (x - dx)) * 4 + c]
    } else if c == 3 {
        255u8
    } else {
        0u8
    }
}

/// The panel `Contain` makes from geometry `g` and the source resized to
/// `g`'s rectangle: that rectangle filled with it, the rest opaque black. A
/// rectangle with a zero side leaves the panel all black.
pub open spec fn contain_placed(g: (int, int, int, int), resized: Seq<u8>) -> Seq<u8> {
    Seq::new(
        160 * 96 * 4,
        |i: int|
            if g.2 > 0 && g.3 > 0 {
                contained_pixel(resized, g, (i / 4) % 160, (i / 4) / 160, i % 4)
            } else if i % 4 == 3 {
                255u8
            } else {
                0u8
            },
    )
}

/// Places `resized` -- the source already scaled to the rectangle of
/// geometry `(dst_x, dst_y, dst_w, dst_h)` -- on an opaque black panel.
pub fn place_contained(dst_x: u32, dst_y: u32, dst_w: u32, dst_h: u32, resized: &[u8]) -> (panel: Vec<u8>)
    requires
        dst_x + dst_w <= 161,
        dst_y + dst_h <= 97,
        resized@.len() == dst_w * dst_h * 4,
    ensures
        panel@ == contain_placed((dst_x as int, dst_y as int, dst_w as int, dst_h as int), resized@),
{
    let ghost g = (dst_x as int, dst_y as int, dst_w as int, dst_h as int);
    let ghost want = contain_placed(g, resized@);
    let mut panel: Vec<u8> = Vec::new();
    let mut i: usize = 0;
    while i < 160 * 96 * 4
        invariant
            i <= 160 * 96 * 4,
            panel@.len() == i,
            g == (dst_x as int, dst_y as int, dst_w as int, dst_h as int),
            dst_x + dst_w <= 161,
            dst_y + dst_h <= 97,
            resized@.len() == dst_w * dst_h * 4,
            want == contain_placed(g, resized@),
            forall|j: int| 0 <= j < i ==> #[trigger] panel@[j] == want[j],
        decreases 160 * 96 * 4 - i,
    {
        let c = i % 4;
        let x = (i / 4) % 160;
        let y = (i / 4) / 160;
        let v: u8 = if dst_w > 0 && dst_h > 0 && dst_x as usize <= x && x < (dst_x + dst_w) as usize
            && dst_y as usize <= y && y < (dst_y + dst_h) as usize {
            assert((y - dst_y) * dst_w <= 97 * 161) by (nonlinear_arith)
                requires
                    y - dst_y < 97,
                    dst_w <= 161,
            ;
            let k = ((y - dst_y as usize) * dst_w as usize + (x - dst_x as usize)) * 4 + c;
            assert(k < resized@.len()) by (nonlinear_arith)
                requires
                    k == ((y - dst_y) * dst_w + (x - dst_x)) * 4 + c,
                    c < 4,
                    dst_x <= x < dst_x + dst_w,
                    dst_y <= y < dst_y + dst_h,
                    resized@.len() == dst_w * dst_h * 4,
            ;
            resized[k]
        } else if c == 3 {
            255
        } else {
            0
        };
        assert(want.len() == 160 * 96 * 4);
        assert(v == want[i as int]);
        panel.push(v);
        i = i + 1;
    }
    assert(panel@ =~= want);
    panel
}

/// `panel` is what a placement can make of a `w` x `h` source: `Fill`
/// stretches it with the nearest-neighbour filter; `Contain` blackens hidden
/// colour, scales it with Lanczos into `contain_geometry`'s rectangle -- a
/// resize of which only `resize_outcome` is known -- and places it there.
pub open spec fn is_placed_panel(panel: Seq<u8>, w: u32, h: u32, rgba: Seq<u8>, placement: Placement) -> bool {
    match placement {
        Placement::Fill => panel == resized_nearest(w, h, rgba, 160, 96),
        Placement::Contain => {
            let g = contain_geometry_spec(w as int, h as int);
            exists|r: Seq<u8>|
                resize_outcome(w, h, blackened(rgba), g.2 as u32, g.3 as u32, r) && panel
                    == #[trigger] contain_placed(g, r)
        },
    }
}

/// Fits a `w` x `h` RGBA source into the panel per `placement`, returning
/// panel-sized RGBA (160 * 96 * 4 bytes).
///
/// `Fill` stretches with nearest-neighbour sampling. `Contain` blackens
/// hidden colour, scales with Lanczos into `contain_geometry`'s rectangle and
/// pads the rest with opaque black; a degenerate source whose rectangle
/// rounds to zero on one side gives an all-black panel rather than a panic.
/// A source of exactly the panel's size is copied as it is (blackened, under
/// `Contain`).
pub fn resize_to_panel(w: u32, h: u32, rgba: &[u8], placement: Placement) -> (panel: Vec<u8>)
    requires
        rgba@.len() == w * h * 4,
    ensures
        is_placed_panel(panel@, w, h, rgba@, placement),
        panel@.len() == 160 * 96 * 4,
        w == 160 && h == 96 ==> panel@ == match placement {
            Placement::Fill => rgba@,
            Placement::Contain => blackened(rgba@),
        },
{
    match placement {
        Placement::Fill => resize_nearest(w, h, rgba, 160, 96),
        Placement::Contain => {
            let mut src: Vec<u8> = vstd::slice::slice_to_vec(rgba);
            assert(src@.len() % 4 == 0) by (nonlinear_arith)
                requires
                    src@.len() == w * h * 4,
            ;
            blacken_transparent(&mut src);
            let (dst_x, dst_y, dst_w, dst_h) = contain_geometry(w, h);
            let ghost g = contain_geometry_spec(w as int, h as int);
            assert(dst_w * dst_h * 4 <= 161 * 97 * 4) by (nonlinear_arith)
                requires
                    dst_w <= 161,
                    dst_h <= 97,
            ;
            let resized: Vec<u8> = if dst_w > 0 && dst_h > 0 {
                resize_lanczos(w, h, src.as_slice(), dst_w, dst_h)
            } else {
                let mut z: Vec<u8> = Vec::new();
                proof {
                    assert(dst_w * dst_h == 0) by (nonlinear_arith)
                        requires
                            dst_w == 0 || dst_h == 0,
                    ;
                    assert(z@ =~= Seq::new(0, |i: int| 0u8));
                }
                z
            };
            let panel = place_contained(dst_x, dst_y, dst_w, dst_h, resized.as_slice());
            proof {
                assert(resize_outcome(w, h, blackened(rgba@), g.2 as u32, g.3 as u32, resized@));
                assert(panel@ == contain_placed(g, resized@));
                if w == 160 && h == 96 {
                    assert(320int / 640int == 0) by (nonlinear_arith);
                    assert(30880int / 320int == 96) by (nonlinear_arith);
                    assert(js_round_ratio(0int, 320int) == 0);
                    assert(js_round_ratio(15360int, 160int) == 96);
                    assert(g == (0int, 0int, 160int, 96int));
                    assert(resized@ == blackened(rgba@));
                    assert forall|j: int| 0 <= j < 160 * 96 * 4 implies #[trigger] panel@[j]
                        == blackened(rgba@)[j] by {
                        let x = (j / 4) % 160;
                        let y = (j / 4) / 160;
                        let c = j % 4;
                        assert((y * 160 + x) * 4 + c == j) by (nonlinear_arith)
                            requires
                                x == (j / 4) % 160,
                                y == (j / 4) / 160,
                                c == j % 4,
                                0 <= j,
                        ;
                        assert(0 <= x < 160 && 0 <= y < 96) by (nonlinear_arith)
                            requires
                                x == (j / 4) % 160,
                                y == (j / 4) / 160,
                                0 <= j < 160 * 96 * 4,
                        ;
                    }
                    assert(panel@ =~= blackened(rgba@));
                }
            }
            panel
        },
    }
}

/// Blackening hidden colour changes nothing the panel shows: RGB565
/// encoding already sends every fully transparent pixel as black, so
/// `Contain`'s blackening and `Fill`'s plain copy encode alike.
pub proof fn lemma_blackening_is_invisible_on_the_panel(rgba: Seq<u8>)
    ensures
        rgb565_spec(blackened(rgba)) == rgb565_spec(rgba),
{
    let b = blackened(rgba);
    assert forall|i: int| 0 <= i < 2 * (rgba.len() / 4) implies #[trigger] rgb565_spec(b)[i]
        == rgb565_spec(rgba)[i] by {
        let k = i / 2;
        assert(0 <= k && 4 * k + 3 < rgba.len()) by (nonlinear_arith)
            requires
                0 <= i < 2 * (rgba.len() / 4),
                k == i / 2,
        ;
        assert((4 * k) % 4 == 0 && (4 * k + 1) % 4 == 1 && (4 * k + 2) % 4 == 2 && (4 * k + 3) % 4
            == 3);
        assert(b[4 * k + 3] == rgba[4 * k + 3]);
        if rgba[4 * k + 3] != 0 {
            assert(b[4 * k] == rgba[4 * k]);
            assert(b[4 * k + 1] == rgba[4 * k + 1]);
            assert(b[4 * k + 2] == rgba[4 * k + 2]);
        }
    }
    assert(rgb565_spec(b) =~= rgb565_spec(rgba));
}

// --- Frame rate ---

/// The frame rate a GIF asks for, read from its frame delays, and whether
/// the device can give it. Each case carries the numbers its message needs.
#[derive(Debug, Clone, Copy, PartialEq, Eq, Structural)]
pub enum SourceRate {
    /// Uniform delays the device can store, as whole frames per second.
    Usable(u8),
    /// Uniform delays of `delay_ms` that ask for a rate outside 1-60 fps
    /// (the rate wanted is `1000 / delay_ms`).
    OutOfRange { delay_ms: u32 },
    /// Delays differ between frames; their mean is `total_delay_ms / frames`.
    Variable { total_delay_ms: u64, frames: usize },
    /// Every delay is zero: "as fast as the viewer can manage", not a rate.
    Unspecified,
}

/// The whole frames per second a uniform delay of `d` ms plays at:
/// `1000 / d` rounded half up.
pub open spec fn rate_of_delay(d: int) -> int {
    (2000 + d) / (2 * d)
}

/// What a GIF's delays say about its rate.
pub open spec fn source_rate_spec(delays: Seq<u32>) -> SourceRate {
    let d = delays[0];
    if forall|i: int| 0 <= i < delays.len() ==> #[trigger] delays[i] == d {
        if d == 0 {
            SourceRate::Unspecified
        } else if 17 <= d <= 1000 {
            // 1000 / d lies in 1..=60 exactly for these delays.
            SourceRate::Usable(rate_of_delay(d as int) as u8)
        } else {
            SourceRate::OutOfRange { delay_ms: d }
        }
    } else {
        SourceRate::Variable {
            total_delay_ms: delay_total(delays) as u64,
            frames: delays.len() as usize,
        }
    }
}

/// The sum of a list of delays.
pub open spec fn delay_total(delays: Seq<u32>) -> nat
    decreases delays.len(),
{
    if delays.len() == 0 {
        0
    } else {
        delay_total(delays.drop_last()) + delays.last() as nat
    }
}

/// The delay of one GIF frame in whole milliseconds, from the ratio the
/// decoder reports; a zero denominator counts as no delay.
pub open spec fn delay_ms_spec(numer: u32, denom: u32) -> u32 {
    if denom == 0 {
        0
    } else {
        numer / denom
    }
}

/// A running summary of a GIF's frame delays: how many, the first, whether
/// all are equal, and their total. Four numbers rather than a list, so a
/// huge GIF costs time and not memory.
pub struct DelayStats {
    count: usize,
    first_delay: u32,
    all_equal: bool,
    total_delay: u64,
    seen: Ghost<Seq<u32>>,
}

impl DelayStats {
    /// The delays added so far, in order.
    pub closed spec fn delays(&self) -> Seq<u32> {
        self.seen@
    }

    /// The summary agrees with the delays it has seen.
    pub closed spec fn wf(&self) -> bool {
        &&& self.count == self.seen@.len()
        &&& self.total_delay == delay_total(self.seen@)
        &&& self.seen@.len() == 0 ==> self.all_equal
        &&& self.seen@.len() > 0 ==> self.first_delay == self.seen@[0]
        &&& self.seen@.len() > 0 ==> (self.all_equal <==> forall|i: int|
            0 <= i < self.seen@.len() ==> #[trigger] self.seen@[i] == self.seen@[0])
    }

    /// No delays yet.
    pub fn new() -> (s: Self)
        ensures
            s.wf(),
            s.delays() == Seq::<u32>::empty(),
    {
        DelayStats { count: 0, first_delay: 0, all_equal: true, total_delay: 0, seen: Ghost(Seq::empty()) }
    }

    /// How many frames have been counted.
    pub fn count(&self) -> (n: usize)
        requires
            self.wf(),
        ensures
            n == self.delays().len(),
    {
        self.count
    }

    /// Counts one frame whose delay the decoder gives as `numer / denom` ms.
    pub fn add(&mut self, numer: u32, denom: u32)
        requires
            old(self).wf(),
            old(self).delays().len() < usize::MAX,
            delay_total(old(self).delays()) + u32::MAX <= u64::MAX,
        ensures
            final(self).wf(),
            final(self).delays() == old(self).delays().push(delay_ms_spec(numer, denom)),
    {
        let ms: u32 = if denom == 0 {
            0
        } else {
            numer / denom
        };
        let ghost before = self.seen@;
        if self.count == 0 {
            self.first_delay = ms;
        } else if ms != self.first_delay {
            self.all_equal = false;
        }
        self.total_delay = self.total_delay + ms as u64;
        self.count = self.count + 1;
        self.seen = Ghost(before.push(ms));
        proof {
            let now = before.push(ms);
            assert(now.drop_last() =~= before);
            if before.len() > 0 {
                assert(now[0] == before[0]);
                if self.all_equal {
                    assert forall|i: int| 0 <= i < now.len() implies #[trigger] now[i] == now[0] by {
                        if i < before.len() {
                            assert(now[i] == before[i]);
                        }
                    }
                } else {
                    if ms != self.first_delay {
                        assert(now[now.len() - 1] != now[0]);
                    } else {
                        let j = choose|j: int| 0 <= j < before.len() && #[trigger] before[j] != before[0];
                        assert(now[j] != now[0]);
                    }
                }
            }
        }
    }

    /// What the delays say about the rate. A zero delay everywhere is "as
    /// fast as possible", not 0 fps. The range is checked on the exact rate
    /// before rounding, so a uniform 1500 ms delay (0.67 fps) is out of
    /// range rather than rounding to 1.
    pub fn source_rate(&self) -> (r: SourceRate)
        requires
            self.wf(),
            self.delays().len() > 0,
        ensures
            r == source_rate_spec(self.delays()),
    {
        proof {
            if !self.all_equal {
                let d = self.seen@[0];
                assert(!(forall|i: int| 0 <= i < self.seen@.len() ==> self.seen@[i] == d));
            }
        }
        if self.all_equal && self.first_delay == 0 {
            SourceRate::Unspecified
        } else if self.all_equal {
            let d = self.first_delay;
            if 17 <= d && d <= 1000 {
                let f = (2000 + d) / (2 * d);
                assert(f <= 60) by (nonlinear_arith)
                    requires
                        17 <= d,
                        f == (2000 + d) / (2 * d),
                ;
                SourceRate::Usable(f as u8)
            } else {
                SourceRate::OutOfRange { delay_ms: d }
            }
        } else {
            SourceRate::Variable { total_delay_ms: self.total_delay, frames: self.count }
        }
    }
}

impl SourceRate {
    /// The rate to upload at when none was given: the file's own when the
    /// device can store it, else 30 fps.
    pub fn or_default(self) -> (f: u8)
        ensures
            f == match self {
                SourceRate::Usable(f) => f,
                _ => GIF_FPS_DEFAULT,
            },
    {
        match self {
            SourceRate::Usable(f) => f,
            _ => GIF_FPS_DEFAULT,
        }
    }
}

/// The rate that keeps a subsampled animation's full running time:
/// `rate * kept / source`, rounded half up and kept inside 1-60 fps.
pub open spec fn suggested_rate_spec(rate: int, kept: int, source: int) -> int {
    let r = (2 * rate * kept + source) / (2 * source);
    if r < GIF_FPS_MIN {
        GIF_FPS_MIN as int
    } else if r > GIF_FPS_MAX {
        GIF_FPS_MAX as int
    } else {
        r
    }
}

/// The `--fps` that keeps the animation's full running time when only `kept` of
/// `source` frames are uploaded at `rate`.
pub fn suggested_rate(rate: u8, kept: usize, source: usize) -> (f: u8)
    requires
        source > 0,
    ensures
        f == suggested_rate_spec(rate as int, kept as int, source as int),
        GIF_FPS_MIN <= f <= GIF_FPS_MAX,
{
    assert(2 * (rate as int) * (kept as int) + source as int <= 2 * 255 * usize::MAX + usize::MAX)
        by (nonlinear_arith)
        requires
            rate <= 255,
            kept <= usize::MAX,
            source <= usize::MAX,
    ;
    let p: u128 = 2 * (rate as u128) * (kept as u128) + source as u128;
    let r = p / (2 * source as u128);
    if r < GIF_FPS_MIN as u128 {
        GIF_FPS_MIN
    } else if r > GIF_FPS_MAX as u128 {
        GIF_FPS_MAX
    } else {
        r as u8
    }
}

/// Rough seconds a GIF upload of `frames` frames takes: dominated by the
/// three-second pause every sixteenth frame, plus about a second a frame.
pub open spec fn gif_estimate_spec(frames: int) -> int {
    ((frames + 15) / 16) * 3 + frames
}

/// The rough upload time for `frames` GIF frames.
pub fn gif_estimate_secs(frames: usize) -> (s: usize)
    requires
        frames <= usize::MAX / 2,
    ensures
        s == gif_estimate_spec(frames as int),
{
    let slow = frames / GIF_SLOW_DELAY_EVERY + if frames % GIF_SLOW_DELAY_EVERY == 0 {
        0
    } else {
        1
    };
    assert(slow == (frames + 15) / 16);
    slow * 3 + frames
}


// --- Notes ---

/// Where a note belongs when a command-line caller prints it; scripts
/// redirect the two streams separately.
#[derive(Debug, Clone, Copy, PartialEq, Eq, Structural)]
pub enum Stream {
    Stdout,
    Stderr,
}

/// Why a note exists, so a caller can tell which ones still apply: choosing
/// a rate by hand makes the fallback warning untrue.
#[derive(Debug, Clone, Copy, PartialEq, Eq, Structural)]
pub enum NoteKind {
    /// The file's own rate could not be used, so one was chosen for it.
    RateFallback,
    /// Anything else: the summary, the subsampling warning.
    Info,
}

/// Something the user should be told before the upload starts.
#[derive(Debug, Clone, PartialEq, Eq)]
pub struct Note {
    pub stream: Stream,
    pub kind: NoteKind,
    pub text: String,
}

impl Note {
    /// An ordinary note for standard output.
    pub fn out(text: String) -> (n: Self)
        ensures
            n.stream == Stream::Stdout && n.kind == NoteKind::Info && n.text == text,
    {
        Note { stream: Stream::Stdout, kind: NoteKind::Info, text }
    }

    /// A warning for standard error.
    pub fn err(text: String) -> (n: Self)
        ensures
            n.stream == Stream::Stderr && n.kind == NoteKind::Info && n.text == text,
    {
        Note { stream: Stream::Stderr, kind: NoteKind::Info, text }
    }

    /// The warning that the file's own rate was not used.
    pub fn rate_fallback(text: String) -> (n: Self)
        ensures
            n.stream == Stream::Stderr && n.kind == NoteKind::RateFallback && n.text == text,
    {
        Note { stream: Stream::Stderr, kind: NoteKind::RateFallback, text }
    }
}

/// The summary line of a GIF plan.
pub open spec fn gif_summary_text(frames: nat, rate: nat, total: nat, est: nat) -> Seq<char> {
    decimal(frames) + " frame(s) at "@ + decimal(rate) + " fps -> "@ + decimal(total)
        + " reports, roughly "@ + decimal(est) + "s"@
}

/// The line a picture plan reports: what was encoded, and how big it is.
pub open spec fn picture_summary_text(path: Seq<char>, bytes: nat) -> Seq<char> {
    "encoded "@ + path + " to 160x96 RGB565 ("@ + decimal(bytes) + " bytes)"@
}

/// The note a picture plan carries: the encode result, on standard output.
pub fn picture_summary(path: &str, bytes: usize) -> (n: Note)
    ensures
        n.stream == Stream::Stdout,
        n.kind == NoteKind::Info,
        n.text@ == picture_summary_text(path@, bytes as nat),
{
    let mut t = String::from_str("encoded ");
    t.append(path);
    t.append(" to 160x96 RGB565 (");
    push_decimal(&mut t, bytes as u64);
    t.append(" bytes)");
    Note::out(t)
}

/// `100 * kept / source` to the nearest whole number, a tie going to the
/// even neighbour: how the share of the full running time is printed.
pub open spec fn percent_to_even(kept: int, source: int) -> int {
    let q = 100 * kept / source;
    let r = 100 * kept % source;
    if 2 * r > source || (2 * r == source && q % 2 == 1) {
        q + 1
    } else {
        q
    }
}

/// The warning that frames were dropped: how many were kept, how much
/// shorter the animation runs at `rate`, and the rate that would keep its
/// length.
pub open spec fn subsampling_text(kept: int, source: int, rate: int) -> Seq<char> {
    "note: uploading "@ + decimal(kept as nat) + " of "@ + decimal(source as nat)
        + " frames, sampled evenly. At "@ + decimal(rate as nat)
        + " fps the animation plays "@ + decimal(percent_to_even(kept, source) as nat)
        + "% as long as the original; --fps "@ + decimal(
        suggested_rate_spec(rate, kept, source) as nat,
    ) + " is closest to the original duration."@
}

/// The subsampling warning, when only `kept` of the file's `source` frames
/// are uploaded; none when every frame is.
pub fn subsampling_note(kept: usize, source: usize, rate: u8) -> (t: Option<String>)
    requires
        source > 0,
    ensures
        kept < source ==> (t matches Some(m) && m@ == subsampling_text(
            kept as int,
            source as int,
            rate as int,
        )),
        kept >= source ==> t is None,
{
    if kept >= source {
        return None;
    }
    let k = kept as u128;
    let n = source as u128;
    let q = (100 * k) / n;
    let r = (100 * k) % n;
    let pct = if 2 * r > n || (2 * r == n && q % 2 == 1) {
        q + 1
    } else {
        q
    };
    assert(q <= 100) by (nonlinear_arith)
        requires
            k < n,
            q == (100 * k as int) / n as int,
    ;
    let mut m = String::from_str("note: uploading ");
    push_decimal(&mut m, kept as u64);
    m.append(" of ");
    push_decimal(&mut m, source as u64);
    m.append(" frames, sampled evenly. At ");
    push_decimal(&mut m, rate as u64);
    m.append(" fps the animation plays ");
    push_decimal(&mut m, pct as u64);
    m.append("% as long as the original; --fps ");
    push_decimal(&mut m, suggested_rate(rate, kept, source) as u64);
    m.append(" is closest to the original duration.");
    proof {
        reveal_strlit("note: uploading ");
        reveal_strlit(" of ");
        reveal_strlit(" frames, sampled evenly. At ");
        reveal_strlit(" fps the animation plays ");
        reveal_strlit("% as long as the original; --fps ");
        reveal_strlit(" is closest to the original duration.");
    }
    assert(m@ =~= subsampling_text(kept as int, source as int, rate as int));
    Some(m)
}

/// A note as the contracts see it: its stream, its kind and its text.
pub open spec fn note_view(n: Note) -> (Stream, NoteKind, Seq<char>) {
    (n.stream, n.kind, n.text@)
}

/// The notes of a list, as the contracts see them.
pub open spec fn notes_view(v: Seq<Note>) -> Seq<(Stream, NoteKind, Seq<char>)> {
    v.map_values(|n: Note| note_view(n))
}

/// The text of an optional string.
pub open spec fn text_of(t: Option<String>) -> Option<Seq<char>> {
    match t {
        Some(s) => Some(s@),
        None => None,
    }
}

/// The notes a GIF plan carries, in the order they are shown: the rate
/// fallback warning if there is one, then the subsampling warning if there
/// is one, both on standard error, then the summary on standard output,
/// always last.
pub open spec fn gif_notes_spec(
    fallback: Option<Seq<char>>,
    subsampling: Option<Seq<char>>,
    frames: nat,
    rate: nat,
    total: nat,
    est: nat,
) -> Seq<(Stream, NoteKind, Seq<char>)> {
    let first: Seq<(Stream, NoteKind, Seq<char>)> = match fallback {
        Some(t) => seq![(Stream::Stderr, NoteKind::RateFallback, t)],
        None => Seq::empty(),
    };
    let second: Seq<(Stream, NoteKind, Seq<char>)> = match subsampling {
        Some(t) => seq![(Stream::Stderr, NoteKind::Info, t)],
        None => Seq::empty(),
    };
    first + second + seq![(Stream::Stdout, NoteKind::Info, gif_summary_text(frames, rate, total, est))]
}

/// The notes a GIF plan carries (see `gif_notes_spec`).
pub fn gif_plan_notes(
    fallback: Option<String>,
    subsampling: Option<String>,
    frames: usize,
    rate: u8,
    total: usize,
    est: usize,
) -> (notes: Vec<Note>)
    ensures
        notes_view(notes@) == gif_notes_spec(
            text_of(fallback),
            text_of(subsampling),
            frames as nat,
            rate as nat,
            total as nat,
            est as nat,
        ),
{
    let mut notes: Vec<Note> = Vec::new();
    match fallback {
        Some(t) => notes.push(Note::rate_fallback(t)),
        None => {},
    }
    let ghost after_first = notes@;
    match subsampling {
        Some(t) => notes.push(Note::err(t)),
        None => {},
    }
    let ghost after_second = notes@;
    let mut s = String::new();
    push_decimal(&mut s, frames as u64);
    s.append(" frame(s) at ");
    push_decimal(&mut s, rate as u64);
    s.append(" fps -> ");
    push_decimal(&mut s, total as u64);
    s.append(" reports, roughly ");
    push_decimal(&mut s, est as u64);
    s.append("s");
    proof {
        reveal_strlit(" frame(s) at ");
        reveal_strlit(" fps -> ");
        reveal_strlit(" reports, roughly ");
        reveal_strlit("s");
    }
    assert(s@ =~= gif_summary_text(frames as nat, rate as nat, total as nat, est as nat));
    notes.push(Note::out(s));
    assert(notes_view(notes@) =~= gif_notes_spec(
        text_of(fallback),
        text_of(subsampling),
        frames as nat,
        rate as nat,
        total as nat,
        est as nat,
    ));
    notes
}

/// The rate a GIF is uploaded at: the one asked for, else the file's own
/// where the device can store it, else 30 fps.
pub open spec fn upload_rate_spec(fps: Option<u8>, source_rate: SourceRate) -> u8 {
    match fps {
        Some(f) => f,
        None => match source_rate {
            SourceRate::Usable(f) => f,
            _ => GIF_FPS_DEFAULT,
        },
    }
}

/// The rate a GIF is uploaded at (see `upload_rate_spec`).
pub fn upload_rate(fps: Option<u8>, source_rate: SourceRate) -> (r: u8)
    ensures
        r == upload_rate_spec(fps, source_rate),
{
    match fps {
        Some(f) => f,
        None => source_rate.or_default(),
    }
}

/// What a GIF plan says besides its frames.
#[derive(Debug)]
pub struct GifOutline {
    pub rate: u8,
    pub total_reports: usize,
    pub est_secs: usize,
    pub notes: Vec<Note>,
}

/// Everything a GIF plan decides once the file is decoded: `kept` of its
/// `source` frames go up at `fps` if one was asked for, else at the file's
/// own rate where usable, else at 30 fps. `fallback` explains the file's
/// rate; it is shown only when no rate was asked for and the file's own
/// could not be used -- whoever chose a rate already knows the file's is not
/// being used, and a usable one needs no explanation.
pub fn outline_gif_plan(
    fps: Option<u8>,
    source_rate: SourceRate,
    kept: usize,
    source: usize,
    fallback: String,
) -> (o: GifOutline)
    requires
        source > 0,
        crate::protocol::gif_report_total(kept as int) <= usize::MAX,
    ensures
        o.rate == upload_rate_spec(fps, source_rate),
        o.total_reports == crate::protocol::gif_report_total(kept as int),
        o.est_secs == gif_estimate_spec(kept as int),
        notes_view(o.notes@) == gif_notes_spec(
            if fps is None && !(source_rate is Usable) {
                Some(fallback@)
            } else {
                None
            },
            if kept < source {
                Some(subsampling_text(kept as int, source as int, o.rate as int))
            } else {
                None
            },
            kept as nat,
            o.rate as nat,
            o.total_reports as nat,
            o.est_secs as nat,
        ),
{
    let rate = upload_rate(fps, source_rate);
    let shown = match (fps, source_rate) {
        (None, SourceRate::OutOfRange { .. }) | (None, SourceRate::Variable { .. }) | (None, SourceRate::Unspecified) => Some(fallback),
        _ => None,
    };
    let subsampling = subsampling_note(kept, source, rate);
    assert(kept <= usize::MAX / 2) by (nonlinear_arith)
        requires
            2 + kept * (2 + 30 * 19) + 2 + 1 <= usize::MAX,
    ;
    let total_reports = crate::protocol::gif_upload_report_count(kept);
    let est_secs = gif_estimate_secs(kept);
    let notes = gif_plan_notes(shown, subsampling, kept, rate, total_reports, est_secs);
    GifOutline { rate, total_reports, est_secs, notes }
}

} // verus!

//! From a file's bytes to panel-sized frames: decoding through the `image`
//! crate, then choosing frames, flattening, placing and reading the frame
//! rate. Reading the file from disk is the caller's.

use crate::plan::{
    flatten_onto_black, flattened, is_placed_panel, kept_indices, limit_too_high_text,
    resize_to_panel, select_frame_indices, source_rate_spec, too_many_frames_text, delay_ms_spec,
    delay_total, too_many_frames, DelayStats, MediaError, MediaKind, Placement, SourceRate,
};
use crate::protocol::GIF_MAX_FRAMES;
use crate::picture::decode_picture;
use image::codecs::gif::GifDecoder;
use image::{AnimationDecoder, ImageDecoder};
use std::io::Cursor;
use vstd::prelude::*;

pub use crate::picture::{
    picture_decode_failure_text, picture_failure, picture_failure_view, picture_panel,
    picture_placement, DecodedImage, PictureFailure,
};

verus! {

/// The most a GIF decode may allocate for one frame: 64 MiB.
pub const GIF_DECODE_LIMIT: u64 = 67108864;

/// One frame of a GIF as the decoder composes it: the whole canvas as RGBA8
/// (position, transparency and disposal already applied) and the frame's
/// delay as the fraction `delay_numer / delay_denom` milliseconds.
#[derive(Debug, Clone)]
pub struct DecodedFrame {
    pub rgba: Vec<u8>,
    pub width: u32,
    pub height: u32,
    pub delay_numer: u32,
    pub delay_denom: u32,
}

/// A decoded frame as plain values.
pub type FrameTuple = (Seq<u8>, u32, u32, u32, u32);

/// A decoded frame as plain values: pixels, width, height, delay.
pub open spec fn frame_tuple(f: DecodedFrame) -> FrameTuple {
    (f.rgba@, f.width, f.height, f.delay_numer, f.delay_denom)
}

/// Decoded frames as plain values.
pub open spec fn frame_tuples(v: Seq<DecodedFrame>) -> Seq<FrameTuple> {
    v.map_values(|f: DecodedFrame| frame_tuple(f))
}

/// Which step of decoding a GIF failed, with the decoder's own words:
/// reading its header, setting the allocation limit, or a frame.
#[derive(Debug)]
pub enum GifFailure {
    Unreadable(String),
    TooLarge(String),
    BadFrame(String),
}

/// A decoding failure as plain values: the step (0, 1, 2) and the words.
pub open spec fn gif_failure_view(f: GifFailure) -> (nat, Seq<char>) {
    match f {
        GifFailure::Unreadable(d) => (0, d@),
        GifFailure::TooLarge(d) => (1, d@),
        GifFailure::BadFrame(d) => (2, d@),
    }
}

/// What the `image` crate's GIF decoder makes of these bytes with this
/// allocation limit: every frame composed onto the canvas, or the step that
/// failed and the decoder's words.
pub uninterp spec fn decoded_gif(bytes: Seq<u8>, max_alloc: u64) -> Result<Seq<FrameTuple>, (nat, Seq<char>)>;

/// Decodes a GIF held in memory with `image::codecs::gif::GifDecoder`,
/// limited to `max_alloc` bytes per allocation, and collects every frame
/// with `Frames::collect_frames`. Claims: the result is named by
/// `decoded_gif`, and each frame's buffer holds at least `width * height`
/// RGBA pixels (every `ImageBuffer` constructor checks that).
#[verifier::external_body]
fn decode_gif(bytes: &[u8], max_alloc: u64) -> (r: Result<Vec<DecodedFrame>, GifFailure>)
    ensures
        match r {
            Ok(v) => decoded_gif(bytes@, max_alloc) == Ok::<Seq<FrameTuple>, (nat, Seq<char>)>(frame_tuples(v@)),
            Err(e) => decoded_gif(bytes@, max_alloc) == Err::<Seq<FrameTuple>, (nat, Seq<char>)>(gif_failure_view(e)),
        },
        r matches Ok(v) ==> forall|i: int| 0 <= i < v@.len() ==> (#[trigger] v@[i]).rgba@.len() >= v@[i].width * v@[i].height * 4,
{
    let mut decoder = GifDecoder::new(Cursor::new(bytes)).map_err(|e| GifFailure::Unreadable(e.to_string()))?;
    let mut limits = image::Limits::default();
    limits.max_alloc = Some(max_alloc);
    decoder.set_limits(limits).map_err(|e| GifFailure::TooLarge(e.to_string()))?;
    let frames = decoder.into_frames().collect_frames().map_err(|e| GifFailure::BadFrame(e.to_string()))?;
    Ok(frames.into_iter().map(|f| {
        let (delay_numer, delay_denom) = f.delay().numer_denom_ms();
        let b = f.into_buffer();
        DecodedFrame { width: b.width(), height: b.height(), rgba: b.into_raw(), delay_numer, delay_denom }
    }).collect())
}

/// The pixels of a frame: the first `width * height` RGBA pixels of its
/// buffer, which is all the image library reads of it.
pub open spec fn frame_pixels(f: FrameTuple) -> Seq<u8> {
    f.0.take(f.1 * f.2 * 4)
}

/// The delay of each frame, in whole milliseconds.
pub open spec fn frame_delays(fs: Seq<FrameTuple>) -> Seq<u32> {
    fs.map_values(|f: FrameTuple| delay_ms_spec(f.3, f.4))
}

/// Which frames are kept out of `n`, or why none can be: more frames than
/// the keyboard stores with no limit given, or a limit above what it stores.
pub open spec fn frame_selection(n: int, max_frames: Option<usize>) -> Result<Seq<int>, Seq<char>> {
    match max_frames {
        None => if n > GIF_MAX_FRAMES {
            Err(too_many_frames_text(n as nat))
        } else {
            Ok(kept_indices(n, n))
        },
        Some(m) => if m > GIF_MAX_FRAMES {
            Err(limit_too_high_text(m as nat))
        } else {
            Ok(kept_indices(n, m as int))
        },
    }
}

/// The failure for a GIF that decodes to no frames at all.
pub open spec fn no_frames_text() -> Seq<char> {
    "it contains no frames"@
}

/// `e` is the failure to use the file at `path` as an animation, saying
/// `detail`.
pub open spec fn gif_error(e: MediaError, path: Seq<char>, detail: Seq<char>) -> bool {
    e.kind == MediaKind::Gif && e.path@ == path && e.detail@ == detail
}

/// A GIF's kept frames, each placed on the panel, with what the caller
/// needs to explain them.
#[derive(Debug)]
pub struct GifFrames {
    /// One panel-sized RGBA buffer per kept frame, in order.
    pub panel_rgba: Vec<Vec<u8>>,
    /// Frames in the file, before any were dropped.
    pub source_count: usize,
    /// What the file's delays say about its rate.
    pub rate: SourceRate,
}

/// What `gif_frames_from` gives for these frames: no frames is an error; so
/// is a selection that cannot be made; otherwise every kept frame,
/// flattened onto black and placed, with the frame count and the rate the
/// delays ask for.
pub open spec fn gif_frames_result(
    fs: Seq<FrameTuple>,
    path: Seq<char>,
    max_frames: Option<usize>,
    placement: Placement,
    r: Result<GifFrames, MediaError>,
) -> bool {
    if fs.len() == 0 {
        r matches Err(e) && gif_error(e, path, no_frames_text())
    } else {
        match frame_selection(fs.len() as int, max_frames) {
            Err(t) => r matches Err(e) && gif_error(e, path, t),
            Ok(keep) => r matches Ok(g) && {
                &&& g.source_count == fs.len()
                &&& g.rate == source_rate_spec(frame_delays(fs))
                &&& g.panel_rgba@.len() == keep.len()
                &&& forall|j: int|
                    0 <= j < keep.len() ==> (#[trigger] g.panel_rgba@[j])@.len() == 160 * 96 * 4
                        && is_placed_panel(
                        g.panel_rgba@[j]@,
                        fs[keep[j]].1,
                        fs[keep[j]].2,
                        flattened(frame_pixels(fs[keep[j]])),
                        placement,
                    )
            },
        }
    }
}

proof fn lemma_delay_total_bound(d: Seq<u32>)
    ensures
        delay_total(d) <= d.len() * 0xffff_ffff,
    decreases d.len(),
{
    if d.len() > 0 {
        lemma_delay_total_bound(d.drop_last());
    }
}

/// A copy of the first `k` bytes of `v`.
pub(crate) fn prefix(v: &Vec<u8>, k: usize) -> (out: Vec<u8>)
    requires
        k <= v@.len(),
    ensures
        out@ == v@.take(k as int),
{
    let s = vstd::slice::slice_subrange(v.as_slice(), 0, k);
    let out = vstd::slice::slice_to_vec(s);
    assert(out@ =~= v@.take(k as int));
    out
}

/// One kept frame, flattened onto black and placed on the panel.
fn place_frame(f: &DecodedFrame, placement: Placement) -> (panel: Vec<u8>)
    requires
        f.rgba@.len() >= f.width * f.height * 4,
    ensures
        is_placed_panel(panel@, f.width, f.height, flattened(frame_pixels(frame_tuple(*f))), placement),
        panel@.len() == 160 * 96 * 4,
{
    let total = f.rgba.len();
    assert(f.width * f.height <= f.width * f.height * 4 <= usize::MAX) by (nonlinear_arith)
        requires
            f.width * f.height * 4 <= total,
            total <= usize::MAX,
    ;
    let k = (f.width as usize) * (f.height as usize) * 4;
    let mut px = prefix(&f.rgba, k);
    assert(px@.len() % 4 == 0) by (nonlinear_arith)
        requires
            px@.len() == f.width * f.height * 4,
    ;
    flatten_onto_black(&mut px);
    resize_to_panel(f.width, f.height, px.as_slice(), placement)
}

/// The frames of a decoded GIF, ready to encode: counts them and reads
/// their delays, picks the frames to keep (`kept_indices`), then flattens
/// each kept canvas onto black and places it on the panel. Every frame is
/// still decoded, because a dropped frame changes the canvas the next one is
/// drawn on.
pub fn gif_frames_from(
    frames: &Vec<DecodedFrame>,
    path: &str,
    max_frames: Option<usize>,
    placement: Placement,
) -> (r: Result<GifFrames, MediaError>)
    requires
        max_frames != Some(0usize),
        frames@.len() <= u32::MAX,
        forall|i: int| 0 <= i < frames@.len() ==> (#[trigger] frames@[i]).rgba@.len() >= frames@[i].width * frames@[i].height * 4,
    ensures
        gif_frames_result(frame_tuples(frames@), path@, max_frames, placement, r),
{
    let ghost fs = frame_tuples(frames@);
    let n = frames.len();
    if n == 0 {
        proof {
            reveal_strlit("it contains no frames");
        }
        return Err(MediaError { kind: MediaKind::Gif, path: String::from_str(path), detail: String::from_str("it contains no frames") });
    }
    let mut stats = DelayStats::new();
    let mut i: usize = 0;
    while i < n
        invariant
            n == frames@.len(),
            n <= u32::MAX,
            i <= n,
            fs == frame_tuples(frames@),
            stats.wf(),
            stats.delays() == frame_delays(fs).take(i as int),
        decreases n - i,
    {
        proof {
            lemma_delay_total_bound(stats.delays());
            assert(delay_total(stats.delays()) + u32::MAX <= u64::MAX) by (nonlinear_arith)
                requires
                    delay_total(stats.delays()) <= stats.delays().len() * 0xffff_ffff,
                    stats.delays().len() == i,
                    i < 0x1_0000_0000,
            ;
        }
        stats.add(frames[i].delay_numer, frames[i].delay_denom);
        assert(frame_delays(fs).take(i + 1) =~= frame_delays(fs).take(i as int).push(
            delay_ms_spec(frames@[i as int].delay_numer, frames@[i as int].delay_denom),
        ));
        i = i + 1;
    }
    assert(frame_delays(fs).take(n as int) =~= frame_delays(fs));
    let rate = stats.source_rate();
    let keep = match select_frame_indices(n, max_frames) {
        Ok(v) => v,
        Err(detail) => {
            return Err(MediaError { kind: MediaKind::Gif, path: String::from_str(path), detail });
        },
    };
    let ghost kept = keep@.map_values(|x: usize| x as int);
    assert(frame_selection(n as int, max_frames) == Ok::<Seq<int>, Seq<char>>(kept));
    let mut panels: Vec<Vec<u8>> = Vec::new();
    let mut j: usize = 0;
    while j < keep.len()
        invariant
            n == frames@.len(),
            fs == frame_tuples(frames@),
            kept == keep@.map_values(|x: usize| x as int),
            forall|t: int| 0 <= t < keep@.len() ==> keep@[t] < n,
            forall|t: int| 0 <= t < frames@.len() ==> (#[trigger] frames@[t]).rgba@.len() >= frames@[t].width * frames@[t].height * 4,
            j <= keep@.len(),
            panels@.len() == j,
            forall|t: int|
                0 <= t < j ==> (#[trigger] panels@[t])@.len() == 160 * 96 * 4 && is_placed_panel(
                    panels@[t]@,
                    fs[kept[t]].1,
                    fs[kept[t]].2,
                    flattened(frame_pixels(fs[kept[t]])),
                    placement,
                ),
        decreases keep@.len() - j,
    {
        let k = keep[j];
        let panel = place_frame(&frames[k], placement);
        assert(fs[kept[j as int]] == frame_tuple(frames@[k as int]));
        let ghost prev = panels@;
        panels.push(panel);
        proof {
            assert forall|t: int| 0 <= t < j + 1 implies (#[trigger] panels@[t])@.len() == 160 * 96 * 4 && is_placed_panel(
                panels@[t]@,
                fs[kept[t]].1,
                fs[kept[t]].2,
                flattened(frame_pixels(fs[kept[t]])),
                placement,
            ) by {
                if t < j {
                    assert(panels@[t] == prev[t]);
                }
            }
        }
        j = j + 1;
    }
    Ok(GifFrames { panel_rgba: panels, source_count: n, rate })
}

/// The failure text for a GIF whose decoding failed at step `stage`, the
/// decoder saying `d`.
pub open spec fn gif_decode_failure_text(stage: nat, d: Seq<char>) -> Seq<char> {
    if stage == 0 {
        "it is not a readable GIF: "@ + d
    } else if stage == 1 {
        "its dimensions exceed this tool's decode limit: "@ + d
    } else {
        "could not decode a frame: "@ + d
    }
}

/// Reads a GIF held in memory into panel frames: decodes it (allowing
/// `GIF_DECODE_LIMIT` bytes per allocation), then `gif_frames_from`. A
/// decoding failure is reported as the step that failed and the decoder's
/// words. A GIF of more than `u32::MAX` frames, far past anything the
/// keyboard stores, is refused as having too many frames.
pub fn load_gif(bytes: &[u8], path: &str, max_frames: Option<usize>, placement: Placement) -> (r: Result<GifFrames, MediaError>)
    requires
        max_frames != Some(0usize),
    ensures
        match decoded_gif(bytes@, GIF_DECODE_LIMIT) {
            Err((stage, d)) => r matches Err(e) && gif_error(e, path@, gif_decode_failure_text(stage, d)),
            Ok(fs) => if fs.len() <= u32::MAX {
                gif_frames_result(fs, path@, max_frames, placement, r)
            } else {
                r matches Err(e) && gif_error(e, path@, too_many_frames_text(fs.len()))
            },
        },
{
    proof {
        reveal_strlit("it is not a readable GIF: ");
        reveal_strlit("its dimensions exceed this tool's decode limit: ");
        reveal_strlit("could not decode a frame: ");
    }
    let frames = match decode_gif(bytes, GIF_DECODE_LIMIT) {
        Ok(v) => v,
        Err(f) => {
            let detail = match f {
                GifFailure::Unreadable(d) => {
                    let mut t = String::from_str("it is not a readable GIF: ");
                    t.append(d.as_str());
                    t
                },
                GifFailure::TooLarge(d) => {
                    let mut t = String::from_str("its dimensions exceed this tool's decode limit: ");
                    t.append(d.as_str());
                    t
                },
                GifFailure::BadFrame(d) => {
                    let mut t = String::from_str("could not decode a frame: ");
                    t.append(d.as_str());
                    t
                },
            };
            return Err(MediaError { kind: MediaKind::Gif, path: String::from_str(path), detail });
        },
    };
    if frames.len() > 0xffff_ffff {
        let detail = too_many_frames(frames.len());
        return Err(MediaError { kind: MediaKind::Gif, path: String::from_str(path), detail });
    }
    gif_frames_from(&frames, path, max_frames, placement)
}

/// Reads a PNG or JPEG held in memory onto the panel: decodes it upright
/// and places it per `placement`. Whatever the decoder gives, the result is
/// a panel-sized placement of some decoded image, or a failure naming the
/// file as a picture with the step's text (`picture_panel` and
/// `picture_failure` say exactly which, given the decoder's answer).
pub fn load_picture(bytes: &[u8], path: &str, placement: Placement) -> (r: Result<Vec<u8>, MediaError>)
    ensures
        match r {
            Ok(panel) => panel@.len() == 160 * 96 * 4 && exists|rgba: Seq<u8>, w: u32, h: u32|
                #[trigger] picture_placement(panel@, rgba, w, h, placement),
            Err(e) => e.kind == MediaKind::Picture && e.path@ == path@ && exists|f: (nat, Seq<char>)|
                f.0 < 2 && #[trigger] picture_decode_failure_text(f.0, f.1) == e.detail@,
        },
{
    match decode_picture(bytes) {
        Ok(d) => {
            let panel = picture_panel(&d, placement);
            assert(panel@.len() == 160 * 96 * 4);
            assert(picture_placement(panel@, d.pixels(), d.width(), d.height(), placement));
            let r: Result<Vec<u8>, MediaError> = Ok(panel);
            assert(r matches Ok(p) && p@.len() == 160 * 96 * 4 && picture_placement(p@, d.pixels(), d.width(), d.height(), placement));
            r
        },
        Err(f) => {
            let ghost v = picture_failure_view(f);
            let e = picture_failure(f, path);
            assert(picture_decode_failure_text(v.0, v.1) == e.detail@);
            Err(e)
        },
    }
}

} // verus!

//! Decoding a PNG or JPEG held in memory, and placing the decoded picture
//! on the panel.

use crate::decode::prefix;
use crate::plan::{is_placed_panel, resize_to_panel, MediaError, MediaKind, Placement};
use image::metadata::Orientation;
use image::{DynamicImage, ImageDecoder, ImageReader};
use std::io::Cursor;
use vstd::prelude::*;

verus! {

/// Which step of decoding a picture failed, with the library's own words:
/// reading the bytes while guessing the format, or decoding them.
#[derive(Debug)]
pub enum PictureFailure {
    Unreadable(String),
    Undecodable(String),
}

/// A decoding failure as plain values: the step (0, 1) and the words.
pub open spec fn picture_failure_view(f: PictureFailure) -> (nat, Seq<char>) {
    match f {
        PictureFailure::Unreadable(d) => (0, d@),
        PictureFailure::Undecodable(d) => (1, d@),
    }
}

/// A decoded picture: RGBA8 pixels, upright, with its size. Only the
/// decoder makes one, and only `picture_panel` reads one, so a picture is
/// always placed at the size it was decoded at.
#[derive(Debug)]
pub struct DecodedImage {
    rgba: Vec<u8>,
    width: u32,
    height: u32,
}

impl DecodedImage {
    /// The pixels, row by row.
    pub closed spec fn pixels(&self) -> Seq<u8> {
        self.rgba@
    }

    /// The width in pixels.
    pub closed spec fn width(&self) -> u32 {
        self.width
    }

    /// The height in pixels.
    pub closed spec fn height(&self) -> u32 {
        self.height
    }
}

/// Decodes a PNG or JPEG held in memory with `image::ImageReader` (format
/// guessed from the bytes), applies the orientation its decoder reports
/// (none where it reports an error), and converts to RGBA8. The pixels are
/// not named as a function of the bytes: the JPEG decoder picks its code
/// path by the processor it runs on. Claims only that the buffer holds at
/// least `width * height` RGBA pixels (every `ImageBuffer` constructor
/// checks it).
#[verifier::external_body]
pub(crate) fn decode_picture(bytes: &[u8]) -> (r: Result<DecodedImage, PictureFailure>)
    ensures
        r matches Ok(d) ==> d.pixels().len() >= d.width() * d.height() * 4,
{
    let reader = ImageReader::new(Cursor::new(bytes)).with_guessed_format().map_err(|e| PictureFailure::Unreadable(e.to_string()))?;
    let mut decoder = reader.into_decoder().map_err(|e| PictureFailure::Undecodable(e.to_string()))?;
    let orientation = decoder.orientation().unwrap_or(Orientation::NoTransforms);
    let mut img = DynamicImage::from_decoder(decoder).map_err(|e| PictureFailure::Undecodable(e.to_string()))?;
    img.apply_orientation(orientation);
    let rgba = img.to_rgba8();
    Ok(DecodedImage { width: rgba.width(), height: rgba.height(), rgba: rgba.into_raw() })
}

/// The failure text for a picture whose decoding failed at step `stage`.
pub open spec fn picture_decode_failure_text(stage: nat, d: Seq<char>) -> Seq<char> {
    if stage == 0 {
        d
    } else {
        "could not decode it: "@ + d
    }
}

/// `panel` places a decoded picture of `w` x `h` pixels, held in `rgba`,
/// per `placement`.
pub open spec fn picture_placement(panel: Seq<u8>, rgba: Seq<u8>, w: u32, h: u32, placement: Placement) -> bool {
    rgba.len() >= w * h * 4 && is_placed_panel(panel, w, h, rgba.take(w * h * 4), placement)
}

/// A decoded picture on the panel: its pixels placed per `placement`.
pub fn picture_panel(d: &DecodedImage, placement: Placement) -> (panel: Vec<u8>)
    requires
        d.pixels().len() >= d.width() * d.height() * 4,
    ensures
        panel@.len() == 160 * 96 * 4,
        picture_placement(panel@, d.pixels(), d.width(), d.height(), placement),
{
    let total = d.rgba.len();
    assert(d.width * d.height <= d.width * d.height * 4 <= usize::MAX) by (nonlinear_arith)
        requires
            d.width * d.height * 4 <= total,
            total <= usize::MAX,
    ;
    let k = (d.width as usize) * (d.height as usize) * 4;
    let px = prefix(&d.rgba, k);
    resize_to_panel(d.width, d.height, px.as_slice(), placement)
}

/// The failure to use the file at `path` as a picture, for a decoding that
/// failed as `f` says. The keyboard is never contacted first.
pub fn picture_failure(f: PictureFailure, path: &str) -> (e: MediaError)
    ensures
        e.kind == MediaKind::Picture,
        e.path@ == path@,
        e.detail@ == picture_decode_failure_text(picture_failure_view(f).0, picture_failure_view(f).1),
{
    proof {
        reveal_strlit("could not decode it: ");
    }
    let detail = match f {
        PictureFailure::Unreadable(d) => d,
        PictureFailure::Undecodable(d) => {
            let mut t = String::from_str("could not decode it: ");
            t.append(d.as_str());
            t
        },
    };
    MediaError { kind: MediaKind::Picture, path: String::from_str(path), detail }
}

} // verus!

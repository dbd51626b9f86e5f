//! From a file's bytes to panel frames.

use image::codecs::gif::GifEncoder;
use image::{Delay, Frame, ImageFormat, Rgba, RgbaImage};
use std::io::Cursor;
use yunzii_b75_tui::decode::{gif_frames_from, load_gif, load_picture, DecodedFrame};
use yunzii_b75_tui::plan::{Placement, SourceRate};

/// A GIF of solid frames, each shown for the given number of milliseconds.
fn gif_bytes(w: u32, h: u32, delays_ms: &[u32]) -> Vec<u8> {
    let mut out = Vec::new();
    {
        let mut enc = GifEncoder::new(&mut out);
        let frames: Vec<Frame> = delays_ms
            .iter()
            .enumerate()
            .map(|(i, d)| {
                let c = if i % 2 == 0 { Rgba([255, 0, 0, 255]) } else { Rgba([0, 0, 255, 255]) };
                Frame::from_parts(RgbaImage::from_pixel(w, h, c), 0, 0, Delay::from_numer_denom_ms(*d, 1))
            })
            .collect();
        enc.encode_frames(frames).unwrap();
    }
    out
}

fn png_bytes(img: &RgbaImage) -> Vec<u8> {
    let mut c = Cursor::new(Vec::new());
    img.write_to(&mut c, ImageFormat::Png).unwrap();
    c.into_inner()
}

fn solid(w: u32, h: u32, delay_ms: u32) -> DecodedFrame {
    DecodedFrame {
        rgba: [9u8, 8, 7, 255].iter().copied().cycle().take((w * h * 4) as usize).collect(),
        width: w,
        height: h,
        delay_numer: delay_ms,
        delay_denom: 1,
    }
}

#[test]
fn a_two_frame_gif_becomes_two_panel_frames_at_its_own_rate() {
    let bytes = gif_bytes(160, 96, &[100, 100]);
    let g = load_gif(&bytes, "anim.gif", None, Placement::Fill).unwrap();
    assert_eq!(g.source_count, 2);
    assert_eq!(g.rate, SourceRate::Usable(10));
    assert_eq!(g.panel_rgba.len(), 2);
    for p in &g.panel_rgba {
        assert_eq!(p.len(), 160 * 96 * 4);
    }
    assert_eq!(&g.panel_rgba[0][0..4], &[255, 0, 0, 255]);
    assert_eq!(&g.panel_rgba[1][0..4], &[0, 0, 255, 255]);
}

#[test]
fn a_gif_with_no_frames_is_a_clean_error() {
    // A valid GIF89a header and trailer, with no image blocks at all.
    let bytes = [b'G', b'I', b'F', b'8', b'9', b'a', 0x01, 0x00, 0x01, 0x00, 0x00, 0x00, 0x00, 0x3b];
    let err = match load_gif(&bytes, "empty.gif", None, Placement::Fill) {
        Ok(_) => panic!("no frames must not succeed"),
        Err(e) => e,
    };
    let msg = err.message();
    assert!(msg.contains("as an animation"), "must be reported as a GIF problem; got: {msg}");
    assert!(msg.contains("The keyboard was not contacted."), "got: {msg}");
}

#[test]
fn plan_non_gif_and_broken_files_are_rejected_before_any_device_access() {
    assert!(load_gif(b"not a gif", "notes.txt", None, Placement::Fill).is_err());
    assert!(load_gif(b"", "empty.gif", None, Placement::Fill).is_err());
    let png = png_bytes(&RgbaImage::from_pixel(4, 4, Rgba([1, 2, 3, 255])));
    assert!(load_gif(&png, "test.png", None, Placement::Fill).is_err());
    let err = match load_gif(b"not a gif", "notes.txt", None, Placement::Fill) {
        Ok(_) => panic!("not a GIF"),
        Err(e) => e.message(),
    };
    assert!(err.contains("keyboard was not contacted"), "must be clear the device was never opened: {err}");
    assert!(err.contains("it is not a readable GIF: "), "{err}");
}

#[test]
fn frames_are_counted_selected_and_read_for_their_rate() {
    assert!(match gif_frames_from(&vec![], "x.gif", None, Placement::Fill) {
        Err(e) => e.detail == "it contains no frames",
        Ok(_) => false,
    });
    let many: Vec<DecodedFrame> = (0..200).map(|_| solid(2, 2, 50)).collect();
    match gif_frames_from(&many, "x.gif", None, Placement::Fill) {
        Err(e) => assert!(e.detail.starts_with("it has 200 frames"), "{}", e.detail),
        Ok(_) => panic!("200 frames need a limit"),
    }
    let g = gif_frames_from(&many, "x.gif", Some(160), Placement::Fill).unwrap();
    assert_eq!((g.source_count, g.panel_rgba.len(), g.rate), (200, 160, SourceRate::Usable(20)));
    let zero: Vec<DecodedFrame> = (0..3).map(|_| solid(2, 2, 0)).collect();
    assert_eq!(gif_frames_from(&zero, "x.gif", None, Placement::Fill).unwrap().rate, SourceRate::Unspecified);
    let varied = vec![solid(2, 2, 100), solid(2, 2, 400), solid(2, 2, 100)];
    assert_eq!(
        gif_frames_from(&varied, "x.gif", None, Placement::Fill).unwrap().rate,
        SourceRate::Variable { total_delay_ms: 600, frames: 3 }
    );
    let slow = vec![solid(2, 2, 1500), solid(2, 2, 1500)];
    assert_eq!(
        gif_frames_from(&slow, "x.gif", None, Placement::Fill).unwrap().rate,
        SourceRate::OutOfRange { delay_ms: 1500 }
    );
}

#[test]
fn a_kept_frame_is_flattened_onto_black_before_it_is_placed() {
    let mut f = solid(160, 96, 100);
    f.rgba[0..4].copy_from_slice(&[200, 100, 50, 0]);
    let g = gif_frames_from(&vec![f], "x.gif", None, Placement::Fill).unwrap();
    assert_eq!(&g.panel_rgba[0][0..4], &[0, 0, 0, 255]);
    assert_eq!(&g.panel_rgba[0][4..8], &[9, 8, 7, 255]);
}

#[test]
fn a_picture_is_decoded_and_placed() {
    let png = png_bytes(&RgbaImage::from_pixel(160, 96, Rgba([12, 34, 56, 255])));
    let panel = load_picture(&png, "logo.png", Placement::Fill).unwrap();
    assert_eq!(panel.len(), 160 * 96 * 4);
    assert!(panel.chunks_exact(4).all(|p| p == [12, 34, 56, 255]));
    let small = png_bytes(&RgbaImage::from_pixel(1, 1, Rgba([255, 255, 255, 255])));
    let contained = load_picture(&small, "dot.png", Placement::Contain).unwrap();
    assert_eq!(&contained[0..4], &[0, 0, 0, 255], "padding is opaque black");
}

#[test]
fn plan_zero_byte_file_is_rejected() {
    assert!(load_picture(b"", "empty.png", Placement::Fill).is_err());
}

#[test]
fn plan_corrupt_image_is_rejected() {
    let mut bytes = vec![0x89, b'P', b'N', b'G', 0x0d, 0x0a, 0x1a, 0x0a];
    bytes.extend_from_slice(b"not actually a png body at all");
    assert!(load_picture(&bytes, "corrupt.png", Placement::Fill).is_err());
}

#[test]
fn plan_unsupported_format_is_rejected() {
    let err = match load_picture(b"this is plain text, not an image", "notes.txt", Placement::Fill) {
        Ok(_) => panic!("text is not a picture"),
        Err(e) => e.message(),
    };
    assert!(err.contains("notes.txt"), "{err}");
    assert!(err.contains("could not decode it: "), "{err}");
    assert!(err.contains("keyboard was not contacted"), "{err}");
}

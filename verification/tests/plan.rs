//! Deciding an upload: frame selection, placement, rates and notes.

use yunzii_b75_tui::plan::{
    blacken_transparent, contain_geometry, flatten_onto_black, gif_estimate_secs,
    gif_plan_notes, outline_gif_plan, picture_summary, resize_to_panel, select_frame_indices,
    subsampling_note, upload_rate,
    suggested_rate,
    DelayStats, MediaError, MediaKind, NoteKind, Placement, SourceRate, Stream,
    TOO_MANY_FRAMES,
};
use yunzii_b75_tui::protocol::{gif_upload_report_count, rgb565_encode, PANEL_H, PANEL_W};

#[test]
fn plan_partial_alpha_keeps_full_colour_and_only_alpha_zero_becomes_black() {
    let red_opaque = rgb565_encode(&[255, 0, 0, 255]);
    let red_half = rgb565_encode(&[255, 0, 0, 128]);
    let red_gone = rgb565_encode(&[255, 0, 0, 0]);
    assert_eq!(red_half, red_opaque, "alpha 128 must keep the full colour");
    assert_eq!(red_gone, vec![0x00, 0x00], "alpha 0 must become black");
    assert_ne!(red_half, vec![0x78, 0x00]);
}

#[test]
fn contain_geometry_matches_the_hand_computed_formula() {
    // scale = min(160/161, 96/97) = 96/97; dst_w = round(161*96/97) = 159.
    assert_eq!(contain_geometry(161, 97), (0, 0, 159, 96));
}

#[test]
fn media_errors_name_the_command_that_failed() {
    let picture = MediaError {
        kind: MediaKind::Picture,
        path: "/tmp/x.bmp".to_string(),
        detail: "unsupported".to_string(),
    }
    .message();
    assert!(picture.contains("as a picture"), "got: {picture}");
    assert!(picture.contains("PNG and JPEG"), "got: {picture}");
    assert!(!picture.contains("GIF."), "got: {picture}");

    let gif = MediaError {
        kind: MediaKind::Gif,
        path: "/tmp/x.png".to_string(),
        detail: "not a readable GIF".to_string(),
    }
    .message();
    assert!(gif.contains("as an animation"), "got: {gif}");
    assert!(gif.contains("supported formats: GIF."), "got: {gif}");
    assert!(!gif.contains("PNG and JPEG"), "got: {gif}");

    for m in [picture, gif] {
        assert!(m.contains("The keyboard was not contacted."), "got: {m}");
    }
}

#[test]
fn plan_frame_selection_keeps_everything_when_it_fits() {
    assert_eq!(select_frame_indices(3, None).unwrap(), vec![0, 1, 2]);
    assert_eq!(select_frame_indices(3, Some(160)).unwrap(), vec![0, 1, 2]);
}

#[test]
fn plan_over_limit_gif_errors_without_max_frames_but_samples_with_it() {
    let err = select_frame_indices(200, None).unwrap_err();
    assert!(err.contains("200"), "names the frame count: {err}");
    assert!(err.contains("--max-frames"), "names the way forward: {err}");
    assert!(err.contains(TOO_MANY_FRAMES));

    let kept = select_frame_indices(200, Some(160)).unwrap();
    assert_eq!(kept.len(), 160);
    assert_eq!(kept[0], 0);
    assert_eq!(*kept.last().unwrap(), 199, "the sample spans the whole animation");
    assert!(kept.windows(2).all(|w| w[0] < w[1]), "strictly increasing");
}

#[test]
fn plan_frame_selection_is_uniform_and_handles_the_single_frame_edge() {
    assert_eq!(select_frame_indices(10, Some(5)).unwrap(), vec![0, 2, 5, 7, 9]);
    assert_eq!(select_frame_indices(10, Some(1)).unwrap(), vec![0]);
}

// --- Placement ---

#[test]
fn contain_centres_a_square_source_with_bars_on_each_side() {
    assert_eq!(contain_geometry(1, 1), (32, 0, 96, 96));
    assert_eq!(contain_geometry(160, 96), (0, 0, 160, 96));
    // A source too thin to show rounds to zero width.
    assert_eq!(contain_geometry(1, 10000).2, 0);
    assert_eq!(Placement::default(), Placement::Contain);
    assert_eq!(Placement::Fill.name(), "fill");
}

#[test]
fn an_exactly_panel_sized_source_encodes_identically_under_both_placements() {
    let px: Vec<u8> = [12u8, 34, 56, 255].iter().copied().cycle().take(160 * 96 * 4).collect();
    let fill = rgb565_encode(&resize_to_panel(PANEL_W, PANEL_H, &px, Placement::Fill));
    let contain = rgb565_encode(&resize_to_panel(PANEL_W, PANEL_H, &px, Placement::Contain));
    assert_eq!(fill, contain);
    assert_eq!(resize_to_panel(PANEL_W, PANEL_H, &px, Placement::Fill), px);
    assert_eq!(resize_to_panel(PANEL_W, PANEL_H, &px, Placement::Contain), px);
}

#[test]
fn a_panel_sized_source_with_hidden_colour_still_encodes_alike() {
    let mut px: Vec<u8> = [12u8, 34, 56, 255].iter().copied().cycle().take(160 * 96 * 4).collect();
    px[0..4].copy_from_slice(&[200, 100, 50, 0]);
    let fill = resize_to_panel(PANEL_W, PANEL_H, &px, Placement::Fill);
    let contain = resize_to_panel(PANEL_W, PANEL_H, &px, Placement::Contain);
    assert_eq!(&fill[0..4], &[200, 100, 50, 0]);
    assert_eq!(&contain[0..4], &[0, 0, 0, 0], "Contain blackens the hidden colour");
    assert_eq!(rgb565_encode(&fill), rgb565_encode(&contain));
}

#[test]
fn contain_on_a_degenerate_source_is_an_all_black_panel_no_panic() {
    let px: Vec<u8> = [255u8, 0, 0, 255].iter().copied().cycle().take(10000 * 4).collect();
    let panel = resize_to_panel(1, 10000, &px, Placement::Contain);
    assert!(panel.chunks_exact(4).all(|p| p == [0, 0, 0, 255]));
}

#[test]
fn contain_padding_is_exactly_opaque_black() {
    let (dst_x, dst_y, dst_w, dst_h) = contain_geometry(1, 1);
    let panel = resize_to_panel(1, 1, &[255, 255, 255, 255], Placement::Contain);
    assert_eq!(panel.len(), 160 * 96 * 4);
    for (i, px) in panel.chunks_exact(4).enumerate() {
        let x = (i as u32) % PANEL_W;
        let y = (i as u32) / PANEL_W;
        let inside = x >= dst_x && x < dst_x + dst_w && y >= dst_y && y < dst_y + dst_h;
        if !inside {
            assert_eq!(px, [0, 0, 0, 255], "padding pixel ({x},{y}) is not opaque black");
        }
    }
    let centre = ((48 * 160 + 80) * 4) as usize;
    assert_eq!(&panel[centre..centre + 4], &[255, 255, 255, 255]);
}

#[test]
fn contain_preserves_alpha_in_the_image_region_padding_is_opaque() {
    for alpha in [0u8, 128, 255] {
        let panel = resize_to_panel(1, 1, &[200, 50, 25, alpha], Placement::Contain);
        let cx = PANEL_W / 2;
        let cy = PANEL_H / 2;
        let o = ((cy * PANEL_W + cx) * 4) as usize;
        assert_eq!(panel[o + 3], alpha, "alpha {alpha} survives in the image region");
        assert_eq!(panel[3], 255, "the padding is opaque");
    }
}

#[test]
fn a_transparent_pixel_does_not_bleed_into_a_resized_neighbour_under_contain() {
    let src = [255u8, 0, 0, 0, 0, 0, 0, 255, 0, 0, 0, 255, 0, 0, 0, 255];
    let panel = resize_to_panel(4, 1, &src, Placement::Contain);
    assert!(panel.chunks_exact(4).all(|px| px[0] == 0), "hidden red bled into a resized neighbour");
}

#[test]
fn fill_stretches_to_the_whole_panel() {
    let panel = resize_to_panel(1, 1, &[9, 8, 7, 255], Placement::Fill);
    assert_eq!(panel.len(), 160 * 96 * 4);
    assert!(panel.chunks_exact(4).all(|p| p == [9, 8, 7, 255]));
}

#[test]
fn hidden_colour_is_blackened_and_flattening_blends_toward_black() {
    let mut px = vec![255, 0, 0, 0, 10, 20, 30, 128];
    blacken_transparent(&mut px);
    assert_eq!(px, vec![0, 0, 0, 0, 10, 20, 30, 128]);

    let mut px = vec![255, 128, 64, 255, 200, 100, 50, 0, 255, 255, 255, 128];
    flatten_onto_black(&mut px);
    assert_eq!(px, vec![255, 128, 64, 255, 0, 0, 0, 255, 128, 128, 128, 255]);
}

// --- Rates and notes ---

fn stats(delays: &[u32]) -> DelayStats {
    let mut s = DelayStats::new();
    for d in delays {
        s.add(*d, 1);
    }
    s
}

#[test]
fn the_source_rate_is_read_from_the_delays() {
    assert_eq!(stats(&[100, 100]).source_rate(), SourceRate::Usable(10));
    assert_eq!(stats(&[1000]).source_rate(), SourceRate::Usable(1));
    assert_eq!(stats(&[80, 80]).source_rate(), SourceRate::Usable(13), "12.5 rounds up");
    assert_eq!(stats(&[10, 10]).source_rate(), SourceRate::OutOfRange { delay_ms: 10 });
    assert_eq!(
        stats(&[1500, 1500]).source_rate(),
        SourceRate::OutOfRange { delay_ms: 1500 },
        "0.67 fps must not round up into range"
    );
    assert_eq!(stats(&[0, 0, 0]).source_rate(), SourceRate::Unspecified);
    assert_eq!(
        stats(&[50, 100, 150]).source_rate(),
        SourceRate::Variable { total_delay_ms: 300, frames: 3 }
    );
    assert_eq!(stats(&[100, 100]).count(), 2);
    let mut s = DelayStats::new();
    s.add(7, 0);
    assert_eq!(s.source_rate(), SourceRate::Unspecified, "a zero denominator is no delay");
}

#[test]
fn the_default_rate_is_the_files_own_only_when_usable() {
    assert_eq!(SourceRate::Usable(10).or_default(), 10);
    assert_eq!(SourceRate::Unspecified.or_default(), 30);
    assert_eq!(SourceRate::OutOfRange { delay_ms: 10 }.or_default(), 30);
}

#[test]
fn subsampling_suggests_the_rate_that_keeps_the_duration() {
    assert_eq!(suggested_rate(30, 9, 18), 15);
    assert_eq!(suggested_rate(1, 1, 100), 1, "never below 1 fps");
    assert_eq!(suggested_rate(60, 160, 100), 60, "never above 60 fps");
}

#[test]
fn the_estimate_counts_the_slow_pauses() {
    assert_eq!(gif_estimate_secs(18), 2 * 3 + 18);
    assert_eq!(gif_estimate_secs(16), 3 + 16);
    assert_eq!(gif_estimate_secs(0), 0);
}

#[test]
fn warnings_come_before_the_summary_on_their_own_stream() {
    let total = gif_upload_report_count(2);
    let notes = gif_plan_notes(Some("fallback".into()), Some("subsampled".into()), 2, 10, total, gif_estimate_secs(2));
    assert_eq!(notes.len(), 3);
    assert_eq!((notes[0].stream, notes[0].kind), (Stream::Stderr, NoteKind::RateFallback));
    assert_eq!((notes[1].stream, notes[1].kind), (Stream::Stderr, NoteKind::Info));
    assert_eq!(notes[2].stream, Stream::Stdout);
    assert_eq!(notes[2].text, "2 frame(s) at 10 fps -> 1149 reports, roughly 5s");

    let quiet = gif_plan_notes(None, None, 2, 10, total, 5);
    assert_eq!(quiet.len(), 1);

    let p = picture_summary("fixtures/test-quadrants.png", 30720);
    assert_eq!(p.text, "encoded fixtures/test-quadrants.png to 160x96 RGB565 (30720 bytes)");
    assert_eq!(p.stream, Stream::Stdout);
}

#[test]
fn the_subsampling_warning_names_the_share_and_the_rate_that_keeps_the_length() {
    assert_eq!(
        subsampling_note(160, 320, 30).unwrap(),
        "note: uploading 160 of 320 frames, sampled evenly. At 30 fps the animation plays 50% \
         as long as the original; --fps 15 is closest to the original duration."
    );
    // An exact half goes to the even neighbour, as `{:.0}` prints it.
    assert!(subsampling_note(1, 8, 24).unwrap().contains("plays 12% as long"));
    assert!(subsampling_note(3, 8, 24).unwrap().contains("plays 38% as long"));
    // 160 of 161 frames at 60 fps: 99.38% and 59.6 fps.
    assert!(subsampling_note(160, 161, 60).unwrap().contains("plays 99% as long as the original; --fps 60 "));
    assert_eq!(subsampling_note(20, 20, 30), None);
}

#[test]
fn a_gif_whose_own_rate_is_usable_is_only_summarised() {
    let o = outline_gif_plan(None, SourceRate::Usable(10), 2, 2, "unused".into());
    assert_eq!(o.rate, 10, "the file's own 10 fps is usable");
    assert_eq!(o.notes.len(), 1);
    assert_eq!(o.notes[0].stream, Stream::Stdout);
    assert!(o.notes[0].text.contains("2 frame(s) at 10 fps"));
    assert!(o.notes[0].text.contains("1149 reports"));
}

#[test]
fn a_fallback_warns_on_stderr_before_the_summary_unless_a_rate_was_chosen() {
    for rate in [
        SourceRate::Variable { total_delay_ms: 600, frames: 3 },
        SourceRate::OutOfRange { delay_ms: 10 },
        SourceRate::OutOfRange { delay_ms: 1500 },
        SourceRate::Unspecified,
    ] {
        assert_eq!(upload_rate(None, rate), 30);
        let o = outline_gif_plan(None, rate, 3, 3, "note: why".into());
        assert_eq!(o.rate, 30);
        assert_eq!(o.notes.len(), 2, "{rate:?}");
        assert_eq!((o.notes[0].stream, o.notes[0].kind), (Stream::Stderr, NoteKind::RateFallback));
        assert_eq!(o.notes[0].text, "note: why");
        assert_eq!(o.notes[1].stream, Stream::Stdout);

        let chosen = outline_gif_plan(Some(24), rate, 3, 3, "note: why".into());
        assert_eq!(chosen.rate, 24);
        assert_eq!(chosen.notes.len(), 1, "an explicit rate stays quiet about the file's");
        assert_eq!(chosen.notes[0].stream, Stream::Stdout);
    }
}

#[test]
fn subsampling_warns_independently_of_the_rate_warning() {
    let o = outline_gif_plan(Some(30), SourceRate::Usable(10), 9, 18, String::new());
    let stderr: Vec<&str> =
        o.notes.iter().filter(|n| n.stream == Stream::Stderr).map(|n| n.text.as_str()).collect();
    assert_eq!(stderr.len(), 1, "got {stderr:?}");
    assert!(stderr[0].contains("uploading 9 of 18 frames"));
    assert!(stderr[0].contains("--fps 15"), "half the frames at half the rate: {:?}", stderr[0]);
}

#[test]
fn the_outline_owns_the_report_count_and_the_estimate() {
    let o = outline_gif_plan(Some(10), SourceRate::Usable(10), 18, 18, String::new());
    assert_eq!(o.total_reports, gif_upload_report_count(18));
    assert_eq!(o.est_secs, 2 * 3 + 18);
    assert_eq!(o.notes.last().unwrap().text, format!("18 frame(s) at 10 fps -> {} reports, roughly 24s", gif_upload_report_count(18)));
}

//! The command line's own rules.

use yunzii_b75_tui::cli::{parse_fps, ClockDateFields, PageArg, PictureError};
use yunzii_b75_tui::plan::select_frame_indices;
use yunzii_b75_tui::protocol::{
    build_clear_picture_sequence, build_page_switch_sequence, rgb565_encode, Page,
};

#[test]
fn main_partial_alpha_keeps_full_colour_and_only_alpha_zero_becomes_black() {
    let red_opaque = rgb565_encode(&[255, 0, 0, 255]);
    let red_half = rgb565_encode(&[255, 0, 0, 128]);
    let red_gone = rgb565_encode(&[255, 0, 0, 0]);
    assert_eq!(red_half, red_opaque, "alpha 128 must keep the full colour");
    assert_eq!(red_gone, vec![0x00, 0x00], "alpha 0 must become black");
    assert_ne!(red_half, vec![0x78, 0x00]);
}

#[test]
fn main_frame_selection_keeps_everything_when_it_fits() {
    assert_eq!(select_frame_indices(3, None).unwrap(), vec![0, 1, 2]);
    assert_eq!(select_frame_indices(3, Some(160)).unwrap(), vec![0, 1, 2]);
}

#[test]
fn main_over_limit_gif_errors_without_max_frames_but_samples_with_it() {
    let err = select_frame_indices(200, None).unwrap_err();
    assert!(err.contains("200"), "names the frame count: {err}");
    assert!(err.contains("--max-frames"), "names the way forward: {err}");

    let kept = select_frame_indices(200, Some(160)).unwrap();
    assert_eq!(kept.len(), 160);
    assert_eq!(kept[0], 0);
    assert_eq!(*kept.last().unwrap(), 199);
    assert!(kept.windows(2).all(|w| w[0] < w[1]));
}

#[test]
fn main_frame_selection_is_uniform_and_handles_the_single_frame_edge() {
    assert_eq!(select_frame_indices(10, Some(5)).unwrap(), vec![0, 2, 5, 7, 9]);
    assert_eq!(select_frame_indices(10, Some(1)).unwrap(), vec![0]);
}

#[test]
fn max_frames_above_the_device_limit_is_rejected() {
    let err = select_frame_indices(500, Some(161)).unwrap_err();
    assert!(err.contains("161") && err.contains("160"), "{err}");
}

#[test]
fn fps_outside_the_devices_range_is_rejected_at_parse_time() {
    assert!(parse_fps("0").is_err());
    assert!(parse_fps("61").is_err());
    assert!(parse_fps("not-a-number").is_err());
    assert_eq!(parse_fps("1").unwrap(), 1);
    assert_eq!(parse_fps("60").unwrap(), 60);
    assert_eq!(parse_fps("30").unwrap(), 30);
}

#[test]
fn page_arg_maps_to_protocol_page() {
    assert_eq!(Page::from(PageArg::Home), Page::Home);
    assert_eq!(Page::from(PageArg::Picture), Page::Picture);
}

// --- Further cases ---

#[test]
fn fps_errors_say_what_was_wrong() {
    assert_eq!(parse_fps("abc").unwrap_err(), "`abc` is not a whole number");
    assert_eq!(parse_fps("256").unwrap_err(), "`256` is not a whole number");
    assert_eq!(parse_fps("").unwrap_err(), "`` is not a whole number");
    assert_eq!(parse_fps("-5").unwrap_err(), "`-5` is not a whole number");
    assert_eq!(parse_fps("99").unwrap_err(), "must be between 1 and 60");
    assert_eq!(parse_fps("+12").unwrap(), 12);
    assert_eq!(parse_fps("007").unwrap(), 7);
}

#[test]
fn every_page_name_selects_its_command_byte() {
    for (arg, byte) in [(PageArg::Home, 11u8), (PageArg::Picture, 13), (PageArg::Gif, 15)] {
        assert_eq!(build_page_switch_sequence(arg.into())[0][9], byte);
    }
}

#[test]
fn the_clock_snapshot_keeps_two_year_digits() {
    let f = ClockDateFields::from_calendar(2026, 8, 16, 7, 23, 59, 58);
    assert_eq!(
        f,
        ClockDateFields { hour: 23, minute: 59, second: 58, year2digit: 26, weekday: 7, month: 8, date: 16 }
    );
}

#[test]
fn a_picture_read_failure_says_the_keyboard_was_untouched() {
    let e = PictureError { path: "/nope.png".into(), detail: "missing".into() };
    assert_eq!(
        e.message(),
        "could not use /nope.png as a picture: missing\n(supported formats: PNG and JPEG. The keyboard was not contacted.)"
    );
}

// The command-line words themselves are parsed by clap in the program; from
// the parsed value on, dispatch is the library's.

#[test]
fn clear_picture_dispatch_produces_cmd14() {
    const CMD_BYTE_OFFSET: usize = 9;
    let sequence = build_clear_picture_sequence();
    assert_eq!(sequence[0][CMD_BYTE_OFFSET], 14, "expected inner cmd byte 14");
}

#[test]
fn switch_page_gif_is_accepted_and_maps_to_cmd15() {
    const CMD_BYTE_OFFSET: usize = 9;
    let page = PageArg::Gif;
    let sequence = build_page_switch_sequence(page.into());
    assert_eq!(sequence[0][CMD_BYTE_OFFSET], 15);
}

#[test]
fn cli_page_name_maps_to_correct_inner_cmd_byte() {
    const CMD_BYTE_OFFSET: usize = 9;
    for (page, expected_cmd_byte) in [(PageArg::Home, 11u8), (PageArg::Picture, 13), (PageArg::Gif, 15)] {
        let sequence = build_page_switch_sequence(page.into());
        assert_eq!(sequence[0][CMD_BYTE_OFFSET], expected_cmd_byte, "{page:?}: expected inner cmd byte {expected_cmd_byte}");
    }
}

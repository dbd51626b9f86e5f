//! The wire format, checked byte for byte against reports the keyboard's own
//! tool was recorded sending.

use yunzii_b75_tui::protocol::{
    build_clear_gif_sequence, build_clear_picture_sequence, build_data_packet, build_finish,
    build_gif_declare_size, build_gif_frame_blocks, build_gif_frame_header,
    build_gif_session_close, build_gif_session_open, build_info_package,
    build_page_switch_sequence, build_picture_upload_body, build_picture_upload_start,
    build_report, build_report_at, build_set_time_sequence, checksum16_le, clock_payload,
    date_payload, gif_upload_report_count, picture_upload_report_count, rgb565_encode, Page,
    BULK_CHUNK, CLEAR_PICTURE_REPEAT_COUNT, CMD10_INFO_PAYLOAD, CMD11_INFO_PAYLOAD,
    CMD12_DECLARE_SIZE_PAYLOAD, CMD13_INFO_PAYLOAD, CMD14_INFO_PAYLOAD, CMD15_INFO_PAYLOAD,
    CMD18_CLEAR_GIF_PAYLOAD, CMD19_CLEAR_GIF_PAYLOAD, CMD9_INFO_PAYLOAD, GIF_BLOCK_BYTES,
    GIF_MODE_SAVE_TO_DEVICE, OPCODE_DATA_PACKET, OPCODE_INFO_PACKAGE, PICTURE_BYTES,
};

/// A recorded report: the bytes that matter, then zero padding to 64.
fn recorded(prefix: &[u8]) -> [u8; 64] {
    let mut r = [0u8; 64];
    r[..prefix.len()].copy_from_slice(prefix);
    r
}

fn cmd9_info() -> [u8; 64] {
    recorded(&[0x40, 0x00, 0x00, 0x07, 0xf6, 0x02, 0x00, 0xa5, 0x5a, 0x09, 0x00, 0x03, 0xc3, 0xe1])
}

fn cmd10_info() -> [u8; 64] {
    recorded(&[0x40, 0x00, 0x00, 0x07, 0xa5, 0x01, 0x00, 0xa5, 0x5a, 0x0a, 0x00, 0x04, 0x01, 0x50])
}

fn finish() -> [u8; 64] {
    recorded(&[0x42, 0x00, 0x00, 0x38, 0x7a, 0x00, 0x00])
}

fn page_info(page: Page) -> [u8; 64] {
    match page {
        Page::Home => recorded(&[
            0x40, 0x00, 0x00, 0x07, 0x53, 0x01, 0x00, 0xa5, 0x5a, 0x0b, 0x00, 0x00, 0x02, 0x00,
        ]),
        Page::Picture => recorded(&[
            0x40, 0x00, 0x00, 0x07, 0x36, 0x02, 0x00, 0xa5, 0x5a, 0x0d, 0x00, 0x00, 0x03, 0xe0,
        ]),
        Page::Gif => recorded(&[
            0x40, 0x00, 0x00, 0x07, 0x59, 0x02, 0x00, 0xa5, 0x5a, 0x0f, 0x00, 0x00, 0xc3, 0x41,
        ]),
    }
}

fn cmd14_info() -> [u8; 64] {
    recorded(&[0x40, 0x00, 0x00, 0x07, 0x67, 0x01, 0x00, 0xa5, 0x5a, 0x0e, 0x00, 0x00, 0x03, 0x10])
}

fn offset_of(r: &[u8; 64]) -> usize {
    r[1] as usize | ((r[2] as usize) << 8)
}

/// A full frame with varied bytes.
fn sample_frame() -> Vec<u8> {
    (0..PICTURE_BYTES).map(|i| (i * 7 % 256) as u8).collect()
}

#[test]
fn cmd9_info_package_matches_fixture() {
    assert_eq!(build_info_package(&CMD9_INFO_PAYLOAD), cmd9_info());
}

#[test]
fn finish_matches_fixture() {
    assert_eq!(build_finish(), finish());
}

#[test]
fn cmd10_info_package_matches_fixture() {
    assert_eq!(build_info_package(&CMD10_INFO_PAYLOAD), cmd10_info());
}

#[test]
fn checksum_carries_into_the_high_byte_instead_of_being_truncated() {
    // 0x41 + 255 + 3 * 255 = 1085 = 0x043d.
    let payload = [255u8, 255, 255];
    let report = build_report(OPCODE_DATA_PACKET, 255, &payload);
    assert_eq!([report[4], report[5]], [0x3d, 0x04]);
}

#[test]
fn checksum16_le_byte_order_is_low_then_high() {
    let cs = checksum16_le(
        OPCODE_INFO_PACKAGE,
        0,
        0,
        CMD9_INFO_PAYLOAD.len() as u8,
        &CMD9_INFO_PAYLOAD,
    );
    assert_eq!(cs, [0xf6, 0x02]);
}

#[test]
fn data_offset_bytes_are_part_of_the_checksum() {
    let payload: Vec<u8> = std::iter::repeat_n([0xf8u8, 0x00], 28).flatten().collect();
    let at0 = build_report_at(OPCODE_DATA_PACKET, 0x00, 0x00, 0x38, &payload);
    let at56 = build_report_at(OPCODE_DATA_PACKET, 0x38, 0x00, 0x38, &payload);
    assert_eq!([at0[4], at0[5]], [0x99, 0x1b]);
    assert_eq!([at56[4], at56[5]], [0xd1, 0x1b]);
    assert_ne!([at0[4], at0[5]], [at56[4], at56[5]]);
}

#[test]
fn weekday_never_captured_but_reachable_via_encoding_contract() {
    let sunday_encoded = 7u8;
    let payload = date_payload(26, sunday_encoded, 8, 16);
    assert_eq!(payload[1], 7);
}

#[test]
fn switch_page_home_matches_fixture() {
    assert_eq!(build_info_package(&CMD11_INFO_PAYLOAD), page_info(Page::Home));
}

#[test]
fn switch_page_picture_matches_fixture() {
    assert_eq!(build_info_package(&CMD13_INFO_PAYLOAD), page_info(Page::Picture));
}

#[test]
fn switch_page_gif_matches_fixture() {
    assert_eq!(build_info_package(&CMD15_INFO_PAYLOAD), page_info(Page::Gif));
}

#[test]
fn build_page_switch_sequence_is_exactly_info_then_finish_in_order() {
    for page in [Page::Home, Page::Picture, Page::Gif] {
        let seq = build_page_switch_sequence(page);
        assert_eq!(seq.len(), 2, "{page:?}: expected exactly 2 reports");
        assert_eq!(seq[0], page_info(page), "{page:?}: report 0 must be the info-package");
        assert_eq!(seq[1], finish(), "{page:?}: report 1 must be finish");
    }
}

#[test]
fn clear_picture_info_package_matches_fixture() {
    assert_eq!(build_info_package(&CMD14_INFO_PAYLOAD), cmd14_info());
}

#[test]
fn build_clear_picture_sequence_is_32_reports_in_exact_16x_info_finish_order() {
    let seq = build_clear_picture_sequence();
    assert_eq!(seq.len(), CLEAR_PICTURE_REPEAT_COUNT * 2);
    for repeat in 0..CLEAR_PICTURE_REPEAT_COUNT {
        let base = repeat * 2;
        assert_eq!(seq[base], cmd14_info(), "repeat {repeat}: info-package");
        assert_eq!(seq[base + 1], finish(), "repeat {repeat}: finish");
    }
    for repeat in 1..CLEAR_PICTURE_REPEAT_COUNT {
        assert_eq!(seq[repeat * 2], seq[0]);
    }
}

#[test]
fn build_clear_gif_sequence_is_exactly_cmd18_then_cmd19_info_finish_pairs() {
    let seq = build_clear_gif_sequence();
    assert_eq!(seq.len(), 4, "cmd18 pair + cmd19 pair, no repeat loop");
    assert_eq!(
        seq[0],
        recorded(&[
            0x40, 0x00, 0x00, 0x09, 0x71, 0x01, 0x00, 0xa5, 0x5a, 0x12, 0x00, 0x01, 0x05, 0x10,
            0x01, 0x00,
        ]),
        "report 0 must be cmd18's info-package"
    );
    assert_eq!(seq[1], finish(), "report 1 must be cmd18's finish");
    assert_eq!(
        seq[2],
        recorded(&[
            0x40, 0x00, 0x00, 0x09, 0x23, 0x02, 0x00, 0xa5, 0x5a, 0x13, 0x00, 0x02, 0xc4, 0x01,
            0x01, 0x00,
        ]),
        "report 2 must be cmd19's info-package"
    );
    assert_eq!(seq[3], finish(), "report 3 must be cmd19's finish");
}

#[test]
fn clear_gif_cmd18_and_cmd19_have_different_payloads() {
    assert_ne!(CMD18_CLEAR_GIF_PAYLOAD, CMD19_CLEAR_GIF_PAYLOAD);
}

#[test]
fn rgb565_encodes_known_colours_including_truncation_boundaries() {
    let cases: [([u8; 4], [u8; 2]); 8] = [
        ([255, 0, 0, 255], [0xf8, 0x00]),
        ([0, 255, 0, 255], [0x07, 0xe0]),
        ([0, 0, 255, 255], [0x00, 0x1f]),
        ([255, 255, 255, 255], [0xff, 0xff]),
        ([0, 0, 0, 255], [0x00, 0x00]),
        ([7, 3, 7, 255], [0x00, 0x00]),
        ([248, 252, 248, 255], [0xff, 0xff]),
        ([255, 128, 64, 0], [0x00, 0x00]),
    ];
    for (rgba, expected) in cases {
        assert_eq!(rgb565_encode(&rgba), expected.to_vec(), "rgba {rgba:?}");
    }
}

#[test]
fn rgb565_encode_length_is_two_bytes_per_pixel() {
    let rgba = vec![0u8; PICTURE_BYTES * 2];
    assert_eq!(rgb565_encode(&rgba).len(), PICTURE_BYTES);
}

#[test]
fn picture_upload_bulk_offsets_and_lengths_are_exact() {
    let body = build_picture_upload_body(&sample_frame());
    let bulk = &body[1..body.len() - 1];
    assert_eq!(bulk.len(), 549);

    let mut total = 0usize;
    for (i, r) in bulk.iter().enumerate() {
        assert_eq!(offset_of(r), i * BULK_CHUNK, "packet {i} has the wrong offset");
        total += r[3] as usize;
    }
    assert_eq!(total, PICTURE_BYTES);
    assert_eq!(bulk[bulk.len() - 1][3], 0x20);
    assert_eq!(offset_of(&bulk[bulk.len() - 1]), 30688);
    assert!(bulk[..bulk.len() - 1].iter().all(|r| r[3] == 0x38));
}

#[test]
fn picture_upload_opcode_order_is_declare_then_bulk_then_finish() {
    let body = build_picture_upload_body(&sample_frame());
    assert_eq!(build_picture_upload_start()[0], OPCODE_INFO_PACKAGE);
    assert_eq!(body[0][0], OPCODE_DATA_PACKET);
    assert_eq!(&body[0][7..14], &CMD12_DECLARE_SIZE_PAYLOAD);
    assert!(body[1..body.len() - 1].iter().all(|r| r[0] == OPCODE_DATA_PACKET));
    assert_eq!(*body.last().unwrap(), build_finish());
}

#[test]
fn gif_blocks_restart_their_offset_every_1024_bytes() {
    let frame = vec![0u8; PICTURE_BYTES];
    let blocks = build_gif_frame_blocks(&frame);
    assert_eq!(blocks.len(), 30);
    for (b, block) in blocks.iter().enumerate() {
        assert_eq!(block.len(), 19, "block {b}");
        for (i, r) in block.iter().enumerate() {
            let offset = offset_of(r);
            assert_eq!(offset, i * BULK_CHUNK, "block {b} packet {i}");
            assert!(offset < GIF_BLOCK_BYTES);
        }
        assert!(block[..18].iter().all(|r| r[3] == 0x38));
        assert_eq!(block[18][3], 16);
    }
}

#[test]
fn gif_offsets_are_block_relative_unlike_picture_uploads_continuous_run() {
    let frame = vec![0u8; PICTURE_BYTES];
    let gif_offsets: Vec<usize> =
        build_gif_frame_blocks(&frame).iter().flatten().map(offset_of).collect();
    let picture_offsets: Vec<usize> =
        build_picture_upload_body(&frame)[1..550].iter().map(offset_of).collect();
    assert_eq!(*gif_offsets.iter().max().unwrap(), 1008);
    assert_eq!(*picture_offsets.iter().max().unwrap(), 30688);
    assert_eq!(gif_offsets.iter().filter(|o| **o == 0).count(), 30);
    assert_eq!(picture_offsets.iter().filter(|o| **o == 0).count(), 1);
}

#[test]
fn gif_reassembles_to_the_exact_frame_that_went_in() {
    let frame: Vec<u8> = (0..PICTURE_BYTES).map(|i| (i % 251) as u8).collect();
    let rebuilt: Vec<u8> = build_gif_frame_blocks(&frame)
        .iter()
        .flatten()
        .flat_map(|r| r[7..7 + r[3] as usize].to_vec())
        .collect();
    assert_eq!(rebuilt, frame);
}

#[test]
fn gif_session_control_carries_mode_frame_count_and_rate() {
    let open = build_gif_session_open(GIF_MODE_SAVE_TO_DEVICE);
    assert_eq!(open.len(), 2);
    assert_eq!(open[0][0], OPCODE_INFO_PACKAGE);
    assert_eq!(open[1][0], OPCODE_DATA_PACKET);
    assert_eq!(open[0][7 + 7], GIF_MODE_SAVE_TO_DEVICE);
    assert_eq!(open[0][7 + 8], 0);

    let close = build_gif_session_close(GIF_MODE_SAVE_TO_DEVICE, 42, 12);
    assert_eq!(close.len(), 2);
    assert_eq!(close[0][0], OPCODE_DATA_PACKET);
    assert_eq!(close[0][7 + 8], 42);
    assert_eq!(close[1][7 + 8], 12);

    let other = build_gif_session_close(GIF_MODE_SAVE_TO_DEVICE, 42, 30);
    let differing: Vec<usize> = (0..64).filter(|&i| close[1][i] != other[1][i]).collect();
    assert!(differing.contains(&15) && differing.contains(&4), "{differing:?}");
    assert!(differing.iter().all(|i| [4usize, 5, 15].contains(i)), "{differing:?}");
}

#[test]
fn gif_frame_header_carries_the_frame_index() {
    for idx in [0u8, 1, 15, 159] {
        let r = build_gif_frame_header(GIF_MODE_SAVE_TO_DEVICE, idx);
        assert_eq!(r[0], OPCODE_DATA_PACKET);
        assert_eq!(r[3], 10);
        assert_eq!(r[7 + 2], 16);
        assert_eq!(r[7 + 8], GIF_MODE_SAVE_TO_DEVICE);
        assert_eq!(r[7 + 9], idx);
    }
}

// --- Further cases ---

#[test]
fn the_clock_sequence_repeats_its_six_reports_three_times() {
    let seq = build_set_time_sequence(12, 34, 56, 26, 7, 8, 16);
    assert_eq!(seq.len(), 18);
    let clock = build_data_packet(&clock_payload(12, 34, 56));
    let date = build_data_packet(&date_payload(26, 7, 8, 16));
    for repeat in 0..3 {
        let base = repeat * 6;
        assert_eq!(seq[base], cmd9_info());
        assert_eq!(seq[base + 1], clock);
        assert_eq!(seq[base + 2], finish());
        assert_eq!(seq[base + 3], cmd10_info());
        assert_eq!(seq[base + 4], date);
        assert_eq!(seq[base + 5], finish());
    }
    // 0x41 + 3 + 12 + 34 + 56 = 170.
    assert_eq!(&clock[..10], &[0x41, 0, 0, 3, 170, 0, 0, 12, 34, 56]);
}

#[test]
fn report_counts_match_the_choreography() {
    assert_eq!(picture_upload_report_count(), 552);
    assert_eq!(gif_upload_report_count(2), 1149);
    assert_eq!(gif_upload_report_count(0), 5);
}

#[test]
fn declare_size_for_gifs_is_cmd17() {
    let r = build_gif_declare_size();
    assert_eq!(r[0], OPCODE_DATA_PACKET);
    assert_eq!(&r[7..14], &[165, 90, 17, 120, 0, 197, 3]);
}

// --- The first recorded "Update device time" click: 19:24:13 on
// 2026-08-10, a Monday ---

fn cap1_clock_packet() -> [u8; 64] {
    // 0x41 + 3 + 19 + 24 + 13 = 0x7c.
    recorded(&[0x41, 0x00, 0x00, 0x03, 0x7c, 0x00, 0x00, 19, 24, 13])
}

fn cap1_date_packet() -> [u8; 64] {
    // 0x41 + 4 + 26 + 1 + 8 + 10 = 0x72.
    recorded(&[0x41, 0x00, 0x00, 0x04, 0x72, 0x00, 0x00, 26, 1, 8, 10])
}

#[test]
fn cmd9_data_packet_matches_fixture() {
    assert_eq!(build_data_packet(&clock_payload(19, 24, 13)), cap1_clock_packet());
}

#[test]
fn cmd10_data_packet_matches_fixture() {
    assert_eq!(build_data_packet(&date_payload(26, 1, 8, 10)), cap1_date_packet());
}

#[test]
fn full_sequence_is_18_reports_matching_the_three_repeat_loop() {
    let seq = build_set_time_sequence(19, 24, 13, 26, 1, 8, 10);
    assert_eq!(seq.len(), 18);
    for repeat in 0..3 {
        let base = repeat * 6;
        assert_eq!(seq[base], cmd9_info());
        assert_eq!(seq[base + 1], cap1_clock_packet());
        assert_eq!(seq[base + 2], finish());
        assert_eq!(seq[base + 3], cmd10_info());
        assert_eq!(seq[base + 4], cap1_date_packet());
        assert_eq!(seq[base + 5], finish());
    }
}

#[test]
fn gif_report_count_matches_the_capture() {
    // 2 open + 2 x (2 + 30 x 19) + 2 close + 1 finish = 1149
    assert_eq!(gif_upload_report_count(2), 1149);
}

#[test]
fn picture_upload_start_matches_fixture() {
    // 0x40 + 8 + (165 + 90 + 16 + 0 + 1 + 197 + 177 + 1) = 0x2cf.
    assert_eq!(
        build_picture_upload_start(),
        recorded(&[0x40, 0x00, 0x00, 0x08, 0xcf, 0x02, 0x00, 165, 90, 16, 0, 1, 197, 177, 1])
    );
}

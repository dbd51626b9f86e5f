//! The screen-control wire protocol.
//!
//! Every report is a 64-byte HID buffer:
//!
//! ```text
//! offset 0    : opcode (0x40 info-package / 0x41 data-packet / 0x42 finish)
//! offset 1-2  : data offset, u16 little-endian (zero except for bulk pixel data)
//! offset 3    : length (of the payload that follows)
//! offset 4-5  : checksum, u16 little-endian, for every opcode
//! offset 6    : status (0x00 outbound / 0x55 device ACK)
//! offset 7-63 : payload, then 0x00 padding
//! ```
//!
//! The checksum is a plain byte sum, not a CRC:
//! `opcode + byte1 + byte2 + length + sum(payload)`, truncated to 16 bits and
//! stored little-endian.

use vstd::prelude::*;

verus! {

pub const OPCODE_INFO_PACKAGE: u8 = 0x40;
pub const OPCODE_DATA_PACKET: u8 = 0x41;
pub const OPCODE_FINISH: u8 = 0x42;

/// Bytes in one report.
pub const REPORT_LEN: usize = 64;

/// Bytes of header before the payload.
pub const HEADER_LEN: usize = 7;

/// Payload bytes that fit after the header.
pub const MAX_PAYLOAD: usize = 57;

/// Sum of a byte sequence, as a mathematical integer.
pub open spec fn sum_bytes(s: Seq<u8>) -> nat
    decreases s.len(),
{
    if s.len() == 0 {
        0
    } else {
        sum_bytes(s.drop_last()) + s.last() as nat
    }
}

/// The untruncated checksum of a report.
pub open spec fn checksum_total(opcode: u8, b1: u8, b2: u8, length: u8, payload: Seq<u8>) -> nat {
    opcode as nat + b1 as nat + b2 as nat + length as nat + sum_bytes(payload)
}

/// The low checksum byte (report offset 4).
pub open spec fn checksum_lo(total: nat) -> u8 {
    (total % 256) as u8
}

/// The high checksum byte (report offset 5).
pub open spec fn checksum_hi(total: nat) -> u8 {
    ((total / 256) % 256) as u8
}

/// `n` zero bytes.
pub open spec fn zeros(n: nat) -> Seq<u8> {
    Seq::new(n, |i: int| 0u8)
}

/// The 64 bytes of a report with the given header fields and payload.
pub open spec fn report_spec(opcode: u8, b1: u8, b2: u8, length: u8, payload: Seq<u8>) -> Seq<u8> {
    let total = checksum_total(opcode, b1, b2, length, payload);
    seq![opcode, b1, b2, length, checksum_lo(total), checksum_hi(total), 0u8] + payload + zeros(
        (57 - payload.len()) as nat,
    )
}

proof fn lemma_sum_bytes_bound(s: Seq<u8>)
    ensures
        sum_bytes(s) <= 255 * s.len(),
    decreases s.len(),
{
    if s.len() > 0 {
        lemma_sum_bytes_bound(s.drop_last());
    }
}

/// The checksum of a report: `[low, high]` of the 16-bit byte sum.
pub fn checksum16_le(opcode: u8, b1: u8, b2: u8, length: u8, payload: &[u8]) -> (cs: [u8; 2])
    requires
        payload@.len() <= MAX_PAYLOAD,
    ensures
        cs@ == seq![
            checksum_lo(checksum_total(opcode, b1, b2, length, payload@)),
            checksum_hi(checksum_total(opcode, b1, b2, length, payload@)),
        ],
{
    let mut sum: u32 = opcode as u32 + b1 as u32 + b2 as u32 + length as u32;
    let mut i: usize = 0;
    while i < payload.len()
        invariant
            i <= payload@.len(),
            payload@.len() <= MAX_PAYLOAD,
            sum as nat == opcode as nat + b1 as nat + b2 as nat + length as nat + sum_bytes(
                payload@.subrange(0, i as int),
            ),
        decreases payload@.len() - i,
    {
        proof {
            lemma_sum_bytes_bound(payload@.subrange(0, i as int));
            assert(payload@.subrange(0, i + 1 as int).drop_last() =~= payload@.subrange(
                0,
                i as int,
            ));
        }
        sum = sum + payload[i] as u32;
        i = i + 1;
    }
    assert(payload@.subrange(0, i as int) =~= payload@);
    let cs = [(sum % 256) as u8, ((sum / 256) % 256) as u8];
    assert(cs@ =~= seq![(sum % 256) as u8, ((sum / 256) % 256) as u8]);
    cs
}


/// Builds a 64-byte report body. The Linux hidraw report-ID framing byte is
/// a transport concern and is not part of it.
pub fn build_report_at(opcode: u8, b1: u8, b2: u8, length: u8, payload: &[u8]) -> (r: [u8; 64])
    requires
        payload@.len() <= MAX_PAYLOAD,
    ensures
        r@ == report_spec(opcode, b1, b2, length, payload@),
{
    let cs = checksum16_le(opcode, b1, b2, length, payload);
    let mut bytes = [0u8; 64];
    bytes[0] = opcode;
    bytes[1] = b1;
    bytes[2] = b2;
    bytes[3] = length;
    bytes[4] = cs[0];
    bytes[5] = cs[1];
    let n = payload.len();
    let mut i: usize = 0;
    while i < n
        invariant
            n == payload@.len(),
            n <= MAX_PAYLOAD,
            i <= n,
            bytes@.len() == 64,
            bytes@[0] == opcode,
            bytes@[1] == b1,
            bytes@[2] == b2,
            bytes@[3] == length,
            bytes@[4] == cs@[0],
            bytes@[5] == cs@[1],
            bytes@[6] == 0,
            forall|j: int| 0 <= j < i ==> bytes@[7 + j] == payload@[j],
            forall|j: int| 7 + i <= j < 64 ==> bytes@[j] == 0,
        decreases n - i,
    {
        bytes[7 + i] = payload[i];
        i = i + 1;
    }
    let ghost spec_r = report_spec(opcode, b1, b2, length, payload@);
    assert forall|j: int| 0 <= j < 64 implies bytes@[j] == spec_r[j] by {
        if 7 <= j < 7 + n {
            assert(bytes@[7 + (j - 7)] == payload@[j - 7]);
        }
    }
    assert(bytes@ =~= spec_r);
    bytes
}

/// A report with no data offset (bytes 1-2 zero).
pub fn build_report(opcode: u8, length: u8, payload: &[u8]) -> (r: [u8; 64])
    requires
        payload@.len() <= MAX_PAYLOAD,
    ensures
        r@ == report_spec(opcode, 0, 0, length, payload@),
{
    build_report_at(opcode, 0, 0, length, payload)
}


/// The cmd-9 (set clock) info-package payload: a vendor-precomputed
/// constant that carries its own inner CRC-16, unrelated to the outer
/// checksum.
pub const CMD9_INFO_PAYLOAD: [u8; 7] = [165, 90, 9, 0, 3, 195, 225];

/// The cmd-10 (set date) info-package payload, same structure.
pub const CMD10_INFO_PAYLOAD: [u8; 7] = [165, 90, 10, 0, 4, 1, 80];

/// The cmd-11 (switch to the home page) info-package payload. No
/// data-packet follows it.
pub const CMD11_INFO_PAYLOAD: [u8; 7] = [165, 90, 11, 0, 0, 2, 0];

/// The cmd-13 (switch to the picture page) info-package payload.
pub const CMD13_INFO_PAYLOAD: [u8; 7] = [165, 90, 13, 0, 0, 3, 224];

/// The cmd-14 (clear the picture) info-package payload.
pub const CMD14_INFO_PAYLOAD: [u8; 7] = [165, 90, 14, 0, 0, 3, 16];

/// The cmd-15 (switch to the GIF page) info-package payload.
pub const CMD15_INFO_PAYLOAD: [u8; 7] = [165, 90, 15, 0, 0, 195, 65];

/// The `finish` report's length byte: a fixed constant, not derived from a
/// payload (the finish report has none).
pub const FINISH_LENGTH: u8 = 0x38;

/// The TFT page a page switch selects.
#[derive(Debug, Clone, Copy, PartialEq, Eq, Structural)]
pub enum Page {
    Home,
    Picture,
    Gif,
}

/// The info-package payload that selects `page`.
pub open spec fn page_payload(page: Page) -> Seq<u8> {
    match page {
        Page::Home => CMD11_INFO_PAYLOAD@,
        Page::Picture => CMD13_INFO_PAYLOAD@,
        Page::Gif => CMD15_INFO_PAYLOAD@,
    }
}

impl Page {
    fn info_payload(self) -> (p: &'static [u8; 7])
        ensures
            p@ == page_payload(self),
    {
        match self {
            Page::Home => &CMD11_INFO_PAYLOAD,
            Page::Picture => &CMD13_INFO_PAYLOAD,
            Page::Gif => &CMD15_INFO_PAYLOAD,
        }
    }
}

/// The `0x40` info-package report carrying `payload`.
pub open spec fn info_package_spec(payload: Seq<u8>) -> Seq<u8> {
    report_spec(OPCODE_INFO_PACKAGE, 0, 0, payload.len() as u8, payload)
}

/// The `0x41` data-packet report carrying `payload`.
pub open spec fn data_packet_spec(payload: Seq<u8>) -> Seq<u8> {
    report_spec(OPCODE_DATA_PACKET, 0, 0, payload.len() as u8, payload)
}

/// The constant `0x42` finish report.
pub open spec fn finish_spec() -> Seq<u8> {
    report_spec(OPCODE_FINISH, 0, 0, FINISH_LENGTH, Seq::empty())
}

/// The bytes of each report in a list, in order.
pub open spec fn reports_view(v: Seq<[u8; 64]>) -> Seq<Seq<u8>> {
    v.map_values(|r: [u8; 64]| r@)
}

/// Builds the `0x40` info-package report for a constant payload.
pub fn build_info_package(payload: &[u8]) -> (r: [u8; 64])
    requires
        payload@.len() <= MAX_PAYLOAD,
    ensures
        r@ == info_package_spec(payload@),
{
    build_report(OPCODE_INFO_PACKAGE, payload.len() as u8, payload)
}

/// Builds the `0x41` data-packet report for a payload (3 bytes for the cmd-9
/// clock `[hour, minute, second]`, 4 bytes for the cmd-10 date
/// `[year2digit, weekday, month, date]`).
pub fn build_data_packet(payload: &[u8]) -> (r: [u8; 64])
    requires
        payload@.len() <= MAX_PAYLOAD,
    ensures
        r@ == data_packet_spec(payload@),
{
    build_report(OPCODE_DATA_PACKET, payload.len() as u8, payload)
}

/// Builds the constant `0x42` finish report. It takes no payload: its length
/// byte is the fixed `FINISH_LENGTH`.
pub fn build_finish() -> (r: [u8; 64])
    ensures
        r@ == finish_spec(),
{
    let empty: [u8; 0] = [];
    assert(empty@ =~= Seq::<u8>::empty());
    build_report(OPCODE_FINISH, FINISH_LENGTH, &empty)
}

/// The clock payload for cmd 9: `[hour, minute, second]`.
pub fn clock_payload(hour: u8, minute: u8, second: u8) -> (p: [u8; 3])
    ensures
        p@ == seq![hour, minute, second],
{
    let p = [hour, minute, second];
    assert(p@ =~= seq![hour, minute, second]);
    p
}

/// The date payload for cmd 10: `[year2digit, weekday, month, date]`, with
/// `weekday` already in the vendor's convention (Monday=1..Sunday=7).
pub fn date_payload(year2digit: u8, weekday: u8, month: u8, date: u8) -> (p: [u8; 4])
    ensures
        p@ == seq![year2digit, weekday, month, date],
{
    let p = [year2digit, weekday, month, date];
    assert(p@ =~= seq![year2digit, weekday, month, date]);
    p
}

/// One round of "update device time": cmd 9 info, data, finish, then cmd 10
/// info, data, finish.
pub open spec fn set_time_round(clock: Seq<u8>, date: Seq<u8>) -> Seq<Seq<u8>> {
    seq![
        info_package_spec(CMD9_INFO_PAYLOAD@),
        data_packet_spec(clock),
        finish_spec(),
        info_package_spec(CMD10_INFO_PAYLOAD@),
        data_packet_spec(date),
        finish_spec(),
    ]
}

/// The whole "update device time" sequence: the round, three times.
pub open spec fn set_time_spec(clock: Seq<u8>, date: Seq<u8>) -> Seq<Seq<u8>> {
    set_time_round(clock, date) + set_time_round(clock, date) + set_time_round(clock, date)
}

/// The full "update device time" sequence: six reports per round (cmd 9
/// info+data+finish, cmd 10 info+data+finish), three rounds, in send order.
pub fn build_set_time_sequence(
    hour: u8,
    minute: u8,
    second: u8,
    year2digit: u8,
    weekday: u8,
    month: u8,
    date: u8,
) -> (reports: Vec<[u8; 64]>)
    ensures
        reports_view(reports@) == set_time_spec(
            seq![hour, minute, second],
            seq![year2digit, weekday, month, date],
        ),
{
    let clock = clock_payload(hour, minute, second);
    let cal = date_payload(year2digit, weekday, month, date);
    let ghost round = set_time_round(clock@, cal@);
    let mut reports: Vec<[u8; 64]> = Vec::new();
    let mut k: usize = 0;
    while k < 3
        invariant
            k <= 3,
            round == set_time_round(clock@, cal@),
            reports@.len() == 6 * k,
            reports_view(reports@) =~= Seq::new(
                (6 * k) as nat,
                |i: int| round[i % 6],
            ),
        decreases 3 - k,
    {
        let ghost prev = reports@;
        let r0 = build_info_package(&CMD9_INFO_PAYLOAD);
        let r1 = build_data_packet(&clock);
        let r2 = build_finish();
        let r3 = build_info_package(&CMD10_INFO_PAYLOAD);
        let r4 = build_data_packet(&cal);
        let r5 = build_finish();
        reports.push(r0);
        reports.push(r1);
        reports.push(r2);
        reports.push(r3);
        reports.push(r4);
        reports.push(r5);
        assert(reports@ =~= prev + seq![r0, r1, r2, r3, r4, r5]);
        assert forall|i: int| 0 <= i < 6 * k + 6 implies reports_view(reports@)[i] == round[i
            % 6] by {
            if i < 6 * k {
                assert(reports_view(prev)[i] == round[i % 6]);
            } else {
                assert(i % 6 == i - 6 * k) by (nonlinear_arith)
                    requires
                        6 * k <= i < 6 * k + 6,
                ;
                let j = i - 6 * k;
                assert(reports@[i] == seq![r0, r1, r2, r3, r4, r5][j]);
                if j == 0 {
                    assert(r0@ == round[0]);
                } else if j == 1 {
                    assert(r1@ == round[1]);
                } else if j == 2 {
                    assert(r2@ == round[2]);
                } else if j == 3 {
                    assert(r3@ == round[3]);
                } else if j == 4 {
                    assert(r4@ == round[4]);
                } else {
                    assert(r5@ == round[5]);
                }
            }
        }
        k = k + 1;
    }
    assert(reports_view(reports@) =~= set_time_spec(clock@, cal@));
    reports
}

/// The full page-switch sequence: info-package then finish, two reports.
pub fn build_page_switch_sequence(page: Page) -> (reports: Vec<[u8; 64]>)
    ensures
        reports_view(reports@) == seq![info_package_spec(page_payload(page)), finish_spec()],
{
    let reports = vec![build_info_package(page.info_payload()), build_finish()];
    assert(reports_view(reports@) =~= seq![
        info_package_spec(page_payload(page)),
        finish_spec(),
    ]);
    reports
}


/// How many times "clear the picture" repeats its info+finish pair.
pub const CLEAR_PICTURE_REPEAT_COUNT: usize = 16;

/// The whole "clear the picture" sequence: info-package then finish,
/// sixteen times, every repeat byte-identical.
pub open spec fn clear_picture_spec() -> Seq<Seq<u8>> {
    Seq::new(
        32,
        |i: int|
            if i % 2 == 0 {
                info_package_spec(CMD14_INFO_PAYLOAD@)
            } else {
                finish_spec()
            },
    )
}

/// The full "clear the picture" sequence: the info+finish pair repeated
/// `CLEAR_PICTURE_REPEAT_COUNT` times (32 reports).
pub fn build_clear_picture_sequence() -> (reports: Vec<[u8; 64]>)
    ensures
        reports_view(reports@) == clear_picture_spec(),
{
    let mut reports: Vec<[u8; 64]> = Vec::new();
    let mut k: usize = 0;
    while k < CLEAR_PICTURE_REPEAT_COUNT
        invariant
            k <= CLEAR_PICTURE_REPEAT_COUNT,
            reports@.len() == 2 * k,
            forall|i: int|
                0 <= i < 2 * k ==> #[trigger] reports@[i]@ == (if i % 2 == 0 {
                    info_package_spec(CMD14_INFO_PAYLOAD@)
                } else {
                    finish_spec()
                }),
        decreases CLEAR_PICTURE_REPEAT_COUNT - k,
    {
        let info = build_info_package(&CMD14_INFO_PAYLOAD);
        let fin = build_finish();
        reports.push(info);
        reports.push(fin);
        assert((2 * k) % 2 == 0 && (2 * k + 1) % 2 == 1) by (nonlinear_arith);
        k = k + 1;
    }
    assert(reports_view(reports@) =~= clear_picture_spec());
    reports
}

/// The cmd-18 half of "clear the GIF", as captured from the vendor's tool.
pub const CMD18_CLEAR_GIF_PAYLOAD: [u8; 9] = [165, 90, 18, 0, 1, 5, 16, 1, 0];

/// The cmd-19 half of "clear the GIF", as captured from the vendor's tool.
pub const CMD19_CLEAR_GIF_PAYLOAD: [u8; 9] = [165, 90, 19, 0, 2, 196, 1, 1, 0];

/// The whole "clear the GIF" sequence.
pub open spec fn clear_gif_spec() -> Seq<Seq<u8>> {
    seq![
        info_package_spec(CMD18_CLEAR_GIF_PAYLOAD@),
        finish_spec(),
        info_package_spec(CMD19_CLEAR_GIF_PAYLOAD@),
        finish_spec(),
    ]
}

/// The full "clear the GIF" sequence: two different info+finish pairs, no
/// repeat loop.
pub fn build_clear_gif_sequence() -> (reports: Vec<[u8; 64]>)
    ensures
        reports_view(reports@) == clear_gif_spec(),
{
    let reports = vec![
        build_info_package(&CMD18_CLEAR_GIF_PAYLOAD),
        build_finish(),
        build_info_package(&CMD19_CLEAR_GIF_PAYLOAD),
        build_finish(),
    ];
    assert(reports_view(reports@) =~= clear_gif_spec());
    reports
}

// --- Picture upload ---

/// The panel's fixed width in pixels.
pub const PANEL_W: u32 = 160;

/// The panel's fixed height in pixels.
pub const PANEL_H: u32 = 96;

/// Bytes of RGB565 pixel data for one full frame: 160 * 96 * 2.
pub const PICTURE_BYTES: usize = 30720;

/// Payload bytes per bulk data packet: the report size minus the header.
pub const BULK_CHUNK: usize = 56;

/// The cmd-16 (start a picture upload) info-package payload; eight bytes.
pub const CMD16_START_PAYLOAD: [u8; 8] = [165, 90, 16, 0, 1, 197, 177, 1];

/// The cmd-12 (declare the pixel-stream size) payload, sent as a data
/// packet. `120, 0` is 30720 written high byte first.
pub const CMD12_DECLARE_SIZE_PAYLOAD: [u8; 7] = [165, 90, 12, 120, 0, 195, 147];

/// The pause the vendor takes between the start report and declare-size.
pub const START_TO_DECLARE_DELAY_MS: u64 = 300;

/// The panel value of one RGBA pixel: only a fully transparent pixel turns
/// black; any other alpha keeps the full colour.
pub open spec fn rgb565_value(r: u8, g: u8, b: u8, a: u8) -> nat {
    if a == 0 {
        0
    } else {
        (r / 8) as nat * 2048 + (g / 4) as nat * 32 + (b / 8) as nat
    }
}

/// RGBA bytes encoded as RGB565, big-endian per pixel. A trailing partial
/// pixel is ignored.
pub open spec fn rgb565_spec(rgba: Seq<u8>) -> Seq<u8> {
    Seq::new(
        2 * (rgba.len() / 4),
        |i: int|
            {
                let k = i / 2;
                let v = rgb565_value(rgba[4 * k], rgba[4 * k + 1], rgba[4 * k + 2], rgba[4 * k + 3]);
                if i % 2 == 0 {
                    (v / 256) as u8
                } else {
                    (v % 256) as u8
                }
            },
    )
}

fn rgb565_pixel(r: u8, g: u8, b: u8, a: u8) -> (out: (u8, u8))
    ensures
        out.0 == (rgb565_value(r, g, b, a) / 256) as u8,
        out.1 == (rgb565_value(r, g, b, a) % 256) as u8,
{
    let (r, g, b) = if a == 0 {
        (0u8, 0u8, 0u8)
    } else {
        (r, g, b)
    };
    let v: u16 = ((r as u16 >> 3) << 11) | ((g as u16 >> 2) << 5) | (b as u16 >> 3);
    assert(v == (r / 8) as u16 * 2048 + (g / 4) as u16 * 32 + (b / 8) as u16) by (bit_vector)
        requires
            v == ((r as u16 >> 3) << 11) | ((g as u16 >> 2) << 5) | (b as u16 >> 3),
    ;
    assert((v >> 8) as u8 == v / 256 && (v & 0xff) as u8 == v % 256) by (bit_vector);
    ((v >> 8) as u8, (v & 0xff) as u8)
}

/// Encodes RGBA bytes as the panel's RGB565, big-endian per pixel:
/// `v = (R>>3)<<11 | (G>>2)<<5 | (B>>3)`, emitted `[v>>8, v&0xFF]`,
/// row-major.
///
/// Only fully transparent pixels become black. Partial alpha keeps its full
/// colour and is otherwise ignored, which is what the vendor's own picture
/// encoder does.
pub fn rgb565_encode(rgba: &[u8]) -> (out: Vec<u8>)
    ensures
        out@ == rgb565_spec(rgba@),
{
    let len = rgba.len();
    let n = len / 4;
    assert(4 * n <= rgba@.len()) by (nonlinear_arith)
        requires
            n == rgba@.len() / 4,
    ;
    let mut out: Vec<u8> = Vec::with_capacity(n * 2);
    let mut k: usize = 0;
    while k < n
        invariant
            n == rgba@.len() / 4,
            len == rgba@.len(),
            4 * n <= rgba@.len(),
            k <= n,
            out@.len() == 2 * k,
            forall|i: int| 0 <= i < 2 * k ==> #[trigger] out@[i] == rgb565_spec(rgba@)[i],
        decreases n - k,
    {
        assert(4 * k + 3 < rgba@.len());
        let base: usize = 4 * k;
        let (hi, lo) = rgb565_pixel(rgba[base], rgba[base + 1], rgba[base + 2], rgba[base + 3]);
        out.push(hi);
        out.push(lo);
        assert((2 * k) / 2 == k && (2 * k) % 2 == 0 && (2 * k + 1) / 2 == k && (2 * k + 1) % 2
            == 1) by (nonlinear_arith);
        k = k + 1;
    }
    assert(out@ =~= rgb565_spec(rgba@));
    out
}


/// The number of bulk packets needed for `len` bytes.
pub open spec fn bulk_count(len: int) -> int {
    (len + 55) / 56
}

/// The low byte of a little-endian 16-bit field.
pub open spec fn le_lo(v: int) -> u8 {
    (v % 256) as u8
}

/// The high byte of a little-endian 16-bit field.
pub open spec fn le_hi(v: int) -> u8 {
    ((v / 256) % 256) as u8
}

/// Bulk packet `i` of the byte range `start..end` of `pixels`: at most 56
/// bytes, its length byte the real count, its offset relative to `start`.
pub open spec fn bulk_packet_spec(pixels: Seq<u8>, start: int, end: int, i: int) -> Seq<u8> {
    let s = start + 56 * i;
    let e = if s + 56 < end {
        s + 56
    } else {
        end
    };
    report_spec(
        OPCODE_DATA_PACKET,
        le_lo(56 * i),
        le_hi(56 * i),
        (e - s) as u8,
        pixels.subrange(s, e),
    )
}

/// Every bulk packet of the byte range `start..end`, in order.
pub open spec fn bulk_packets_spec(pixels: Seq<u8>, start: int, end: int) -> Seq<Seq<u8>> {
    Seq::new(bulk_count(end - start) as nat, |i: int| bulk_packet_spec(pixels, start, end, i))
}

/// Chunks `pixels[start..end]` into 56-byte data packets whose offset field
/// counts from `start`.
fn build_bulk_packets(pixels: &[u8], start: usize, end: usize) -> (reports: Vec<[u8; 64]>)
    requires
        start <= end <= pixels@.len(),
    ensures
        reports_view(reports@) == bulk_packets_spec(pixels@, start as int, end as int),
{
    let mut reports: Vec<[u8; 64]> = Vec::new();
    let mut pos: usize = start;
    let mut i: usize = 0;
    while pos < end
        invariant
            start <= end <= pixels@.len(),
            start <= pos <= end,
            pos < end ==> pos == start + 56 * i && i < bulk_count(end - start),
            pos == end ==> i == bulk_count(end - start),
            reports@.len() == i,
            forall|j: int|
                0 <= j < i ==> #[trigger] reports@[j]@ == bulk_packet_spec(
                    pixels@,
                    start as int,
                    end as int,
                    j,
                ),
        decreases end - pos,
    {
        let stop = if end - pos > BULK_CHUNK {
            pos + BULK_CHUNK
        } else {
            end
        };
        let offset = pos - start;
        let r = build_report_at(
            OPCODE_DATA_PACKET,
            (offset % 256) as u8,
            ((offset / 256) % 256) as u8,
            (stop - pos) as u8,
            &pixels[pos..stop],
        );
        reports.push(r);
        pos = stop;
        i = i + 1;
        if stop < end {
            assert(pos == start + 56 * i);
        } else {
            assert(i == bulk_count(end - start)) by (nonlinear_arith)
                requires
                    end - start <= 56 * i,
                    end - start > 56 * (i - 1),
            ;
        }
    }
    assert(reports_view(reports@) =~= bulk_packets_spec(pixels@, start as int, end as int));
    reports
}

/// The first report of a picture upload: the cmd-16 start info-package.
pub fn build_picture_upload_start() -> (r: [u8; 64])
    ensures
        r@ == info_package_spec(CMD16_START_PAYLOAD@),
{
    build_info_package(&CMD16_START_PAYLOAD)
}

/// Everything after the pause in a picture upload: declare-size, the bulk
/// pixel packets, then finish.
pub open spec fn picture_body_spec(pixels: Seq<u8>) -> Seq<Seq<u8>> {
    seq![data_packet_spec(CMD12_DECLARE_SIZE_PAYLOAD@)] + bulk_packets_spec(pixels, 0, 30720)
        + seq![finish_spec()]
}

/// Everything after the pause: declare-size, the bulk pixel packets, then
/// finish. 551 reports for a full 30720-byte frame. Each bulk packet's
/// length byte is its real byte count, so the last one declares 32.
pub fn build_picture_upload_body(pixels: &[u8]) -> (reports: Vec<[u8; 64]>)
    requires
        pixels@.len() == PICTURE_BYTES,
    ensures
        reports_view(reports@) == picture_body_spec(pixels@),
{
    let mut reports: Vec<[u8; 64]> = Vec::new();
    reports.push(build_data_packet(&CMD12_DECLARE_SIZE_PAYLOAD));
    let bulk = build_bulk_packets(pixels, 0, PICTURE_BYTES);
    let mut i: usize = 0;
    while i < bulk.len()
        invariant
            reports@.len() == 1 + i,
            i <= bulk@.len(),
            reports@[0]@ == data_packet_spec(CMD12_DECLARE_SIZE_PAYLOAD@),
            reports_view(bulk@) == bulk_packets_spec(pixels@, 0, 30720),
            forall|j: int| 0 <= j < i ==> #[trigger] reports@[1 + j] == bulk@[j],
        decreases bulk@.len() - i,
    {
        reports.push(bulk[i]);
        i = i + 1;
    }
    reports.push(build_finish());
    let ghost expected = picture_body_spec(pixels@);
    assert forall|j: int| 0 <= j < reports@.len() implies #[trigger] reports_view(reports@)[j]
        == expected[j] by {
        if 1 <= j < 1 + bulk@.len() {
            assert(reports@[1 + (j - 1)] == bulk@[j - 1]);
            assert(reports_view(bulk@)[j - 1] == bulk@[j - 1]@);
        }
    }
    assert(reports_view(reports@) =~= picture_body_spec(pixels@));
    reports
}

/// Total reports in one picture upload, start included: 1 + 1 + 549 + 1.
pub fn picture_upload_report_count() -> (n: usize)
    ensures
        n == 1 + picture_body_spec(Seq::new(30720, |i: int| 0u8)).len(),
        n == 552,
{
    1 + 1 + 549 + 1
}


// --- GIF upload ---

/// The vendor's "save to the device" GIF mode, the one this library uses.
/// Mode 0 stores frames that never play; mode 2 is for another product.
pub const GIF_MODE_SAVE_TO_DEVICE: u8 = 1;

/// Frames the device stores in mode 1.
pub const GIF_MAX_FRAMES: usize = 160;

/// The lowest frame rate the device stores.
pub const GIF_FPS_MIN: u8 = 1;

/// The highest frame rate the device stores.
pub const GIF_FPS_MAX: u8 = 60;

/// The rate used when a GIF's own cannot be.
pub const GIF_FPS_DEFAULT: u8 = 30;

/// Frame pixel data goes out one 1024-byte block at a time, and the offset
/// field restarts at 0 for every block.
pub const GIF_BLOCK_BYTES: usize = 1024;

/// Packets per 1024-byte block: 18 full ones and one of 16 bytes.
pub const GIF_PACKETS_PER_BLOCK: usize = 19;

/// Blocks per 30720-byte frame.
pub const GIF_BLOCKS_PER_FRAME: usize = 30;

/// The cmd-17 payload: declares one frame's byte count, high byte first.
pub const CMD17_GIF_DECLARE_SIZE_PAYLOAD: [u8; 7] = [165, 90, 17, 120, 0, 197, 3];

/// Pause after the two session-open reports.
pub const GIF_SESSION_OPEN_DELAY_MS: u64 = 30;

/// Pause after a frame header on every sixteenth frame counting from 0.
pub const GIF_FRAME_HEADER_SLOW_DELAY_MS: u64 = 3000;

/// Pause after a frame header otherwise.
pub const GIF_FRAME_HEADER_DELAY_MS: u64 = 30;

/// Pause after every 1024-byte block, the last one in a frame included.
pub const GIF_BLOCK_DELAY_MS: u64 = 30;

/// Pause after each of the two session-close reports.
pub const GIF_SESSION_CLOSE_DELAY_MS: u64 = 30;

/// Pause between the last close report and finish.
pub const GIF_PRE_FINISH_DELAY_MS: u64 = 500;

/// Frames per slow pause: frame indices divisible by this take the slow one.
pub const GIF_SLOW_DELAY_EVERY: usize = 16;

/// A cmd-18/cmd-19 session payload. The inner CRC covers only the fixed
/// `[cmd, 0, len]` triple; `mode` and `last` follow it.
pub open spec fn gif_session_spec(cmd: u8, crc0: u8, crc1: u8, mode: u8, last: u8) -> Seq<u8> {
    seq![165u8, 90u8, cmd, 0u8, 2u8, crc0, crc1, mode, last]
}

fn gif_session_payload(cmd: u8, crc: [u8; 2], mode: u8, last: u8) -> (p: [u8; 9])
    ensures
        p@ == gif_session_spec(cmd, crc@[0], crc@[1], mode, last),
{
    let p = [165, 90, cmd, 0, 2, crc[0], crc[1], mode, last];
    assert(p@ =~= gif_session_spec(cmd, crc@[0], crc@[1], mode, last));
    p
}

/// The per-frame cmd-16 header payload: `[2, mode, frame_index]` after the
/// inner CRC.
pub open spec fn gif_frame_header_spec(mode: u8, frame_index: u8) -> Seq<u8> {
    seq![165u8, 90u8, 16u8, 0u8, 3u8, 4u8, 48u8, 2u8, mode, frame_index]
}

fn gif_frame_header_payload(mode: u8, frame_index: u8) -> (p: [u8; 10])
    ensures
        p@ == gif_frame_header_spec(mode, frame_index),
{
    let p = [165, 90, 16, 0, 3, 4, 48, 2, mode, frame_index];
    assert(p@ =~= gif_frame_header_spec(mode, frame_index));
    p
}

/// The two session-open reports. The opening cmd 18 is an info package; the
/// opening cmd 19 is a data packet.
pub open spec fn gif_session_open_spec(mode: u8) -> Seq<Seq<u8>> {
    seq![
        info_package_spec(gif_session_spec(18, 4, 80, mode, 0)),
        data_packet_spec(gif_session_spec(19, 196, 1, mode, 0)),
    ]
}

/// The two session-close reports, both data packets: the frame count rides
/// on cmd 18 and the frame rate on cmd 19.
pub open spec fn gif_session_close_spec(mode: u8, frames: u8, fps: u8) -> Seq<Seq<u8>> {
    seq![
        data_packet_spec(gif_session_spec(18, 4, 80, mode, frames)),
        data_packet_spec(gif_session_spec(19, 196, 1, mode, fps)),
    ]
}

/// Opens a GIF session: 2 reports.
pub fn build_gif_session_open(mode: u8) -> (reports: Vec<[u8; 64]>)
    ensures
        reports_view(reports@) == gif_session_open_spec(mode),
{
    let p18 = gif_session_payload(18, [4, 80], mode, 0);
    let p19 = gif_session_payload(19, [196, 1], mode, 0);
    let reports = vec![build_info_package(&p18), build_data_packet(&p19)];
    assert(reports_view(reports@) =~= gif_session_open_spec(mode));
    reports
}

/// Closes a GIF session: 2 reports carrying the frame count and the rate.
pub fn build_gif_session_close(mode: u8, frames: u8, fps: u8) -> (reports: Vec<[u8; 64]>)
    ensures
        reports_view(reports@) == gif_session_close_spec(mode, frames, fps),
{
    let p18 = gif_session_payload(18, [4, 80], mode, frames);
    let p19 = gif_session_payload(19, [196, 1], mode, fps);
    let reports = vec![build_data_packet(&p18), build_data_packet(&p19)];
    assert(reports_view(reports@) =~= gif_session_close_spec(mode, frames, fps));
    reports
}

/// One frame's cmd-16 header report.
pub fn build_gif_frame_header(mode: u8, frame_index: u8) -> (r: [u8; 64])
    ensures
        r@ == data_packet_spec(gif_frame_header_spec(mode, frame_index)),
{
    build_data_packet(&gif_frame_header_payload(mode, frame_index))
}

/// One frame's cmd-17 declare-size report.
pub fn build_gif_declare_size() -> (r: [u8; 64])
    ensures
        r@ == data_packet_spec(CMD17_GIF_DECLARE_SIZE_PAYLOAD@),
{
    build_data_packet(&CMD17_GIF_DECLARE_SIZE_PAYLOAD)
}

/// Block `b` of a frame: its bulk packets, offsets counted from the block's
/// first byte.
pub open spec fn gif_block_spec(pixels: Seq<u8>, b: int) -> Seq<Seq<u8>> {
    bulk_packets_spec(pixels, 1024 * b, 1024 * b + 1024)
}

/// The bytes of each report in each block, in order.
pub open spec fn blocks_view(v: Seq<Vec<[u8; 64]>>) -> Seq<Seq<Seq<u8>>> {
    v.map_values(|blk: Vec<[u8; 64]>| reports_view(blk@))
}

/// Every block of a frame, in order.
pub open spec fn gif_frame_blocks_spec(pixels: Seq<u8>) -> Seq<Seq<Seq<u8>>> {
    Seq::new(30, |b: int| gif_block_spec(pixels, b))
}

/// One frame's pixel data, as 30 blocks of 19 reports, grouped by block
/// because the caller pauses after each block.
pub fn build_gif_frame_blocks(pixels: &[u8]) -> (blocks: Vec<Vec<[u8; 64]>>)
    requires
        pixels@.len() == PICTURE_BYTES,
    ensures
        blocks_view(blocks@) == gif_frame_blocks_spec(pixels@),
{
    let mut blocks: Vec<Vec<[u8; 64]>> = Vec::new();
    let mut b: usize = 0;
    while b < GIF_BLOCKS_PER_FRAME
        invariant
            b <= GIF_BLOCKS_PER_FRAME,
            pixels@.len() == PICTURE_BYTES,
            blocks@.len() == b,
            forall|j: int|
                0 <= j < b ==> #[trigger] reports_view(blocks@[j]@) == gif_block_spec(pixels@, j),
        decreases GIF_BLOCKS_PER_FRAME - b,
    {
        let start = b * GIF_BLOCK_BYTES;
        let block = build_bulk_packets(pixels, start, start + GIF_BLOCK_BYTES);
        blocks.push(block);
        b = b + 1;
    }
    assert(blocks_view(blocks@) =~= gif_frame_blocks_spec(pixels@));
    blocks
}

/// Total reports in a GIF upload of `frames` frames: 2 open, then per frame
/// a header, a declare-size and 30 blocks of 19, then 2 close and finish.
pub open spec fn gif_report_total(frames: int) -> int {
    2 + frames * (2 + 30 * 19) + 2 + 1
}

/// Total reports in a GIF upload of `frames` frames; 1149 for two.
pub fn gif_upload_report_count(frames: usize) -> (n: usize)
    requires
        gif_report_total(frames as int) <= usize::MAX,
    ensures
        n == gif_report_total(frames as int),
{
    2 + frames * (2 + GIF_BLOCKS_PER_FRAME * GIF_PACKETS_PER_BLOCK) + 2 + 1
}


// --- Laws ---

/// The payload a report carries: the `length` bytes after the header.
pub open spec fn payload_of(report: Seq<u8>) -> Seq<u8> {
    report.subrange(7, 7 + report[3] as int)
}

/// The payloads of a list of reports, joined in order.
pub open spec fn concat_payloads(reports: Seq<Seq<u8>>) -> Seq<u8>
    decreases reports.len(),
{
    if reports.len() == 0 {
        Seq::empty()
    } else {
        concat_payloads(reports.drop_last()) + payload_of(reports.last())
    }
}

/// The payloads of a list of blocks of reports, joined in order.
pub open spec fn concat_block_payloads(blocks: Seq<Seq<Seq<u8>>>) -> Seq<u8>
    decreases blocks.len(),
{
    if blocks.len() == 0 {
        Seq::empty()
    } else {
        concat_block_payloads(blocks.drop_last()) + concat_payloads(blocks.last())
    }
}

/// The 16-bit data offset a report carries in bytes 1-2.
pub open spec fn offset_of(report: Seq<u8>) -> int {
    report[1] as int + 256 * report[2] as int
}

/// A report's checksum verifies: bytes 4-5, read little-endian, equal the
/// byte sum of every other byte but the status byte, modulo 2^16.
pub open spec fn checksum_verifies(report: Seq<u8>) -> bool {
    report.len() == 64 && report[4] as int + 256 * report[5] as int == (sum_bytes(
        report.subrange(0, 4),
    ) + sum_bytes(report.subrange(7, 64))) % 65536
}

proof fn lemma_sum_bytes_concat(a: Seq<u8>, b: Seq<u8>)
    ensures
        sum_bytes(a + b) == sum_bytes(a) + sum_bytes(b),
    decreases b.len(),
{
    if b.len() == 0 {
        assert(a + b =~= a);
    } else {
        lemma_sum_bytes_concat(a, b.drop_last());
        assert((a + b).drop_last() =~= a + b.drop_last());
    }
}

proof fn lemma_sum_zeros(n: nat)
    ensures
        sum_bytes(zeros(n)) == 0,
    decreases n,
{
    if n > 0 {
        lemma_sum_zeros((n - 1) as nat);
        assert(zeros(n).drop_last() =~= zeros((n - 1) as nat));
    }
}

/// A report carries the payload it was built with, byte for byte, behind
/// its header.
pub proof fn lemma_payload_of_report(opcode: u8, b1: u8, b2: u8, payload: Seq<u8>)
    requires
        payload.len() <= 57,
    ensures
        payload_of(report_spec(opcode, b1, b2, payload.len() as u8, payload)) == payload,
        report_spec(opcode, b1, b2, payload.len() as u8, payload).len() == 64,
{
    let r = report_spec(opcode, b1, b2, payload.len() as u8, payload);
    assert(payload_of(r) =~= payload);
}

/// Every report the builders produce carries a checksum that verifies: bytes
/// 4-5 hold the low and high byte of the sum of the opcode, the offset, the
/// length and the payload.
pub proof fn lemma_report_checksum_verifies(
    opcode: u8,
    b1: u8,
    b2: u8,
    length: u8,
    payload: Seq<u8>,
)
    requires
        payload.len() <= 57,
    ensures
        checksum_verifies(report_spec(opcode, b1, b2, length, payload)),
{
    let r = report_spec(opcode, b1, b2, length, payload);
    let total = checksum_total(opcode, b1, b2, length, payload);
    let pad = zeros((57 - payload.len()) as nat);
    assert(r.subrange(0, 4) =~= seq![opcode, b1, b2, length]);
    assert(r.subrange(7, 64) =~= payload + pad);
    lemma_sum_bytes_concat(payload, pad);
    lemma_sum_zeros((57 - payload.len()) as nat);
    let head = seq![opcode, b1, b2, length];
    assert(head.drop_last().drop_last().drop_last().drop_last() =~= Seq::<u8>::empty());
    assert(head.drop_last() =~= seq![opcode, b1, b2]);
    assert(head.drop_last().drop_last() =~= seq![opcode, b1]);
    assert(head.drop_last().drop_last().drop_last() =~= seq![opcode]);
    assert(sum_bytes(head) == opcode as nat + b1 as nat + b2 as nat + length as nat) by {
        reveal_with_fuel(sum_bytes, 5);
    }
    assert(r[4] as int + 256 * r[5] as int == total % 65536);
}

proof fn lemma_bulk_prefix(pixels: Seq<u8>, start: int, end: int, k: int)
    requires
        0 <= start <= end <= pixels.len(),
        0 <= k <= bulk_count(end - start),
    ensures
        concat_payloads(bulk_packets_spec(pixels, start, end).take(k)) == pixels.subrange(
            start,
            if start + 56 * k < end {
                start + 56 * k
            } else {
                end
            },
        ),
    decreases k,
{
    let all = bulk_packets_spec(pixels, start, end);
    if k == 0 {
        assert(all.take(0) =~= Seq::<Seq<u8>>::empty());
        assert(pixels.subrange(start, start) =~= Seq::<u8>::empty());
    } else {
        lemma_bulk_prefix(pixels, start, end, k - 1);
        assert(all.take(k).drop_last() =~= all.take(k - 1));
        let s = start + 56 * (k - 1);
        assert(s < end) by (nonlinear_arith)
            requires
                k <= (end - start + 55) / 56,
                s == start + 56 * (k - 1),
                k >= 1,
        ;
        let e = if s + 56 < end {
            s + 56
        } else {
            end
        };
        lemma_payload_of_report(OPCODE_DATA_PACKET, le_lo(56 * (k - 1)), le_hi(56 * (k - 1)), pixels.subrange(s, e));
        assert(all.take(k).last() == bulk_packet_spec(pixels, start, end, k - 1));
        assert(pixels.subrange(start, s) + pixels.subrange(s, e) =~= pixels.subrange(start, e));
    }
}

/// The bulk packets of a byte range carry exactly that range: joining their
/// payloads in order gives back `pixels[start..end]`.
pub proof fn lemma_bulk_packets_reassemble(pixels: Seq<u8>, start: int, end: int)
    requires
        0 <= start <= end <= pixels.len(),
    ensures
        concat_payloads(bulk_packets_spec(pixels, start, end)) == pixels.subrange(start, end),
{
    let n = bulk_count(end - start);
    lemma_bulk_prefix(pixels, start, end, n);
    assert(start + 56 * n >= end) by (nonlinear_arith)
        requires
            n == (end - start + 55) / 56,
            end >= start,
    ;
    assert(bulk_packets_spec(pixels, start, end).take(n) =~= bulk_packets_spec(
        pixels,
        start,
        end,
    ));
}

/// A picture upload carries the frame it was given: the payloads of its bulk
/// packets (every report between declare-size and finish), joined in order,
/// are the 30720 pixel bytes.
pub proof fn lemma_picture_upload_reassembles(pixels: Seq<u8>)
    requires
        pixels.len() == PICTURE_BYTES,
    ensures
        picture_body_spec(pixels).len() == 551,
        concat_payloads(picture_body_spec(pixels).subrange(1, 550)) == pixels,
{
    lemma_bulk_packets_reassemble(pixels, 0, 30720);
    assert(picture_body_spec(pixels).subrange(1, 550) =~= bulk_packets_spec(pixels, 0, 30720));
    assert(pixels.subrange(0, 30720) =~= pixels);
}

proof fn lemma_gif_blocks_prefix(pixels: Seq<u8>, k: int)
    requires
        pixels.len() == PICTURE_BYTES,
        0 <= k <= 30,
    ensures
        concat_block_payloads(gif_frame_blocks_spec(pixels).take(k)) == pixels.subrange(
            0,
            1024 * k,
        ),
    decreases k,
{
    let all = gif_frame_blocks_spec(pixels);
    if k == 0 {
        assert(all.take(0) =~= Seq::<Seq<Seq<u8>>>::empty());
        assert(pixels.subrange(0, 0) =~= Seq::<u8>::empty());
    } else {
        lemma_gif_blocks_prefix(pixels, k - 1);
        assert(all.take(k).drop_last() =~= all.take(k - 1));
        lemma_bulk_packets_reassemble(pixels, 1024 * (k - 1), 1024 * k);
        assert(all.take(k).last() == gif_block_spec(pixels, k - 1));
        assert(pixels.subrange(0, 1024 * (k - 1)) + pixels.subrange(1024 * (k - 1), 1024 * k)
            =~= pixels.subrange(0, 1024 * k));
    }
}

/// A GIF frame's blocks carry the frame they were given: joining every
/// packet's payload, block by block, gives back the 30720 pixel bytes.
pub proof fn lemma_gif_frame_reassembles(pixels: Seq<u8>)
    requires
        pixels.len() == PICTURE_BYTES,
    ensures
        concat_block_payloads(gif_frame_blocks_spec(pixels)) == pixels,
{
    lemma_gif_blocks_prefix(pixels, 30);
    assert(gif_frame_blocks_spec(pixels).take(30) =~= gif_frame_blocks_spec(pixels));
    assert(pixels.subrange(0, 30720) =~= pixels);
}

/// Picture offsets run continuously across the frame, while GIF offsets
/// restart at 0 in every block and never leave it: packet `i` of a picture
/// sits at `56 * i` (up to 30688), packet `i` of any GIF block at `56 * i`
/// (up to 1008).
pub proof fn lemma_offsets(pixels: Seq<u8>, i: int, b: int)
    requires
        pixels.len() == PICTURE_BYTES,
    ensures
        0 <= i < 549 ==> offset_of(bulk_packets_spec(pixels, 0, 30720)[i]) == 56 * i,
        0 <= b < 30 && 0 <= i < 19 ==> offset_of(gif_block_spec(pixels, b)[i]) == 56 * i,
        0 <= b < 30 && 0 <= i < 19 ==> offset_of(gif_block_spec(pixels, b)[i]) < 1024,
        bulk_packets_spec(pixels, 0, 30720).len() == 549,
        0 <= b < 30 ==> gif_block_spec(pixels, b).len() == 19,
{
    if 0 <= i < 549 {
        let s = 56 * i;
        let e = if s + 56 < 30720 {
            s + 56
        } else {
            30720
        };
        assert(pixels.subrange(s, e).len() <= 57);
    }
    if 0 <= b < 30 && 0 <= i < 19 {
        let s = 1024 * b + 56 * i;
        let e = if s + 56 < 1024 * b + 1024 {
            s + 56
        } else {
            1024 * b + 1024
        };
        assert(pixels.subrange(s, e).len() <= 57);
    }
}


/// Partial transparency keeps the full colour and only alpha 0 turns black;
/// every pixel value fits in 16 bits.
pub proof fn lemma_rgb565_alpha(r: u8, g: u8, b: u8, a: u8)
    ensures
        a != 0 ==> rgb565_value(r, g, b, a) == rgb565_value(r, g, b, 255),
        rgb565_value(r, g, b, 0) == 0,
        rgb565_value(r, g, b, a) < 65536,
{
}

/// A page switch names its page by the inner command byte (report offset 9):
/// 11 for home, 13 for the picture page, 15 for the GIF page; so different
/// pages never share a sequence.
pub proof fn lemma_page_switch_command_byte(page: Page, other: Page)
    ensures
        info_package_spec(page_payload(page))[9] == match page {
            Page::Home => 11u8,
            Page::Picture => 13u8,
            Page::Gif => 15u8,
        },
        page != other ==> info_package_spec(page_payload(page)) != info_package_spec(
            page_payload(other),
        ),
{
    let p = info_package_spec(page_payload(page));
    let q = info_package_spec(page_payload(other));
    assert(p[9] == page_payload(page)[2]);
    assert(q[9] == page_payload(other)[2]);
}

/// Changing the frame rate of a GIF session close moves only the rate byte
/// (offset 15) and the two checksum bytes (offsets 4-5) of its cmd-19 report.
pub proof fn lemma_rate_moves_only_its_byte(mode: u8, frames: u8, fps1: u8, fps2: u8)
    ensures
        gif_session_close_spec(mode, frames, fps1)[0] == gif_session_close_spec(
            mode,
            frames,
            fps2,
        )[0],
        forall|i: int|
            0 <= i < 64 && i != 4 && i != 5 && i != 15 ==> gif_session_close_spec(
                mode,
                frames,
                fps1,
            )[1][i] == gif_session_close_spec(mode, frames, fps2)[1][i],
        fps1 != fps2 ==> gif_session_close_spec(mode, frames, fps1)[1][15]
            != gif_session_close_spec(mode, frames, fps2)[1][15],
{
}

/// The GIF session reports carry the vendor's recorded inner commands: the
/// session opens with an info package (0x40) of cmd 18 with inner CRC 4, 80
/// and a data packet (0x41) of cmd 19 with inner CRC 196, 1, each ending in
/// the mode and a zero; it closes with two data packets of the same commands
/// and CRCs ending in the mode and the frame count, then the mode and the
/// rate. Every report is 64 bytes with a 9-byte payload from offset 7.
pub proof fn lemma_gif_session_reports_are_the_recorded_ones(mode: u8, frames: u8, fps: u8)
    ensures
        gif_session_open_spec(mode).len() == 2,
        gif_session_open_spec(mode)[0].len() == 64,
        gif_session_open_spec(mode)[0][0] == 0x40u8,
        gif_session_open_spec(mode)[0][3] == 9u8,
        gif_session_open_spec(mode)[0].subrange(7, 16) == seq![165u8, 90u8, 18u8, 0u8, 2u8, 4u8, 80u8, mode, 0u8],
        gif_session_open_spec(mode)[1].len() == 64,
        gif_session_open_spec(mode)[1][0] == 0x41u8,
        gif_session_open_spec(mode)[1][3] == 9u8,
        gif_session_open_spec(mode)[1].subrange(7, 16) == seq![165u8, 90u8, 19u8, 0u8, 2u8, 196u8, 1u8, mode, 0u8],
        gif_session_close_spec(mode, frames, fps).len() == 2,
        gif_session_close_spec(mode, frames, fps)[0][0] == 0x41u8,
        gif_session_close_spec(mode, frames, fps)[0].subrange(7, 16) == seq![165u8, 90u8, 18u8, 0u8, 2u8, 4u8, 80u8, mode, frames],
        gif_session_close_spec(mode, frames, fps)[1][0] == 0x41u8,
        gif_session_close_spec(mode, frames, fps)[1].subrange(7, 16) == seq![165u8, 90u8, 19u8, 0u8, 2u8, 196u8, 1u8, mode, fps],
{
    let a = gif_session_spec(18, 4, 80, mode, 0);
    let b = gif_session_spec(19, 196, 1, mode, 0);
    let c = gif_session_spec(18, 4, 80, mode, frames);
    let d = gif_session_spec(19, 196, 1, mode, fps);
    lemma_payload_of_report(OPCODE_INFO_PACKAGE, 0, 0, a);
    lemma_payload_of_report(OPCODE_DATA_PACKET, 0, 0, b);
    lemma_payload_of_report(OPCODE_DATA_PACKET, 0, 0, c);
    lemma_payload_of_report(OPCODE_DATA_PACKET, 0, 0, d);
    assert(info_package_spec(a).subrange(7, 16) =~= a);
    assert(data_packet_spec(b).subrange(7, 16) =~= b);
    assert(data_packet_spec(c).subrange(7, 16) =~= c);
    assert(data_packet_spec(d).subrange(7, 16) =~= d);
}

} // verus!

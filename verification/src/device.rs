//! What the library decides about the keyboard's hidraw node: which sysfs
//! entry is the keyboard's config channel, how a report is framed for
//! `write()`, which reply counts as an acknowledgement, and what each failure
//! says. The reads and writes themselves belong to the caller.

use crate::text::{
    debug_path, debug_path_list, decimal, path_debug_text, path_list_text, push_decimal,
    strings_view,
};
use vstd::prelude::*;

verus! {

/// The keyboard's USB vendor ID.
pub const VENDOR_ID: u16 = 0x28E9;

/// The keyboard's USB product ID.
pub const PRODUCT_ID: u16 = 0x31C8;

/// The exact report-descriptor bytes of the config channel: usage page
/// 0xFF60, usage 0x61, 64-byte input and output reports, no report ID.
pub const EXPECTED_REPORT_DESCRIPTOR: [u8; 34] = [
    0x06, 0x60, 0xff, 0x09, 0x61, 0xa1, 0x01, 0x09, 0x62, 0x15, 0x00, 0x26, 0xff, 0x00, 0x95, 0x40,
    0x75, 0x08, 0x81, 0x02, 0x09, 0x63, 0x15, 0x00, 0x26, 0xff, 0x00, 0x95, 0x40, 0x75, 0x08, 0x91,
    0x02, 0xc0,
];

/// How a report is framed for `write()` on the hidraw node.
#[derive(Debug, Clone, Copy, PartialEq, Eq, Structural)]
pub enum ReportIdForm {
    /// A leading 0x00 report-number byte before the 64-byte report (65 bytes
    /// in all). Reads come back as 64 bytes with no such prefix. This is the
    /// form the keyboard accepts.
    LeadingZeroOnWrite,
    /// No prefix in either direction. Known not to work; kept only to re-run
    /// that experiment.
    NoPrefix,
}

/// The exact bytes written for `report` in the given form.
pub open spec fn framed_spec(form: ReportIdForm, report: Seq<u8>) -> Seq<u8> {
    match form {
        ReportIdForm::LeadingZeroOnWrite => seq![0u8] + report,
        ReportIdForm::NoPrefix => report,
    }
}

/// Builds the exact bytes that get written to the hidraw node for a report.
pub fn frame_for_write(form: ReportIdForm, report: &[u8; 64]) -> (buf: Vec<u8>)
    ensures
        buf@ == framed_spec(form, report@),
{
    let mut buf: Vec<u8> = Vec::new();
    if let ReportIdForm::LeadingZeroOnWrite = form {
        buf.push(0u8);
    }
    let ghost prefix = buf@;
    let mut i: usize = 0;
    while i < 64
        invariant
            i <= 64,
            buf@.len() == prefix.len() + i,
            prefix.len() <= 1,
            forall|j: int| 0 <= j < prefix.len() ==> #[trigger] buf@[j] == prefix[j],
            forall|j: int| 0 <= j < i ==> #[trigger] buf@[prefix.len() + j] == report@[j],
        decreases 64 - i,
    {
        buf.push(report[i]);
        i = i + 1;
    }
    assert forall|k: int| 0 <= k < buf@.len() implies buf@[k] == (prefix + report@)[k] by {
        if k >= prefix.len() {
            assert(buf@[prefix.len() + (k - prefix.len())] == report@[k - prefix.len()]);
        }
    }
    assert(buf@ =~= prefix + report@);
    assert(buf@ =~= framed_spec(form, report@));
    buf
}

/// `ack` is the device's acknowledgement of `sent`: identical except offset
/// 6, the status byte, which the device flips to 0x55.
pub open spec fn is_ack_of(sent: Seq<u8>, ack: Seq<u8>) -> bool {
    &&& ack[6] == 0x55
    &&& forall|i: int| 0 <= i < 64 && i != 6 ==> sent[i] == ack[i]
}

/// Whether `ack` is a valid acknowledgement of `sent`.
pub fn is_valid_ack(sent: &[u8; 64], ack: &[u8; 64]) -> (ok: bool)
    ensures
        ok == is_ack_of(sent@, ack@),
{
    if ack[6] != 0x55 {
        return false;
    }
    let mut i: usize = 0;
    while i < 64
        invariant
            i <= 64,
            ack@[6] == 0x55,
            forall|j: int| 0 <= j < i && j != 6 ==> sent@[j] == ack@[j],
        decreases 64 - i,
    {
        if i != 6 && sent[i] != ack[i] {
            return false;
        }
        i = i + 1;
    }
    true
}


/// What one read after a write brought back, once the node was readable.
#[derive(Debug, Clone, Copy)]
pub enum AckRead {
    /// The read would have blocked: nothing after all.
    Nothing,
    /// A whole 64-byte report.
    Report([u8; 64]),
}

/// What to do about a read while waiting for an acknowledgement.
#[derive(Debug, Clone)]
pub enum AckVerdict {
    /// The acknowledgement arrived; the write is done.
    Acknowledged,
    /// Nothing yet: wait on, until the deadline.
    KeepWaiting,
    /// Something other than the acknowledgement arrived: abort.
    Rejected(DeviceError),
}

/// The failure when a reply is not the acknowledgement of what was sent.
pub open spec fn bad_ack_text() -> Seq<char> {
    "received a report that doesn't match the expected ACK shape"@
}

/// Judges one read while waiting for the acknowledgement of `sent`: one
/// matching reply is all a write gets; any other reply aborts the
/// transaction, since a half-applied command is worse than a clean stop.
pub fn judge_ack(sent: &[u8; 64], read: AckRead) -> (v: AckVerdict)
    ensures
        match read {
            AckRead::Nothing => v is KeepWaiting,
            AckRead::Report(r) => if is_ack_of(sent@, r@) {
                v is Acknowledged
            } else {
                v matches AckVerdict::Rejected(DeviceError::Io(k, m)) && k == IoKind::InvalidData && m@ == bad_ack_text()
            },
        },
{
    match read {
        AckRead::Nothing => AckVerdict::KeepWaiting,
        AckRead::Report(r) => {
            if is_valid_ack(sent, &r) {
                AckVerdict::Acknowledged
            } else {
                AckVerdict::Rejected(
                    DeviceError::Io(
                        IoKind::InvalidData,
                        String::from_str(
                            "received a report that doesn't match the expected ACK shape",
                        ),
                    ),
                )
            }
        },
    }
}

/// The failure when the acknowledgement did not come in time.
pub open spec fn missing_ack_text() -> Seq<char> {
    "expected 1 ACKs, got 0 before the 500ms deadline"@
}

/// The failure when the half-second deadline passes with no
/// acknowledgement.
pub fn missing_ack() -> (e: DeviceError)
    ensures
        e matches DeviceError::Io(k, m) && k == IoKind::TimedOut && m@ == missing_ack_text(),
{
    DeviceError::Io(IoKind::TimedOut, String::from_str("expected 1 ACKs, got 0 before the 500ms deadline"))
}

/// What one non-blocking `read()` or `write()` on the node gave, retried
/// past interruptions by the caller.
#[derive(Debug)]
pub enum IoOutcome {
    /// It moved this many bytes.
    Bytes(usize),
    /// It would have blocked (`EAGAIN`).
    WouldBlock,
    /// It failed otherwise; the caller has described the failure.
    Failed(DeviceError),
}

/// How many queued reports a drain reads before deciding the node will not
/// go quiet.
pub const DRAIN_MAX_ITERATIONS: usize = 64;

/// Where a drain stands after one read.
#[derive(Debug)]
pub enum DrainStep {
    /// A whole stale report was read; read again. Holds the count so far.
    ReadAgain(usize),
    /// Nothing more is queued. Holds how many reports were drained.
    Drained(usize),
    /// The drain failed.
    Failed(DeviceError),
}

/// The failure of a read during a drain that was neither a whole report nor
/// nothing.
pub open spec fn odd_drain_read_text(n: nat) -> Seq<char> {
    "drain: expected a 64-byte read or EAGAIN, got "@ + decimal(n) + " bytes"@
}

/// One read of a drain that has read `count` stale reports so far: an empty
/// read or one that would block ends it; a whole report is one more; a read
/// of any other length, or a failed read, is an error -- a short read is not
/// one drained report.
pub fn drain_step(count: usize, read: IoOutcome) -> (d: DrainStep)
    requires
        count < DRAIN_MAX_ITERATIONS,
    ensures
        match read {
            IoOutcome::Bytes(n) => if n == 0 {
                d == DrainStep::Drained(count)
            } else if n == 64 {
                d == DrainStep::ReadAgain((count + 1) as usize)
            } else {
                d matches DrainStep::Failed(DeviceError::Io(k, m)) && k == IoKind::InvalidData && m@ == odd_drain_read_text(n as nat)
            },
            IoOutcome::WouldBlock => d == DrainStep::Drained(count),
            IoOutcome::Failed(e) => d == DrainStep::Failed(e),
        },
{
    match read {
        IoOutcome::Bytes(n) => {
            if n == 0 {
                DrainStep::Drained(count)
            } else if n == 64 {
                DrainStep::ReadAgain(count + 1)
            } else {
                let mut m = String::from_str("drain: expected a 64-byte read or EAGAIN, got ");
                push_decimal(&mut m, n as u64);
                m.append(" bytes");
                proof {
                    reveal_strlit("drain: expected a 64-byte read or EAGAIN, got ");
                    reveal_strlit(" bytes");
                }
                DrainStep::Failed(DeviceError::Io(IoKind::InvalidData, m))
            }
        },
        IoOutcome::WouldBlock => DrainStep::Drained(count),
        IoOutcome::Failed(e) => DrainStep::Failed(e),
    }
}

/// The failure when the node is still readable after a full drain.
pub open spec fn restless_node_text() -> Seq<char> {
    "device still readable after draining 64 reports -- something is wrong, refusing to proceed with a write against a node that won't go quiet"@
}

/// The failure when a drain has read `DRAIN_MAX_ITERATIONS` reports and the
/// node still has more: a write against it would be read back wrongly.
pub fn restless_node() -> (e: DeviceError)
    ensures
        e matches DeviceError::Io(k, m) && k == IoKind::Other && m@ == restless_node_text(),
{
    DeviceError::Io(
        IoKind::Other,
        String::from_str(
            "device still readable after draining 64 reports -- something is wrong, refusing to proceed with a write against a node that won't go quiet",
        ),
    )
}

/// The failure of a read of any length but a whole report.
pub open spec fn odd_read_text(n: nat) -> Seq<char> {
    "expected a 64-byte read, got "@ + decimal(n)
}

/// One read while waiting for an acknowledgement, `buf` holding what it
/// read: a whole report, nothing yet, or an error -- reads of this
/// interface are always exactly 64 bytes.
pub fn read_reply(read: IoOutcome, buf: [u8; 64]) -> (r: Result<AckRead, DeviceError>)
    ensures
        match read {
            IoOutcome::Bytes(n) => if n == 64 {
                r == Ok::<AckRead, DeviceError>(AckRead::Report(buf))
            } else {
                r matches Err(DeviceError::Io(k, m)) && k == IoKind::InvalidData && m@ == odd_read_text(n as nat)
            },
            IoOutcome::WouldBlock => r == Ok::<AckRead, DeviceError>(AckRead::Nothing),
            IoOutcome::Failed(e) => r == Err::<AckRead, DeviceError>(e),
        },
{
    match read {
        IoOutcome::Bytes(n) => {
            if n == 64 {
                Ok(AckRead::Report(buf))
            } else {
                let mut m = String::from_str("expected a 64-byte read, got ");
                push_decimal(&mut m, n as u64);
                proof {
                    reveal_strlit("expected a 64-byte read, got ");
                }
                Err(DeviceError::Io(IoKind::InvalidData, m))
            }
        },
        IoOutcome::WouldBlock => Ok(AckRead::Nothing),
        IoOutcome::Failed(e) => Err(e),
    }
}

/// What to do after one `write()` of a framed report.
#[derive(Debug)]
pub enum WriteStep {
    /// All of it went out.
    Written,
    /// The send queue is full: wait for room, until the deadline.
    WaitForRoom,
    /// The write failed.
    Failed(DeviceError),
}

/// The failure of a write that moved only part of the frame.
pub open spec fn short_write_text(n: nat, len: nat) -> Seq<char> {
    "short write: "@ + decimal(n) + " of "@ + decimal(len) + " bytes"@
}

/// One `write()` of a frame of `len` bytes: done when all of it went out,
/// wait when the queue is full, an error otherwise.
pub fn write_step(len: usize, wrote: IoOutcome) -> (w: WriteStep)
    ensures
        match wrote {
            IoOutcome::Bytes(n) => if n == len {
                w is Written
            } else {
                w matches WriteStep::Failed(DeviceError::Io(k, m)) && k == IoKind::WriteZero && m@ == short_write_text(n as nat, len as nat)
            },
            IoOutcome::WouldBlock => w is WaitForRoom,
            IoOutcome::Failed(e) => w == WriteStep::Failed(e),
        },
{
    match wrote {
        IoOutcome::Bytes(n) => {
            if n == len {
                WriteStep::Written
            } else {
                let mut m = String::from_str("short write: ");
                push_decimal(&mut m, n as u64);
                m.append(" of ");
                push_decimal(&mut m, len as u64);
                m.append(" bytes");
                proof {
                    reveal_strlit("short write: ");
                    reveal_strlit(" of ");
                    reveal_strlit(" bytes");
                }
                WriteStep::Failed(DeviceError::Io(IoKind::WriteZero, m))
            }
        },
        IoOutcome::WouldBlock => WriteStep::WaitForRoom,
        IoOutcome::Failed(e) => WriteStep::Failed(e),
    }
}

/// The failure when the send queue stays full past the deadline.
pub open spec fn queue_stuck_text() -> Seq<char> {
    "write() kept returning EAGAIN (device send queue full?) past the deadline"@
}

/// The failure when the send queue never made room before the deadline.
pub fn queue_stuck() -> (e: DeviceError)
    ensures
        e matches DeviceError::Io(k, m) && k == IoKind::TimedOut && m@ == queue_stuck_text(),
{
    DeviceError::Io(IoKind::TimedOut, String::from_str("write() kept returning EAGAIN (device send queue full?) past the deadline"))
}

/// A lowercase hexadecimal digit.
pub open spec fn hex_char(d: int) -> char {
    if d < 10 {
        (48 + d) as char
    } else {
        (87 + d) as char
    }
}

/// Bytes as two lowercase hex digits each, separated by single spaces.
pub open spec fn hex_bytes(s: Seq<u8>) -> Seq<char>
    decreases s.len(),
{
    if s.len() == 0 {
        Seq::empty()
    } else if s.len() == 1 {
        seq![hex_char((s[0] / 16) as int), hex_char((s[0] % 16) as int)]
    } else {
        hex_bytes(s.drop_last()) + seq![' ', hex_char((s.last() / 16) as int), hex_char((s.last() % 16) as int)]
    }
}

fn hex_digit(d: u8) -> (s: &'static str)
    requires
        d < 16,
    ensures
        s@ == seq![hex_char(d as int)],
{
    proof {
        reveal_strlit("0");
        reveal_strlit("1");
        reveal_strlit("2");
        reveal_strlit("3");
        reveal_strlit("4");
        reveal_strlit("5");
        reveal_strlit("6");
        reveal_strlit("7");
        reveal_strlit("8");
        reveal_strlit("9");
        reveal_strlit("a");
        reveal_strlit("b");
        reveal_strlit("c");
        reveal_strlit("d");
        reveal_strlit("e");
        reveal_strlit("f");
    }
    let s = if d == 0 {
        "0"
    } else if d == 1 {
        "1"
    } else if d == 2 {
        "2"
    } else if d == 3 {
        "3"
    } else if d == 4 {
        "4"
    } else if d == 5 {
        "5"
    } else if d == 6 {
        "6"
    } else if d == 7 {
        "7"
    } else if d == 8 {
        "8"
    } else if d == 9 {
        "9"
    } else if d == 10 {
        "a"
    } else if d == 11 {
        "b"
    } else if d == 12 {
        "c"
    } else if d == 13 {
        "d"
    } else if d == 14 {
        "e"
    } else {
        "f"
    };
    assert(s@ =~= seq![hex_char(d as int)]);
    s
}

/// A diagnostic line: `label` followed by the report in hex, the way
/// `YUNZII_DEBUG` shows every report written and read.
pub fn hex_line(label: &str, report: &[u8; 64]) -> (line: String)
    ensures
        line@ == label@ + hex_bytes(report@),
{
    let mut line = String::from_str(label);
    let mut i: usize = 0;
    while i < 64
        invariant
            i <= 64,
            line@ == label@ + hex_bytes(report@.take(i as int)),
        decreases 64 - i,
    {
        let b = report[i];
        assert(report@.take(i + 1).drop_last() =~= report@.take(i as int));
        if i > 0 {
            line.append(" ");
            proof {
                reveal_strlit(" ");
            }
        }
        line.append(hex_digit(b / 16));
        line.append(hex_digit(b % 16));
        proof {
            let t = report@.take(i + 1);
            assert(t.last() == b);
            if i == 0 {
                assert(hex_bytes(report@.take(0)) =~= Seq::<char>::empty());
            }
        }
        assert(line@ =~= label@ + hex_bytes(report@.take(i + 1)));
        i = i + 1;
    }
    assert(report@.take(64) =~= report@);
    line
}

// --- Reading `HID_ID=bus:vendor:product` out of a sysfs uevent ---

/// Whether `c` is an ASCII hexadecimal digit.
pub open spec fn is_hex_digit(c: char) -> bool {
    ||| 48 <= (c as u32) <= 57
    ||| 97 <= (c as u32) <= 102
    ||| 65 <= (c as u32) <= 70
}

/// The value of a hexadecimal digit.
pub open spec fn hex_digit_value(c: char) -> nat {
    if 48 <= (c as u32) <= 57 {
        (c as u32 - 48) as nat
    } else if 97 <= (c as u32) <= 102 {
        (c as u32 - 87) as nat
    } else {
        (c as u32 - 55) as nat
    }
}

/// The value of a run of hexadecimal digits, most significant first.
pub open spec fn hex_value(s: Seq<char>) -> nat
    decreases s.len(),
{
    if s.len() == 0 {
        0
    } else {
        hex_value(s.drop_last()) * 16 + hex_digit_value(s.last())
    }
}

/// Every character of `s` is a hexadecimal digit.
pub open spec fn all_hex(s: Seq<char>) -> bool {
    forall|i: int| 0 <= i < s.len() ==> is_hex_digit(#[trigger] s[i])
}

/// What `u32::from_str_radix(s, 16)` accepts: an optional `+`, then at least
/// one hexadecimal digit, with a value that fits in 32 bits.
pub open spec fn parse_hex_u32(s: Seq<char>) -> Option<nat> {
    let digits = if s.len() > 0 && s[0] == '+' {
        s.skip(1)
    } else {
        s
    };
    if s.len() == 0 || s =~= seq!['+'] {
        None
    } else if all_hex(digits) && hex_value(digits) <= u32::MAX {
        Some(hex_value(digits))
    } else {
        None
    }
}

/// The first index at or after `from` where `s` holds `ch`, or `s.len()`.
pub open spec fn find_char(s: Seq<char>, ch: char, from: int) -> int
    decreases s.len() - from,
{
    if from >= s.len() {
        s.len() as int
    } else if s[from] == ch {
        from
    } else {
        find_char(s, ch, from + 1)
    }
}

/// `HID_ID=`.
pub open spec fn hid_id_prefix() -> Seq<char> {
    seq!['H', 'I', 'D', '_', 'I', 'D', '=']
}

/// What one line says: `None` when it is not a three-field `HID_ID=` line
/// (look further); `Some(r)` when it is, `r` being the vendor and product
/// (each truncated to 16 bits) or `None` when a field is not valid hex.
pub open spec fn hid_id_line_verdict(line: Seq<char>) -> Option<Option<(u16, u16)>> {
    if line.len() >= 7 && line.take(7) =~= hid_id_prefix() {
        let rest = line.skip(7);
        let p1 = find_char(rest, ':', 0);
        let p2 = find_char(rest, ':', p1 + 1);
        let p3 = find_char(rest, ':', p2 + 1);
        if p1 < rest.len() && p2 < rest.len() && p3 == rest.len() {
            match (
                parse_hex_u32(rest.subrange(p1 + 1, p2)),
                parse_hex_u32(rest.subrange(p2 + 1, rest.len() as int)),
            ) {
                (Some(v), Some(p)) => Some(Some(((v % 65536) as u16, (p % 65536) as u16))),
                _ => Some(None),
            }
        } else {
            None
        }
    } else {
        None
    }
}

/// The text of the line that starts at `start` and ends before the newline
/// at `end`: a `\r` directly before that newline is not part of it.
pub open spec fn line_text(c: Seq<char>, start: int, end: int) -> Seq<char> {
    if end < c.len() && end > start && c[end - 1] == '\r' {
        c.subrange(start, end - 1)
    } else {
        c.subrange(start, end)
    }
}

/// The first decisive `HID_ID=` line from `start` on, line by line.
pub open spec fn hid_id_from(c: Seq<char>, start: int) -> Option<(u16, u16)>
    decreases c.len() - start,
{
    if start < 0 || start >= c.len() {
        None
    } else {
        let end = find_char(c, '\n', start);
        match hid_id_line_verdict(line_text(c, start, end)) {
            Some(r) => r,
            None => if start <= end && end + 1 < c.len() {
                hid_id_from(c, end + 1)
            } else {
                None
            },
        }
    }
}

proof fn lemma_find_char_bounds(s: Seq<char>, ch: char, from: int)
    requires
        0 <= from,
    ensures
        from <= find_char(s, ch, from) || from > s.len(),
        find_char(s, ch, from) <= s.len(),
        find_char(s, ch, from) < s.len() ==> s[find_char(s, ch, from)] == ch,
    decreases s.len() - from,
{
    if from < s.len() && s[from] != ch {
        lemma_find_char_bounds(s, ch, from + 1);
    }
}

fn chars_of(s: &str) -> (c: Vec<char>)
    ensures
        c@ == s@,
{
    let n = s.unicode_len();
    let mut c: Vec<char> = Vec::new();
    let mut i: usize = 0;
    while i < n
        invariant
            n == s@.len(),
            i <= n,
            c@ == s@.subrange(0, i as int),
        decreases n - i,
    {
        c.push(s.get_char(i));
        i = i + 1;
        assert(c@ =~= s@.subrange(0, i as int));
    }
    assert(c@ =~= s@);
    c
}

fn sub_chars(c: &Vec<char>, a: usize, b: usize) -> (v: Vec<char>)
    requires
        a <= b <= c@.len(),
    ensures
        v@ == c@.subrange(a as int, b as int),
{
    let mut v: Vec<char> = Vec::new();
    let mut i: usize = a;
    while i < b
        invariant
            a <= i <= b <= c@.len(),
            v@ == c@.subrange(a as int, i as int),
        decreases b - i,
    {
        v.push(c[i]);
        i = i + 1;
        assert(v@ =~= c@.subrange(a as int, i as int));
    }
    v
}

fn find_char_from(c: &Vec<char>, ch: char, from: usize) -> (r: usize)
    requires
        from <= c@.len(),
    ensures
        r == find_char(c@, ch, from as int),
        from <= r <= c@.len(),
{
    let mut i = from;
    while i < c.len()
        invariant
            from <= i <= c@.len(),
            find_char(c@, ch, from as int) == find_char(c@, ch, i as int),
        decreases c@.len() - i,
    {
        if c[i] == ch {
            return i;
        }
        i = i + 1;
    }
    i
}

fn is_hex_char(ch: char) -> (r: Option<u64>)
    ensures
        r.is_some() == is_hex_digit(ch),
        r.is_some() ==> r.unwrap() == hex_digit_value(ch) && r.unwrap() < 16,
{
    let v = ch as u32;
    if 48 <= v && v <= 57 {
        Some((v - 48) as u64)
    } else if 97 <= v && v <= 102 {
        Some((v - 87) as u64)
    } else if 65 <= v && v <= 70 {
        Some((v - 55) as u64)
    } else {
        None
    }
}

proof fn lemma_hex_value_prefix(s: Seq<char>, k: int)
    requires
        0 <= k <= s.len(),
    ensures
        hex_value(s.take(k)) <= hex_value(s),
    decreases s.len() - k,
{
    if k < s.len() {
        lemma_hex_value_prefix(s, k + 1);
        assert(s.take(k + 1).drop_last() =~= s.take(k));
    } else {
        assert(s.take(k) =~= s);
    }
}

fn parse_hex_field(s: &Vec<char>) -> (r: Option<u32>)
    ensures
        r.is_some() == parse_hex_u32(s@).is_some(),
        r.is_some() ==> r.unwrap() as nat == parse_hex_u32(s@).unwrap(),
{
    let n = s.len();
    if n == 0 {
        return None;
    }
    let start: usize = if s[0] == '+' {
        1
    } else {
        0
    };
    if start == 1 && n == 1 {
        assert(s@ =~= seq!['+']);
        return None;
    }
    let ghost digits = s@.skip(start as int);
    assert(!(s@ =~= seq!['+']));
    assert(digits =~= (if s@[0] == '+' {
        s@.skip(1)
    } else {
        s@
    }));
    let mut acc: u64 = 0;
    let mut i: usize = start;
    while i < n
        invariant
            n == s@.len(),
            n > 0,
            !(s@ =~= seq!['+']),
            start <= i <= n,
            start == 0 || start == 1,
            (start == 1) == (s@[0] == '+'),
            digits == s@.skip(start as int),
            digits =~= (if s@[0] == '+' {
                s@.skip(1)
            } else {
                s@
            }),
            all_hex(digits.take(i - start)),
            acc as nat == hex_value(digits.take(i - start)),
            acc <= u32::MAX,
        decreases n - i,
    {
        let d = is_hex_char(s[i]);
        match d {
            None => {
                assert(digits[i - start] == s@[i as int]);
                assert(!all_hex(digits));
                return None;
            },
            Some(dv) => {
                assert(digits.take(i - start + 1).drop_last() =~= digits.take(i - start));
                assert(digits.take(i - start + 1).last() == s@[i as int]);
                acc = acc * 16 + dv;
                i = i + 1;
                assert forall|j: int| 0 <= j < i - start implies is_hex_digit(
                    #[trigger] digits.take(i - start)[j],
                ) by {
                    if j < i - 1 - start {
                        assert(digits.take(i - 1 - start)[j] == digits.take(i - start)[j]);
                    }
                }
                if acc > 0xffff_ffff {
                    proof {
                        lemma_hex_value_prefix(digits, i - start);
                    }
                    assert(!(all_hex(digits) && hex_value(digits) <= u32::MAX));
                    return None;
                }
            },
        }
    }
    assert(digits.take(n - start) =~= digits);
    assert(all_hex(digits) && hex_value(digits) <= u32::MAX);
    assert(parse_hex_u32(s@) == Some(hex_value(digits)));
    Some(acc as u32)
}

fn hid_id_line(line: &Vec<char>) -> (r: Option<Option<(u16, u16)>>)
    ensures
        r == hid_id_line_verdict(line@),
{
    let n = line.len();
    if n < 7 {
        return None;
    }
    let pre = sub_chars(line, 0, 7);
    if !(pre[0] == 'H' && pre[1] == 'I' && pre[2] == 'D' && pre[3] == '_' && pre[4] == 'I'
        && pre[5] == 'D' && pre[6] == '=') {
        assert(!(line@.take(7) =~= hid_id_prefix())) by {
            if line@.take(7) =~= hid_id_prefix() {
                assert(pre@ =~= line@.take(7));
            }
        }
        return None;
    }
    assert(line@.take(7) =~= hid_id_prefix());
    let rest = sub_chars(line, 7, n);
    assert(rest@ =~= line@.skip(7));
    let p1 = find_char_from(&rest, ':', 0);
    if p1 >= rest.len() {
        return None;
    }
    let p2 = find_char_from(&rest, ':', p1 + 1);
    if p2 >= rest.len() {
        return None;
    }
    let p3 = find_char_from(&rest, ':', p2 + 1);
    if p3 < rest.len() {
        return None;
    }
    let vid_text = sub_chars(&rest, p1 + 1, p2);
    let pid_text = sub_chars(&rest, p2 + 1, rest.len());
    let vid = parse_hex_field(&vid_text);
    let pid = parse_hex_field(&pid_text);
    match (vid, pid) {
        (Some(v), Some(p)) => Some(Some(((v % 65536) as u16, (p % 65536) as u16))),
        _ => Some(None),
    }
}

/// Reads the vendor and product IDs from a sysfs `uevent`, e.g. from the
/// line `HID_ID=0003:000028E9:000031C8`. Lines are read in order (a `\r`
/// before a newline does not count); the first `HID_ID=` line with exactly
/// three `:`-separated fields decides: its second and third fields are
/// parsed as 32-bit hexadecimal and truncated to 16 bits, and if either
/// does not parse the answer is `None`.
pub fn parse_hid_id_line(uevent: &str) -> (r: Option<(u16, u16)>)
    ensures
        r == hid_id_from(uevent@, 0),
{
    let c = chars_of(uevent);
    let n = c.len();
    let mut start: usize = 0;
    while start < n
        invariant
            n == c@.len(),
            c@ == uevent@,
            hid_id_from(c@, 0) == hid_id_from(c@, start as int),
        decreases n - start,
    {
        let end = find_char_from(&c, '\n', start);
        let line_end = if end < n && end > start && c[end - 1] == '\r' {
            end - 1
        } else {
            end
        };
        let line = sub_chars(&c, start, line_end);
        assert(line@ == line_text(c@, start as int, end as int));
        match hid_id_line(&line) {
            Some(r) => {
                return r;
            },
            None => {},
        }
        if end >= n - 1 {
            return None;
        }
        start = end + 1;
    }
    None
}


// --- Failures ---

/// Why talking to the keyboard failed.
#[derive(Debug, Clone)]
pub enum DeviceError {
    /// No hidraw node has the keyboard's IDs and config-channel descriptor.
    NoMatchingDevice,
    /// More than one node matches; the library refuses to guess.
    MultipleMatchingDevices(Vec<String>),
    /// The node exists but may not be opened.
    PermissionDenied(String),
    /// A read, write or poll failed: what kind of failure, and the text
    /// that says how.
    Io(IoKind, String),
    /// The user stopped the upload. `note` says what it left behind.
    Cancelled { note: Option<String> },
}

/// The separator the library puts between a message and what it adds.
pub open spec fn sep() -> Seq<char> {
    " -- "@
}

/// The kind of an I/O failure, as `std::io::ErrorKind` names it; kinds
/// this library never tells apart are `Other`.
#[derive(Debug, Clone, Copy, PartialEq, Eq, Structural)]
pub enum IoKind {
    NotFound,
    PermissionDenied,
    BrokenPipe,
    WouldBlock,
    Interrupted,
    InvalidData,
    TimedOut,
    WriteZero,
    Other,
}

/// The text a `DeviceError` is reported with.
pub open spec fn device_error_text(e: DeviceError) -> Seq<char> {
    match e {
        DeviceError::NoMatchingDevice => "no /dev/hidraw* node matches the Yunzii B75 Pro Max config channel (VID 28e9, PID 31c8). Is the keyboard plugged in via USB-C?"@,
        DeviceError::MultipleMatchingDevices(paths) =>
            "more than one /dev/hidraw* node matches the expected identity, refusing to guess: "@
                + path_list_text(strings_view(paths@)),
        DeviceError::PermissionDenied(path) => "permission denied opening "@ + path_debug_text(path@)
            + ". Install udev/99-yunzii-b75.rules to /etc/udev/rules.d/, then: sudo udevadm control --reload-rules && sudo udevadm trigger, then replug the keyboard."@,
        DeviceError::Io(_, m) => "I/O error: "@ + m@,
        DeviceError::Cancelled { note } => match note {
            None => "cancelled"@,
            Some(n) => "cancelled"@ + sep() + n@,
        },
    }
}

/// The hint added to an I/O failure that happened after the node was opened.
pub open spec fn reconnect_hint_text(path: Seq<char>) -> Seq<char> {
    " -- the device node "@ + path_debug_text(path)
        + " may have changed (e.g. unplugged/replugged mid-operation); re-run discovery rather than retrying this handle"@
}

impl DeviceError {
    /// The text this failure is reported with.
    pub fn message(&self) -> (m: String)
        ensures
            m@ == device_error_text(*self),
    {
        match self {
            DeviceError::NoMatchingDevice => String::from_str(
                "no /dev/hidraw* node matches the Yunzii B75 Pro Max config channel (VID 28e9, PID 31c8). Is the keyboard plugged in via USB-C?",
            ),
            DeviceError::MultipleMatchingDevices(paths) => {
                let mut m = String::from_str(
                    "more than one /dev/hidraw* node matches the expected identity, refusing to guess: ",
                );
                let list = debug_path_list(paths);
                m.append(list.as_str());
                m
            },
            DeviceError::PermissionDenied(path) => {
                let mut m = String::from_str("permission denied opening ");
                let quoted = debug_path(path.as_str());
                m.append(quoted.as_str());
                m.append(
                    ". Install udev/99-yunzii-b75.rules to /etc/udev/rules.d/, then: sudo udevadm control --reload-rules && sudo udevadm trigger, then replug the keyboard.",
                );
                m
            },
            DeviceError::Io(_, e) => {
                let mut m = String::from_str("I/O error: ");
                m.append(e.as_str());
                m
            },
            DeviceError::Cancelled { note } => {
                let mut m = String::from_str("cancelled");
                match note {
                    None => {},
                    Some(n) => {
                        m.append(" -- ");
                        m.append(n.as_str());
                    },
                }
                m
            },
        }
    }

    /// Adds a hint that the device node may have changed since it was
    /// opened (hidraw numbering is not stable across a replug), so the fix
    /// is to re-run discovery. Only an I/O failure is changed: the other
    /// failures already say what to do.
    pub fn with_reconnect_hint(self, path: &str) -> (e: Self)
        ensures
            match self {
                DeviceError::Io(k, m) => e matches DeviceError::Io(k2, m2) && k2 == k && m2@ == m@
                    + reconnect_hint_text(path@),
                _ => e == self,
            },
    {
        match self {
            DeviceError::Io(k, m) => {
                let mut m = m;
                m.append(" -- the device node ");
                let quoted = debug_path(path);
                m.append(quoted.as_str());
                m.append(
                    " may have changed (e.g. unplugged/replugged mid-operation); re-run discovery rather than retrying this handle",
                );
                DeviceError::Io(k, m)
            },
            other => other,
        }
    }

    /// Adds what a failed or cancelled upload left on the keyboard. An I/O
    /// failure gets it after its text; a cancellation adds it to its note,
    /// after any note already there; other failures are unchanged.
    pub fn with_note(self, note: &str) -> (e: Self)
        ensures
            match self {
                DeviceError::Io(k, m) => e matches DeviceError::Io(k2, m2) && k2 == k && m2@ == m@ + sep() + note@,
                DeviceError::Cancelled { note: None } => e matches DeviceError::Cancelled {
                    note: Some(n),
                } && n@ == note@,
                DeviceError::Cancelled { note: Some(prev) } => e matches DeviceError::Cancelled {
                    note: Some(n),
                } && n@ == prev@ + sep() + note@,
                _ => e == self,
            },
    {
        match self {
            DeviceError::Io(k, m) => {
                let mut m = m;
                m.append(" -- ");
                m.append(note);
                DeviceError::Io(k, m)
            },
            DeviceError::Cancelled { note: None } => DeviceError::Cancelled {
                note: Some(String::from_str(note)),
            },
            DeviceError::Cancelled { note: Some(prev) } => {
                let mut n = prev;
                n.append(" -- ");
                n.append(note);
                DeviceError::Cancelled { note: Some(n) }
            },
            other => other,
        }
    }
}


// --- Choosing the node ---

/// What the caller read for one entry of `/sys/class/hidraw`: the entry's
/// name, its `device/uevent` text and its `device/report_descriptor` bytes,
/// each `None` when it could not be read.
#[derive(Debug, Clone)]
pub struct HidrawNode {
    pub name: String,
    pub uevent: Option<String>,
    pub descriptor: Option<Vec<u8>>,
}

/// Both conditions hold: the uevent names the keyboard's vendor and product,
/// and the descriptor is exactly the config channel's.
pub open spec fn node_matches(n: HidrawNode) -> bool {
    &&& n.uevent matches Some(u) && hid_id_from(u@, 0) == Some((VENDOR_ID, PRODUCT_ID))
    &&& n.descriptor matches Some(d) && d@ == EXPECTED_REPORT_DESCRIPTOR@
}

/// `root` joined with a relative `name`: a `/` goes between them unless
/// `root` is empty or already ends with one.
pub open spec fn joined_path(root: Seq<char>, name: Seq<char>) -> Seq<char> {
    if root.len() == 0 || root.last() == '/' {
        root + name
    } else {
        root + seq!['/'] + name
    }
}

/// The device paths of the matching nodes, in the order given.
pub open spec fn matching_paths(nodes: Seq<HidrawNode>, dev_root: Seq<char>) -> Seq<Seq<char>>
    decreases nodes.len(),
{
    if nodes.len() == 0 {
        Seq::empty()
    } else {
        let rest = matching_paths(nodes.drop_last(), dev_root);
        if node_matches(nodes.last()) {
            rest.push(joined_path(dev_root, nodes.last().name@))
        } else {
            rest
        }
    }
}

/// `root` joined with `name`, as `Path::join` does for a relative name.
pub fn join_path(root: &str, name: &str) -> (p: String)
    ensures
        p@ == joined_path(root@, name@),
{
    let mut p = String::from_str(root);
    let n = root.unicode_len();
    if n > 0 && root.get_char(n - 1) != '/' {
        p.append("/");
        proof {
            reveal_strlit("/");
        }
    }
    p.append(name);
    assert(p@ =~= joined_path(root@, name@));
    p
}

fn descriptor_is_expected(d: &Vec<u8>) -> (ok: bool)
    ensures
        ok == (d@ == EXPECTED_REPORT_DESCRIPTOR@),
{
    if d.len() != 34 {
        return false;
    }
    let mut i: usize = 0;
    while i < 34
        invariant
            i <= 34,
            d@.len() == 34,
            forall|j: int| 0 <= j < i ==> d@[j] == EXPECTED_REPORT_DESCRIPTOR@[j],
        decreases 34 - i,
    {
        if d[i] != EXPECTED_REPORT_DESCRIPTOR[i] {
            return false;
        }
        i = i + 1;
    }
    assert(d@ =~= EXPECTED_REPORT_DESCRIPTOR@);
    true
}

fn node_is_keyboard(n: &HidrawNode) -> (ok: bool)
    ensures
        ok == node_matches(*n),
{
    let ids_match = match &n.uevent {
        Some(u) => match parse_hid_id_line(u.as_str()) {
            Some((vid, pid)) => vid == VENDOR_ID && pid == PRODUCT_ID,
            None => false,
        },
        None => false,
    };
    if !ids_match {
        return false;
    }
    match &n.descriptor {
        Some(d) => descriptor_is_expected(d),
        None => false,
    }
}

/// Picks the keyboard's config channel among the hidraw entries: a node
/// matches when its uevent names vendor 0x28E9 and product 0x31C8 AND its
/// report descriptor is exactly the expected one. One match gives its path
/// under `dev_root`; none is `NoMatchingDevice`; more than one is
/// `MultipleMatchingDevices` with every matching path, in order.
pub fn find_device(nodes: &Vec<HidrawNode>, dev_root: &str) -> (r: Result<String, DeviceError>)
    ensures
        ({
            let paths = matching_paths(nodes@, dev_root@);
            if paths.len() == 0 {
                r matches Err(DeviceError::NoMatchingDevice)
            } else if paths.len() == 1 {
                r matches Ok(p) && p@ == paths[0]
            } else {
                r matches Err(DeviceError::MultipleMatchingDevices(v)) && strings_view(v@)
                    == paths
            }
        }),
{
    let mut candidates: Vec<String> = Vec::new();
    let mut i: usize = 0;
    while i < nodes.len()
        invariant
            i <= nodes@.len(),
            strings_view(candidates@) == matching_paths(nodes@.take(i as int), dev_root@),
        decreases nodes@.len() - i,
    {
        assert(nodes@.take(i + 1).drop_last() =~= nodes@.take(i as int));
        if node_is_keyboard(&nodes[i]) {
            let p = join_path(dev_root, nodes[i].name.as_str());
            candidates.push(p);
            assert(strings_view(candidates@) =~= matching_paths(nodes@.take(i + 1), dev_root@));
        } else {
            assert(strings_view(candidates@) =~= matching_paths(nodes@.take(i + 1), dev_root@));
        }
        i = i + 1;
    }
    assert(nodes@.take(nodes@.len() as int) =~= nodes@);
    if candidates.len() == 0 {
        Err(DeviceError::NoMatchingDevice)
    } else if candidates.len() == 1 {
        let p = candidates.pop().unwrap();
        assert(strings_view(candidates@.push(p))[0] == p@);
        Ok(p)
    } else {
        Err(DeviceError::MultipleMatchingDevices(candidates))
    }
}

} // verus!

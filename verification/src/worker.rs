//! What the background threads decide: what a probe of the keyboard found,
//! and what a finished job tells the interface. The threads, the device and
//! the channels are the caller's.

use crate::app::{DeviceState, Update};
use crate::exec::{ExecEvent, Phase};
use crate::device::{device_error_text, reconnect_hint_text, sep, DeviceError};
use crate::plan::TOO_MANY_FRAMES;
use vstd::prelude::*;

verus! {

/// `d` is what discovery reports when the search failed with `e`: no
/// keyboard, two of them, a node it may not open, or a scan that broke.
pub open spec fn search_failed_as(e: DeviceError, d: DeviceState) -> bool {
    match e {
        DeviceError::NoMatchingDevice => d == DeviceState::NotFound,
        DeviceError::MultipleMatchingDevices(paths) => d == DeviceState::MultipleMatches(paths),
        DeviceError::PermissionDenied(p) => d == DeviceState::PermissionDenied(p),
        _ => d matches DeviceState::ScanFailed(m) && m@ == device_error_text(e),
    }
}

/// `d` is what discovery reports when the node at `path` was found and
/// opening and draining it gave `r`: opening is what proves access, so a
/// permission failure there is reported as one.
pub open spec fn opened_as(path: Seq<char>, r: Result<(), DeviceError>, d: DeviceState) -> bool {
    match r {
        Ok(()) => d matches DeviceState::Ready(p) && p@ == path,
        Err(DeviceError::PermissionDenied(p)) => d == DeviceState::PermissionDenied(p),
        Err(e) => d matches DeviceState::ScanFailed(m) && m@ == device_error_text(e),
    }
}

/// Looks for the keyboard, and opens it, because looking is not enough:
/// only opening and draining the node shows whether this user may use it.
/// `found` is the search's result; `open_and_drain` is called with the path
/// found, and only then.
pub fn probe<F: FnOnce(&str) -> Result<(), DeviceError>>(
    found: Result<String, DeviceError>,
    open_and_drain: F,
) -> (d: DeviceState)
    requires
        forall|p: &str| open_and_drain.requires((p,)),
    ensures
        match found {
            Err(e) => search_failed_as(e, d),
            Ok(path) => exists|p: &str, r: Result<(), DeviceError>|
                p@ == path@ && #[trigger] open_and_drain.ensures((p,), r) && opened_as(path@, r, d),
        },
{
    let path = match found {
        Ok(p) => p,
        Err(DeviceError::NoMatchingDevice) => return DeviceState::NotFound,
        Err(DeviceError::MultipleMatchingDevices(paths)) => {
            return DeviceState::MultipleMatches(paths);
        },
        Err(DeviceError::PermissionDenied(p)) => return DeviceState::PermissionDenied(p),
        Err(e) => return DeviceState::ScanFailed(e.message()),
    };
    let p = path.as_str();
    let r = open_and_drain(p);
    let d = match r {
        Ok(()) => DeviceState::Ready(path),
        Err(DeviceError::PermissionDenied(p)) => DeviceState::PermissionDenied(p),
        Err(e) => DeviceState::ScanFailed(e.message()),
    };
    assert(opened_as(path@, r, d));
    d
}

/// The text a failed upload is reported with: the failure, the hint that
/// the node may have changed, and what the upload may have left behind.
pub open spec fn upload_failure_text(e: DeviceError, path: Seq<char>, partial: Seq<char>) -> Seq<char> {
    match e {
        DeviceError::Io(_, m) => "I/O error: "@ + m@ + reconnect_hint_text(path) + sep() + partial,
        DeviceError::Cancelled { note } => match note {
            None => "cancelled"@ + sep() + partial,
            Some(n) => "cancelled"@ + sep() + n@ + sep() + partial,
        },
        _ => device_error_text(e),
    }
}

/// How an upload ended, for the interface: `"{label}: done"`, or the failure
/// with the reconnect hint and what may be left on the keyboard. The flag
/// says whether the keyboard must now be treated as gone: any failure but a
/// cancellation says something about the device.
pub fn upload_outcome(label: &str, path: &str, result: Result<(), DeviceError>, partial: &str) -> (out: (
    Result<String, String>,
    bool,
))
    ensures
        match result {
            Ok(()) => out.0 matches Ok(m) && m@ == label@ + ": done"@ && !out.1,
            Err(e) => out.0 matches Err(m) && m@ == upload_failure_text(e, path@, partial@) && out.1
                == !(e is Cancelled),
        },
{
    match result {
        Ok(()) => {
            let mut m = String::from_str(label);
            m.append(": done");
            (Ok(m), false)
        },
        Err(e) => {
            let lost = match e {
                DeviceError::Cancelled { .. } => false,
                _ => true,
            };
            let e2 = e.with_reconnect_hint(path).with_note(partial);
            (Err(e2.message()), lost)
        },
    }
}

/// How a short command ended: its done message, or the failure with the
/// reconnect hint (and the keyboard treated as gone).
pub fn command_outcome(done: &str, path: &str, result: Result<(), DeviceError>) -> (out: (
    Result<String, String>,
    bool,
))
    ensures
        match result {
            Ok(()) => out.0 matches Ok(m) && m@ == done@ && !out.1,
            Err(e) => {
                &&& out.1
                &&& out.0 matches Err(m) && m@ == match e {
                    DeviceError::Io(_, msg) => "I/O error: "@ + msg@ + reconnect_hint_text(path@),
                    _ => device_error_text(e),
                }
            },
        },
{
    match result {
        Ok(()) => (Ok(String::from_str(done)), false),
        Err(e) => (Err(e.with_reconnect_hint(path).message()), true),
    }
}

/// Whether `needle` occurs in `hay`.
pub open spec fn contains_text(hay: Seq<char>, needle: Seq<char>) -> bool {
    exists|i: int| 0 <= i <= hay.len() - needle.len() && #[trigger] hay.subrange(i, i + needle.len()) == needle
}

fn occurs_at(hay: &str, needle: &str, i: usize) -> (r: bool)
    requires
        i + needle@.len() <= hay@.len(),
        hay@.len() <= usize::MAX,
    ensures
        r == (hay@.subrange(i as int, i + needle@.len()) == needle@),
{
    let n = needle.unicode_len();
    let mut j: usize = 0;
    while j < n
        invariant
            j <= n,
            n == needle@.len(),
            i + n <= hay@.len(),
            hay@.len() <= usize::MAX,
            forall|k: int| 0 <= k < j ==> hay@[i + k] == needle@[k],
        decreases n - j,
    {
        if hay.get_char(i + j) != needle.get_char(j) {
            assert(hay@.subrange(i as int, i + n)[j as int] != needle@[j as int]);
            return false;
        }
        j = j + 1;
    }
    assert(hay@.subrange(i as int, i + n) =~= needle@);
    true
}

/// Whether `needle` occurs in `hay`.
pub fn contains(hay: &str, needle: &str) -> (r: bool)
    ensures
        r == contains_text(hay@, needle@),
{
    let h = hay.unicode_len();
    let n = needle.unicode_len();
    if n > h {
        return false;
    }
    let mut i: usize = 0;
    loop
        invariant
            h == hay@.len(),
            n == needle@.len(),
            n <= h,
            i <= h - n,
            forall|k: int| 0 <= k < i ==> #[trigger] hay@.subrange(k, k + n) != needle@,
        decreases h - n - i,
    {
        if occurs_at(hay, needle, i) {
            return true;
        }
        if i == h - n {
            return false;
        }
        i = i + 1;
    }
}

/// The guidance added when the interface is asked to preview a GIF that is
/// too long for it.
pub open spec fn sampling_guidance() -> Seq<char> {
    "\n(the interface cannot sample frames yet -- use the command line: `yunzii-b75-tui set-gif <file> --max-frames 160`)"@
}

/// What the interface shows when a preview could not be built: the
/// planner's message, plus a pointer to the command line when the GIF has
/// more frames than the keyboard stores (recognised by the planner's own
/// phrase, not by its prose).
pub fn preview_failure_text(message: String) -> (m: String)
    ensures
        m@ == if contains_text(message@, TOO_MANY_FRAMES@) {
            message@ + sampling_guidance()
        } else {
            message@
        },
{
    if contains(message.as_str(), TOO_MANY_FRAMES) {
        let mut m = message;
        m.append(
            "\n(the interface cannot sample frames yet -- use the command line: `yunzii-b75-tui set-gif <file> --max-frames 160`)",
        );
        m
    } else {
        message
    }
}

/// What the interface hears of an upload's event: progress, with the frame
/// in flight where there is one; notes as they are; nothing for a finished
/// frame, which the gauge already names (a log line per frame would push
/// everything else out of the log).
pub open spec fn event_update_spec<Pic, Gif>(ev: ExecEvent) -> Option<Update<Pic, Gif>> {
    match ev {
        ExecEvent::Progress { done, total, phase } => Some(
            Update::Progress {
                done,
                total,
                frame: match phase {
                    Phase::Frame { index, of } => Some((index, of)),
                    _ => None,
                },
            },
        ),
        ExecEvent::Note(m) => Some(Update::Note(m)),
        ExecEvent::FrameDone { .. } => None,
    }
}

/// The update, if any, that an upload's event becomes.
pub fn event_update<Pic, Gif>(ev: ExecEvent) -> (u: Option<Update<Pic, Gif>>)
    ensures
        u == event_update_spec::<Pic, Gif>(ev),
{
    match ev {
        ExecEvent::Progress { done, total, phase } => {
            let frame = match phase {
                Phase::Frame { index, of } => Some((index, of)),
                _ => None,
            };
            Some(Update::Progress { done, total, frame })
        },
        ExecEvent::Note(m) => Some(Update::Note(m)),
        ExecEvent::FrameDone { .. } => None,
    }
}

} // verus!

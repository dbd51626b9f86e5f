//! What each screen says, as text: the progress label, the facts shown
//! before an upload, the browser's lines, the status line and the key hints.
//! The terminal code only lays these out and colours them.

use crate::app::{percent_spec, remaining_spec, App, Entry, Running, Screen};
use crate::text::{decimal, push_decimal, strings_view};
use vstd::prelude::*;

verus! {

// --- The progress gauge ---

/// "frame 12/36  " for the frame in flight, counted from one for humans;
/// nothing before a frame has been reported.
pub open spec fn frame_text(frame: Option<(usize, usize)>) -> Seq<char> {
    match frame {
        Some((i, of)) => "frame "@ + decimal(i as nat + 1) + "/"@ + decimal(of as nat) + "  "@,
        None => Seq::empty(),
    }
}

/// A count of seconds as `remaining_secs` gives it, held to `usize`.
pub open spec fn capped(v: int) -> nat {
    if v <= usize::MAX {
        v as nat
    } else {
        usize::MAX as nat
    }
}

/// "  ~45s left" where there is an estimate; nothing where there is none.
pub open spec fn left_text(r: Running, elapsed_ms: int) -> Seq<char> {
    match remaining_spec(r, elapsed_ms) {
        Some(v) => "  ~"@ + decimal(capped(v)) + "s left"@,
        None => Seq::empty(),
    }
}

/// The gauge's label: the frame, then either that the upload is being
/// cancelled or how far along it is and how long is left.
pub open spec fn gauge_label_spec(r: Running, elapsed_ms: int) -> Seq<char> {
    if r.cancelling {
        frame_text(r.frame) + "cancelling…"@
    } else {
        frame_text(r.frame) + decimal(percent_spec(r) as nat) + "%"@ + left_text(r, elapsed_ms)
    }
}

impl Running {
    /// The label on the progress gauge, `elapsed_ms` into the upload.
    pub fn gauge_label(&self, elapsed_ms: u64) -> (s: String)
        requires
            self.done >= 16 && self.total > 0 ==> self.done <= self.total,
            self.frame matches Some((i, _)) ==> i < usize::MAX,
        ensures
            s@ == gauge_label_spec(*self, elapsed_ms as int),
    {
        proof {
            reveal_strlit("frame ");
            reveal_strlit("/");
            reveal_strlit("  ");
            reveal_strlit("cancelling…");
            reveal_strlit("%");
            reveal_strlit("  ~");
            reveal_strlit("s left");
        }
        let mut s = String::new();
        match self.frame {
            Some((i, of)) => {
                s.append("frame ");
                push_decimal(&mut s, (i + 1) as u64);
                s.append("/");
                push_decimal(&mut s, of as u64);
                s.append("  ");
            },
            None => {},
        }
        assert(s@ =~= frame_text(self.frame));
        if self.cancelling {
            s.append("cancelling…");
            return s;
        }
        let p = self.percent();
        push_decimal(&mut s, p as u64);
        s.append("%");
        let ghost before = s@;
        match self.remaining_secs(elapsed_ms) {
            Some(v) => {
                s.append("  ~");
                push_decimal(&mut s, v as u64);
                s.append("s left");
            },
            None => {},
        }
        assert(s@ =~= before + left_text(*self, elapsed_ms as int));
        s
    }
}

// --- Before an upload ---

/// What the confirmation screen states about a decoded file.
#[derive(Debug, Clone, PartialEq, Eq)]
pub enum Facts {
    Picture { bytes: usize, reports: usize },
    Gif {
        /// Frames kept, out of the file's `source`.
        kept: usize,
        source: usize,
        /// The plan's rate, and the one the user chose instead, if any.
        rate: u8,
        rate_override: Option<u8>,
        est_secs: usize,
        /// What the planner noted, one line each.
        notes: Vec<String>,
    },
}

/// The lines that close every confirmation: a blank one and the keys.
pub open spec fn confirm_footer() -> Seq<Seq<char>> {
    seq![Seq::empty(), "Enter to upload · Esc to discard"@]
}

/// The rate line: the rate that will be used, marked where the user chose it.
pub open spec fn rate_line(rate: u8, rate_override: Option<u8>) -> Seq<char> {
    match rate_override {
        Some(r) => decimal(r as nat) + " fps"@ + " (chosen)"@,
        None => decimal(rate as nat) + " fps"@,
    }
}

/// The confirmation screen's lines for these facts.
pub open spec fn confirm_lines_spec(f: Facts) -> Seq<Seq<char>> {
    match f {
        Facts::Picture { bytes, reports } => seq![
            "160x96, "@ + decimal(bytes as nat) + " bytes"@,
            decimal(reports as nat) + " reports"@,
        ] + confirm_footer(),
        Facts::Gif { kept, source, rate, rate_override, est_secs, notes } => seq![
            decimal(kept as nat) + " frames of "@ + decimal(source as nat),
            rate_line(rate, rate_override),
            "~"@ + decimal(est_secs as nat) + "s to upload"@,
        ] + strings_view(notes@) + confirm_footer() + seq!["← → to change the rate"@],
    }
}

fn number_then(n: u64, tail: &str) -> (s: String)
    ensures
        s@ == decimal(n as nat) + tail@,
{
    let mut s = String::new();
    push_decimal(&mut s, n);
    s.append(tail);
    assert(s@ =~= decimal(n as nat) + tail@);
    s
}

/// The lines the confirmation screen shows beside the preview.
pub fn confirm_lines(facts: &Facts) -> (lines: Vec<String>)
    ensures
        strings_view(lines@) == confirm_lines_spec(*facts),
{
    proof {
        reveal_strlit("160x96, ");
        reveal_strlit(" bytes");
        reveal_strlit(" reports");
        reveal_strlit(" frames of ");
        reveal_strlit(" fps");
        reveal_strlit(" (chosen)");
        reveal_strlit("~");
        reveal_strlit("s to upload");
        reveal_strlit("Enter to upload · Esc to discard");
        reveal_strlit("← → to change the rate");
    }
    let mut lines: Vec<String> = Vec::new();
    match facts {
        Facts::Picture { bytes, reports } => {
            let mut first = String::from_str("160x96, ");
            push_decimal(&mut first, *bytes as u64);
            first.append(" bytes");
            lines.push(first);
            lines.push(number_then(*reports as u64, " reports"));
        },
        Facts::Gif { kept, source, rate, rate_override, est_secs, notes } => {
            let mut first = number_then(*kept as u64, " frames of ");
            push_decimal(&mut first, *source as u64);
            lines.push(first);
            match rate_override {
                Some(r) => {
                    let mut l = number_then(*r as u64, " fps");
                    l.append(" (chosen)");
                    lines.push(l);
                },
                None => {
                    lines.push(number_then(*rate as u64, " fps"));
                },
            }
            let mut third = String::from_str("~");
            push_decimal(&mut third, *est_secs as u64);
            third.append("s to upload");
            lines.push(third);
            let ghost head = lines@;
            let mut i: usize = 0;
            while i < notes.len()
                invariant
                    i <= notes@.len(),
                    strings_view(lines@) == strings_view(head) + strings_view(notes@).take(i as int),
                decreases notes@.len() - i,
            {
                let ghost prev = lines@;
                let note = notes[i].clone();
                lines.push(note);
                assert(strings_view(lines@) =~= strings_view(prev).push(notes@[i as int]@));
                assert(strings_view(notes@).take(i + 1) =~= strings_view(notes@).take(i as int).push(
                    notes@[i as int]@,
                ));
                assert(strings_view(lines@) =~= strings_view(head) + strings_view(notes@).take(
                    i + 1,
                ));
                i = i + 1;
            }
            assert(strings_view(notes@).take(notes@.len() as int) =~= strings_view(notes@));
        },
    }
    let ghost body = lines@;
    lines.push(String::new());
    lines.push(String::from_str("Enter to upload · Esc to discard"));
    assert(strings_view(lines@) =~= strings_view(body) + confirm_footer());
    if let Facts::Gif { .. } = facts {
        let ghost with_footer = lines@;
        lines.push(String::from_str("← → to change the rate"));
        assert(strings_view(lines@) =~= strings_view(with_footer).push("← → to change the rate"@));
    }
    assert(strings_view(lines@) =~= confirm_lines_spec(*facts));
    lines
}

// --- The file browser ---

/// The browser's title before the directory: what it is picking.
pub open spec fn browse_heading_spec(for_gif: bool) -> Seq<char> {
    if for_gif {
        " Pick a GIF "@
    } else {
        " Pick a PNG or JPEG "@
    }
}

/// What the browser is picking, for its title and its error pane.
pub fn browse_heading(for_gif: bool) -> (s: &'static str)
    ensures
        s@ == browse_heading_spec(for_gif),
{
    proof {
        reveal_strlit(" Pick a GIF ");
        reveal_strlit(" Pick a PNG or JPEG ");
    }
    if for_gif {
        " Pick a GIF "
    } else {
        " Pick a PNG or JPEG "
    }
}

/// The browser's title: what it is picking, then the directory.
pub fn browse_title(for_gif: bool, dir: &str) -> (s: String)
    ensures
        s@ == browse_heading_spec(for_gif) + "· "@ + dir@ + " "@,
{
    proof {
        reveal_strlit("· ");
        reveal_strlit(" ");
    }
    let mut s = String::from_str(browse_heading(for_gif));
    s.append("· ");
    s.append(dir);
    s.append(" ");
    s
}

/// An entry as the browser lists it: a directory with a trailing slash.
pub open spec fn entry_label_spec(e: Entry) -> Seq<char> {
    if e.is_dir {
        " "@ + e.name@ + "/ "@
    } else {
        " "@ + e.name@ + " "@
    }
}

/// The line for nothing to list.
pub open spec fn empty_listing() -> Seq<char> {
    " (nothing here to upload) "@
}

/// The browser's lines: one per entry, or one that says there is nothing.
pub open spec fn browse_lines_spec(entries: Seq<Entry>) -> Seq<Seq<char>> {
    if entries.len() == 0 {
        seq![empty_listing()]
    } else {
        entries.map_values(|e: Entry| entry_label_spec(e))
    }
}

/// The browser's lines for a listing.
pub fn browse_lines(entries: &Vec<Entry>) -> (lines: Vec<String>)
    ensures
        strings_view(lines@) == browse_lines_spec(entries@),
{
    proof {
        reveal_strlit(" (nothing here to upload) ");
        reveal_strlit(" ");
        reveal_strlit("/ ");
    }
    let mut lines: Vec<String> = Vec::new();
    if entries.len() == 0 {
        lines.push(String::from_str(" (nothing here to upload) "));
        assert(strings_view(lines@) =~= browse_lines_spec(entries@));
        return lines;
    }
    let mut i: usize = 0;
    while i < entries.len()
        invariant
            i <= entries@.len(),
            strings_view(lines@) =~= entries@.take(i as int).map_values(
                |e: Entry| entry_label_spec(e),
            ),
        decreases entries@.len() - i,
    {
        let e = &entries[i];
        let mut l = String::from_str(" ");
        l.append(e.name.as_str());
        if e.is_dir {
            l.append("/ ");
        } else {
            l.append(" ");
        }
        assert(l@ == entry_label_spec(entries@[i as int]));
        let ghost prev = lines@;
        lines.push(l);
        assert(strings_view(lines@) =~= strings_view(prev).push(entry_label_spec(entries@[i as int])));
        assert(entries@.take(i + 1) =~= entries@.take(i as int).push(entries@[i as int]));
        i = i + 1;
    }
    assert(entries@.take(entries@.len() as int) =~= entries@);
    lines
}

// --- The status line and the key hints ---

/// The status line: the quit question while it is open, else the last
/// status, else nothing.
pub open spec fn status_text_spec<Pic, Gif>(a: App<Pic, Gif>) -> Seq<char> {
    if a.quit_confirm {
        "an upload is in progress — cancel it and quit? (y/n)"@
    } else {
        match a.status {
            Some(s) => s@,
            None => Seq::empty(),
        }
    }
}

/// The keys each screen answers to.
pub open spec fn key_hint_spec<Pic, Gif>(s: Screen<Pic, Gif>) -> Seq<char> {
    match s {
        Screen::Menu => "q quit · ↑↓ move · ⏎ run"@,
        Screen::Browse { .. } => "esc back · ↑↓ move · ⏎ open · ⌫ parent · ~ home"@,
        Screen::Confirm(_) => "esc discard · ⏎ upload · ← → rate"@,
        Screen::Running(_) => "esc cancel · q quit"@,
    }
}

/// The first log line that fits in a pane of `pane_rows` rows, two of
/// which are its border: the newest lines are the ones shown.
pub open spec fn first_visible_spec(len: int, pane_rows: int) -> int {
    let inner = if pane_rows < 2 {
        0
    } else {
        pane_rows - 2
    };
    if len < inner {
        0
    } else {
        len - inner
    }
}

impl<Pic, Gif> App<Pic, Gif> {
    /// What the status line says.
    pub fn status_text(&self) -> (s: String)
        ensures
            s@ == status_text_spec(*self),
    {
        proof {
            reveal_strlit("an upload is in progress — cancel it and quit? (y/n)");
        }
        if self.quit_confirm {
            String::from_str("an upload is in progress — cancel it and quit? (y/n)")
        } else {
            match &self.status {
                Some(s) => s.clone(),
                None => String::new(),
            }
        }
    }

    /// The key hints for the screen on show.
    pub fn key_hint(&self) -> (s: &'static str)
        ensures
            s@ == key_hint_spec(self.screen),
    {
        proof {
            reveal_strlit("q quit · ↑↓ move · ⏎ run");
            reveal_strlit("esc back · ↑↓ move · ⏎ open · ⌫ parent · ~ home");
            reveal_strlit("esc discard · ⏎ upload · ← → rate");
            reveal_strlit("esc cancel · q quit");
        }
        match &self.screen {
            Screen::Menu => "q quit · ↑↓ move · ⏎ run",
            Screen::Browse { .. } => "esc back · ↑↓ move · ⏎ open · ⌫ parent · ~ home",
            Screen::Confirm(_) => "esc discard · ⏎ upload · ← → rate",
            Screen::Running(_) => "esc cancel · q quit",
        }
    }

    /// The index of the first log line shown in a pane `pane_rows` high.
    pub fn first_visible(&self, pane_rows: u16) -> (i: usize)
        ensures
            i == first_visible_spec(self.log@.len() as int, pane_rows as int),
            i <= self.log@.len(),
    {
        let inner: usize = if pane_rows < 2 {
            0
        } else {
            (pane_rows - 2) as usize
        };
        if self.log.len() < inner {
            0
        } else {
            self.log.len() - inner
        }
    }
}

} // verus!

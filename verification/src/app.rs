//! What the interactive interface is, separated from how it is drawn.
//!
//! A plain struct and the functions over it: `on_key`, `on_update` and
//! `show_listing`. No terminal, no device, no threads, no clock. Whatever
//! needs one of those -- a directory listing, the cancel flag a worker
//! watches, the time an upload started -- is done by the caller, which hands
//! the result back in. The plans behind a preview are carried as opaque
//! values `Pic` and `Gif`: the state machine moves them, never looks inside,
//! and so uploads exactly the plan that was previewed.

use crate::plan::Note;
use crate::preview::Preview;
use crate::protocol::{Page, GIF_FPS_MAX, GIF_FPS_MIN};
use crate::text::{decimal, push_decimal};
use vstd::prelude::*;

verus! {

// --- The keyboard, as discovery last saw it ---

/// What discovery last found. Five states rather than found/not-found,
/// because the fix differs each time: "no keyboard" is wrong advice when the
/// answer is "you are not in the plugdev group".
#[derive(Debug, Clone, PartialEq, Eq)]
pub enum DeviceState {
    Ready(String),
    NotFound,
    /// The node exists but cannot be opened or read.
    PermissionDenied(String),
    /// Two keyboards match; picking one would be a guess.
    MultipleMatches(Vec<String>),
    /// Discovery itself failed -- an unreadable /sys, say.
    ScanFailed(String),
}

/// The header line for a device state, saying what to do about it.
pub open spec fn device_summary_text(d: DeviceState) -> Seq<char> {
    match d {
        DeviceState::Ready(p) => p@,
        DeviceState::NotFound => "no keyboard found -- rescanning"@,
        DeviceState::PermissionDenied(p) => p@
            + " -- permission denied; install the udev rule (README)"@,
        DeviceState::MultipleMatches(paths) => decimal(paths@.len())
            + " matching devices -- refusing to guess"@,
        DeviceState::ScanFailed(e) => "scan failed: "@ + e@ + " -- rescanning"@,
    }
}

/// Whether `std::path::Path` holds the two paths equal: the same
/// components, so `/dev//hidraw5` and `/dev/hidraw5` are one path.
pub uninterp spec fn same_path(a: Seq<char>, b: Seq<char>) -> bool;

/// `Path::new(a) == Path::new(b)` (std's `PartialEq` for `Path`, which
/// compares components). Claims: the result is named by `same_path`, and
/// equal text is an equal path (std's `eq` is an equivalence).
#[verifier::external_body]
fn paths_equal(a: &str, b: &str) -> (r: bool)
    ensures
        r == same_path(a@, b@),
        a@ == b@ ==> r,
{
    std::path::Path::new(a) == std::path::Path::new(b)
}

/// Two device states say the same thing: the same variant with the same
/// paths (compared as paths) or the same text in it.
pub open spec fn same_state(a: DeviceState, b: DeviceState) -> bool {
    match (a, b) {
        (DeviceState::Ready(p), DeviceState::Ready(q)) => same_path(p@, q@),
        (DeviceState::NotFound, DeviceState::NotFound) => true,
        (DeviceState::PermissionDenied(p), DeviceState::PermissionDenied(q)) => same_path(p@, q@),
        (DeviceState::MultipleMatches(p), DeviceState::MultipleMatches(q)) => p@.len()
            == q@.len() && forall|i: int| 0 <= i < p@.len() ==> same_path((#[trigger] p@[i])@, q@[i]@),
        (DeviceState::ScanFailed(p), DeviceState::ScanFailed(q)) => p@ == q@,
        _ => false,
    }
}

fn same_paths(a: &Vec<String>, b: &Vec<String>) -> (r: bool)
    ensures
        r == (a@.len() == b@.len() && forall|i: int| 0 <= i < a@.len() ==> same_path((#[trigger] a@[i])@, b@[i]@)),
{
    if a.len() != b.len() {
        return false;
    }
    let mut i: usize = 0;
    while i < a.len()
        invariant
            i <= a@.len(),
            a@.len() == b@.len(),
            forall|j: int| 0 <= j < i ==> same_path((#[trigger] a@[j])@, b@[j]@),
        decreases a@.len() - i,
    {
        if !paths_equal(a[i].as_str(), b[i].as_str()) {
            return false;
        }
        i = i + 1;
    }
    true
}

impl DeviceState {
    /// Whether the keyboard was found and opened.
    pub fn is_ready(&self) -> (r: bool)
        ensures
            r == (*self is Ready),
    {
        match self {
            DeviceState::Ready(_) => true,
            _ => false,
        }
    }

    /// One line for the header, saying what to do about it. Never empty.
    pub fn summary(&self) -> (s: String)
        ensures
            s@ == device_summary_text(*self),
            !(*self is Ready) ==> s@.len() > 0,
    {
        match self {
            DeviceState::Ready(p) => p.clone(),
            DeviceState::NotFound => {
                let s = String::from_str("no keyboard found -- rescanning");
                proof {
                    reveal_strlit("no keyboard found -- rescanning");
                }
                s
            },
            DeviceState::PermissionDenied(p) => {
                let mut s = p.clone();
                s.append(" -- permission denied; install the udev rule (README)");
                proof {
                    reveal_strlit(" -- permission denied; install the udev rule (README)");
                }
                s
            },
            DeviceState::MultipleMatches(paths) => {
                let mut s = String::new();
                push_decimal(&mut s, paths.len() as u64);
                s.append(" matching devices -- refusing to guess");
                proof {
                    reveal_strlit(" matching devices -- refusing to guess");
                }
                s
            },
            DeviceState::ScanFailed(e) => {
                let mut s = String::from_str("scan failed: ");
                s.append(e.as_str());
                s.append(" -- rescanning");
                proof {
                    reveal_strlit("scan failed: ");
                }
                s
            },
        }
    }

    /// Whether `other` says the same thing as this state.
    pub fn same_as(&self, other: &DeviceState) -> (r: bool)
        ensures
            r == same_state(*self, *other),
    {
        match (self, other) {
            (DeviceState::Ready(p), DeviceState::Ready(q)) => paths_equal(p.as_str(), q.as_str()),
            (DeviceState::NotFound, DeviceState::NotFound) => true,
            (DeviceState::PermissionDenied(p), DeviceState::PermissionDenied(q)) => paths_equal(p.as_str(), q.as_str()),
            (DeviceState::MultipleMatches(p), DeviceState::MultipleMatches(q)) => same_paths(p, q),
            (DeviceState::ScanFailed(p), DeviceState::ScanFailed(q)) => *p == *q,
            _ => false,
        }
    }
}


// --- The menu ---

/// The actions in the menu, in order.
#[derive(Debug, Clone, Copy, PartialEq, Eq, Structural)]
pub enum Action {
    SetTime,
    ShowHome,
    ShowPicture,
    ShowGif,
    ClearPicture,
    UploadPicture,
    UploadGif,
}

/// The menu's actions, top to bottom.
pub open spec fn action_at(i: int) -> Action {
    if i == 0 {
        Action::SetTime
    } else if i == 1 {
        Action::ShowHome
    } else if i == 2 {
        Action::ShowPicture
    } else if i == 3 {
        Action::ShowGif
    } else if i == 4 {
        Action::ClearPicture
    } else if i == 5 {
        Action::UploadPicture
    } else {
        Action::UploadGif
    }
}

/// The number of menu entries.
pub const ACTION_COUNT: usize = 7;

/// What the menu shows for each action.
pub open spec fn action_label(a: Action) -> Seq<char> {
    match a {
        Action::SetTime => "Set time"@,
        Action::ShowHome => "Show home page"@,
        Action::ShowPicture => "Show picture page"@,
        Action::ShowGif => "Show GIF page"@,
        Action::ClearPicture => "Clear picture"@,
        Action::UploadPicture => "Upload picture…"@,
        Action::UploadGif => "Upload GIF…"@,
    }
}

impl Action {
    /// Every action, in menu order.
    pub const ALL: [Action; 7] = [
        Action::SetTime,
        Action::ShowHome,
        Action::ShowPicture,
        Action::ShowGif,
        Action::ClearPicture,
        Action::UploadPicture,
        Action::UploadGif,
    ];

    /// The action at menu position `i`.
    pub fn at(i: usize) -> (a: Action)
        requires
            i < ACTION_COUNT,
        ensures
            a == action_at(i as int),
    {
        if i == 0 {
            Action::SetTime
        } else if i == 1 {
            Action::ShowHome
        } else if i == 2 {
            Action::ShowPicture
        } else if i == 3 {
            Action::ShowGif
        } else if i == 4 {
            Action::ClearPicture
        } else if i == 5 {
            Action::UploadPicture
        } else {
            Action::UploadGif
        }
    }

    /// What the menu shows for this action.
    pub fn label(self) -> (s: &'static str)
        ensures
            s@ == action_label(self),
    {
        proof {
            reveal_strlit("Set time");
            reveal_strlit("Show home page");
            reveal_strlit("Show picture page");
            reveal_strlit("Show GIF page");
            reveal_strlit("Clear picture");
            reveal_strlit("Upload picture…");
            reveal_strlit("Upload GIF…");
        }
        match self {
            Action::SetTime => "Set time",
            Action::ShowHome => "Show home page",
            Action::ShowPicture => "Show picture page",
            Action::ShowGif => "Show GIF page",
            Action::ClearPicture => "Clear picture",
            Action::UploadPicture => "Upload picture…",
            Action::UploadGif => "Upload GIF…",
        }
    }
}


// --- The rest of the state ---

/// A file or directory the browser offers.
#[derive(Debug, Clone, PartialEq, Eq)]
pub struct Entry {
    pub name: String,
    pub path: String,
    pub is_dir: bool,
}

/// A decoded file waiting for a second, explicit keypress. Nothing reaches
/// the keyboard until then, and the plan the preview was built from is the
/// plan that gets uploaded.
#[derive(Debug)]
#[allow(inconsistent_fields)]
pub enum Pending<Pic, Gif> {
    Picture { path: String, plan: Pic, preview: Preview },
    Gif {
        path: String,
        plan: Gif,
        preview: Preview,
        /// The plan's own rate.
        rate: u8,
        /// `None` is "as the file asks"; `Some` is the equivalent of
        /// `--fps`.
        rate_override: Option<u8>,
    },
}

/// An upload in progress.
#[derive(Debug, Clone)]
pub struct Running {
    pub label: String,
    /// Reports acknowledged so far, out of `total`.
    pub done: usize,
    pub total: usize,
    /// The frame in flight and the frame count, once one has been reported.
    pub frame: Option<(usize, usize)>,
    /// The planner's estimate, used until there is enough to measure.
    pub est_secs: Option<usize>,
    /// The user asked to stop; the caller passes that on to the worker.
    pub cancelling: bool,
}

/// Seconds left: the planner's estimate for the first sixteen reports
/// (before that the measured rate is noise), then the measured time per
/// report times the reports left, rounded half up.
pub open spec fn remaining_spec(r: Running, elapsed_ms: int) -> Option<int> {
    if r.done < 16 || r.total == 0 {
        match r.est_secs {
            Some(s) => Some(s as int),
            None => None,
        }
    } else {
        Some((2 * (r.total - r.done) * elapsed_ms + 1000 * r.done) / (2000 * r.done))
    }
}

/// How far along, in whole percent: `done * 100 / total` rounded down,
/// never above 100, and 0 while nothing is planned.
pub open spec fn percent_spec(r: Running) -> int {
    if r.total == 0 {
        0
    } else if r.done as int * 100 / r.total as int > 100 {
        100
    } else {
        r.done as int * 100 / r.total as int
    }
}

impl Running {
    /// Seconds left, given how long the upload has been running.
    pub fn remaining_secs(&self, elapsed_ms: u64) -> (s: Option<usize>)
        requires
            self.done >= 16 && self.total > 0 ==> self.done <= self.total,
        ensures
            match remaining_spec(*self, elapsed_ms as int) {
                None => s is None,
                Some(v) => if v <= usize::MAX { s == Some(v as usize) } else { s == Some(usize::MAX) },
            },
    {
        if self.done < 16 || self.total == 0 {
            return self.est_secs;
        }
        let left = (self.total - self.done) as u128;
        let done = self.done as u128;
        let e = elapsed_ms as u128;
        assert(left * e <= 0xffff_ffff_ffff_ffff * 0xffff_ffff_ffff_ffff) by (nonlinear_arith)
            requires
                left <= usize::MAX,
                usize::MAX <= 0xffff_ffff_ffff_ffff,
                e <= 0xffff_ffff_ffff_ffff,
        ;
        let p = left * e;
        let q = 1000 * done;
        // p / q rounded half up, without forming 2 * p.
        let v = p / q + if 2 * (p % q) >= q {
            1
        } else {
            0
        };
        assert(v == (2 * p + q) / (2 * q)) by (nonlinear_arith)
            requires
                q > 0,
                v == p / q + if 2 * (p % q) >= q {
                    1int
                } else {
                    0int
                },
        ;
        assert(2 * p + q == 2 * (self.total - self.done) * elapsed_ms + 1000 * self.done
            && 2 * q == 2000 * self.done) by (nonlinear_arith)
            requires
                p == left * e,
                q == 1000 * done,
                left == self.total - self.done,
                e == elapsed_ms,
                done == self.done,
        ;
        if v > usize::MAX as u128 {
            Some(usize::MAX)
        } else {
            Some(v as usize)
        }
    }

    /// How far along, in whole percent, never above 100.
    pub fn percent(&self) -> (p: u16)
        ensures
            p == percent_spec(*self),
    {
        if self.total == 0 {
            return 0;
        }
        let p = (self.done as u128) * 100 / (self.total as u128);
        if p > 100 {
            100
        } else {
            p as u16
        }
    }
}

/// A job for the worker thread.
#[derive(Debug)]
pub enum Job<Pic, Gif> {
    Preview { path: String, for_gif: bool },
    SetTime,
    SwitchPage(Page),
    ClearPicture,
    UploadPicture(Pic),
    /// The plan, and the rate to upload it at.
    UploadGif { plan: Gif, rate: u8 },
}

/// Something that happened elsewhere.
#[derive(Debug)]
pub enum Update<Pic, Gif> {
    Device(DeviceState),
    Preview(Result<Pending<Pic, Gif>, String>),
    Started { label: String, total: usize, est_secs: Option<usize> },
    Progress { done: usize, total: usize, frame: Option<(usize, usize)> },
    Note(String),
    Finished(Result<String, String>),
}

/// A key, reduced to what this interface cares about.
#[derive(Debug, Clone, Copy, PartialEq, Eq, Structural)]
pub enum Key {
    Up,
    Down,
    Left,
    Right,
    Enter,
    Esc,
    Backspace,
    Char(char),
}

/// Which directory the browser wants listed.
#[derive(Debug, Clone, PartialEq, Eq)]
pub enum Listing {
    /// The process's current directory (`/` if it has none).
    Current,
    /// The user's home directory.
    Home,
    Dir(String),
}

/// What a key asks of the caller.
#[derive(Debug)]
pub enum KeyOutcome<Pic, Gif> {
    Nothing,
    /// Hand this job to the worker.
    Start(Job<Pic, Gif>),
    /// List this directory for the browser and pass the result to
    /// `show_listing` (or call `home_missing` if there is no home).
    List { target: Listing, for_gif: bool },
}

/// What the interface is doing right now.
#[derive(Debug)]
pub enum Screen<Pic, Gif> {
    Menu,
    /// Picking a file for an upload.
    Browse { for_gif: bool, dir: String, entries: Vec<Entry>, selected: usize, error: Option<String> },
    Confirm(Box<Pending<Pic, Gif>>),
    Running(Running),
}

/// The interface.
pub struct App<Pic, Gif> {
    pub device: DeviceState,
    pub screen: Screen<Pic, Gif>,
    /// The highlighted menu entry.
    pub selected: usize,
    pub log: Vec<String>,
    pub status: Option<String>,
    /// Set when the user asked to quit during a job and has not answered yet.
    pub quit_confirm: bool,
    pub should_quit: bool,
}

/// The log after one more line: the newest at the end, the oldest dropped
/// once it holds more than 200.
pub open spec fn logged(log: Seq<String>, s: String) -> Seq<String> {
    let l = log.push(s);
    if l.len() > 200 {
        l.drop_first()
    } else {
        l
    }
}

/// `b` is `a` with `s` noted: appended to the log and shown as the status.
pub open spec fn noted<Pic, Gif>(a: App<Pic, Gif>, b: App<Pic, Gif>, s: Seq<char>) -> bool {
    &&& b.log@.len() == logged(a.log@, b.log@.last()).len()
    &&& b.log@ == logged(a.log@, b.log@.last())
    &&& b.log@.last()@ == s
    &&& b.status matches Some(t) && t@ == s
}

/// `b` is `a` except, possibly, for the log and the status.
pub open spec fn same_but_log<Pic, Gif>(a: App<Pic, Gif>, b: App<Pic, Gif>) -> bool {
    b == App { log: b.log, status: b.status, ..a }
}

/// A jump to the next entry down a list of `len`, stopping at the end.
pub open spec fn step_down(i: int, len: int) -> int {
    let last = if len == 0 {
        0
    } else {
        len - 1
    };
    if i + 1 < last {
        i + 1
    } else {
        last
    }
}

/// A jump up, stopping at the top.
pub open spec fn step_up(i: int) -> int {
    if i == 0 {
        0
    } else {
        i - 1
    }
}

/// The job a menu action starts directly; `None` for the two that open a
/// browser first.
pub open spec fn menu_job<Pic, Gif>(a: Action) -> Option<Job<Pic, Gif>> {
    match a {
        Action::SetTime => Some(Job::SetTime),
        Action::ShowHome => Some(Job::SwitchPage(Page::Home)),
        Action::ShowPicture => Some(Job::SwitchPage(Page::Picture)),
        Action::ShowGif => Some(Job::SwitchPage(Page::Gif)),
        Action::ClearPicture => Some(Job::ClearPicture),
        _ => None,
    }
}

/// A key in the menu.
pub open spec fn menu_key_spec<Pic, Gif>(
    a: App<Pic, Gif>,
    key: Key,
    b: App<Pic, Gif>,
    out: KeyOutcome<Pic, Gif>,
) -> bool {
    match key {
        Key::Char('q') => b == App { should_quit: true, ..a } && out is Nothing,
        Key::Up => b == App { selected: step_up(a.selected as int) as usize, ..a } && out is Nothing,
        Key::Down => b == App { selected: step_down(a.selected as int, 7) as usize, ..a }
            && out is Nothing,
        Key::Enter => {
            let action = action_at(a.selected as int);
            if !(a.device is Ready) {
                same_but_log(a, b) && noted(a, b, "no keyboard: this action needs one"@)
                    && out is Nothing
            } else {
                b == a && match menu_job::<Pic, Gif>(action) {
                    Some(job) => out == KeyOutcome::Start(job),
                    None => out == KeyOutcome::<Pic, Gif>::List {
                        target: Listing::Current,
                        for_gif: action == Action::UploadGif,
                    },
                }
            }
        },
        _ => b == a && out is Nothing,
    }
}

/// The directory above `path`, as `std::path::Path::parent` computes it.
pub uninterp spec fn path_parent(path: Seq<char>) -> Option<Seq<char>>;

/// `std::path::Path::parent` on a path given as text. Claims: the result is
/// named by `path_parent`, and a path that is empty or is the root has no
/// parent (std's documentation: `None` when the path terminates in a root or
/// prefix, or is empty).
#[verifier::external_body]
fn parent_dir(path: &str) -> (r: Option<String>)
    ensures
        match r {
            None => path_parent(path@) is None,
            Some(p) => path_parent(path@) == Some(p@),
        },
        path@ == "/"@ || path@.len() == 0 ==> r is None,
{
    match std::path::Path::new(path).parent() {
        Some(p) => Some(p.to_string_lossy().into_owned()),
        None => None,
    }
}

/// A key in the file browser.
pub open spec fn browse_key_spec<Pic, Gif>(
    a: App<Pic, Gif>,
    key: Key,
    b: App<Pic, Gif>,
    out: KeyOutcome<Pic, Gif>,
) -> bool {
    match a.screen {
        Screen::Browse { for_gif, dir, entries, selected, error } => match key {
            Key::Esc | Key::Char('q') => b == App { screen: Screen::Menu, ..a } && out is Nothing,
            Key::Up => b == App {
                screen: Screen::Browse {
                    for_gif,
                    dir,
                    entries,
                    selected: step_up(selected as int) as usize,
                    error,
                },
                ..a
            } && out is Nothing,
            Key::Down => b == App {
                screen: Screen::Browse {
                    for_gif,
                    dir,
                    entries,
                    selected: step_down(selected as int, entries@.len() as int) as usize,
                    error,
                },
                ..a
            } && out is Nothing,
            Key::Backspace => b == a && match path_parent(dir@) {
                // At the root this does nothing rather than looping.
                None => out is Nothing,
                Some(p) => out matches KeyOutcome::List { target: Listing::Dir(d), for_gif: g }
                    && d@ == p && g == for_gif,
            },
            Key::Char('~') => b == a && out == KeyOutcome::<Pic, Gif>::List {
                target: Listing::Home,
                for_gif,
            },
            Key::Enter => if selected >= entries@.len() {
                b == a && out is Nothing
            } else {
                let e = entries@[selected as int];
                if e.is_dir {
                    &&& b == a
                    &&& out matches KeyOutcome::List { target: Listing::Dir(d), for_gif: g }
                        && d@ == e.path@ && g == for_gif
                } else {
                    &&& same_but_log(a, b)
                    &&& noted(a, b, "reading "@ + e.name@ + "…"@)
                    &&& out matches KeyOutcome::Start(Job::Preview { path, for_gif: g })
                        && path@ == e.path@ && g == for_gif
                }
            },
            _ => b == a && out is Nothing,
        },
        _ => true,
    }
}

/// The rate a GIF pending upload goes out at: the override if one was set,
/// else the plan's own.
pub open spec fn upload_rate(rate: u8, rate_override: Option<u8>) -> u8 {
    match rate_override {
        Some(r) => r,
        None => rate,
    }
}

/// A key on the confirm screen.
pub open spec fn confirm_key_spec<Pic, Gif>(
    a: App<Pic, Gif>,
    key: Key,
    b: App<Pic, Gif>,
    out: KeyOutcome<Pic, Gif>,
) -> bool {
    match a.screen {
        Screen::Confirm(p) => match key {
            Key::Esc | Key::Char('q') => b.screen is Menu && noted(a, b, "discarded"@) && b == App {
                screen: Screen::Menu,
                log: b.log,
                status: b.status,
                ..a
            } && out is Nothing,
            Key::Left | Key::Right => out is Nothing && match *p {
                Pending::Gif { path, plan, preview, rate, rate_override } => {
                    let current = upload_rate(rate, rate_override);
                    let next = if key == Key::Left {
                        if current <= GIF_FPS_MIN {
                            GIF_FPS_MIN
                        } else {
                            (current - 1) as u8
                        }
                    } else {
                        if current >= GIF_FPS_MAX {
                            GIF_FPS_MAX
                        } else {
                            (current + 1) as u8
                        }
                    };
                    b == App {
                        screen: Screen::Confirm(
                            Box::new(
                                Pending::Gif { path, plan, preview, rate, rate_override: Some(next) },
                            ),
                        ),
                        ..a
                    }
                },
                _ => b == a,
            },
            Key::Enter => if !(a.device is Ready) {
                same_but_log(a, b) && noted(a, b, "no keyboard: cannot upload"@) && out is Nothing
            } else {
                b == App { screen: Screen::Menu, ..a } && match *p {
                    Pending::Picture { plan, .. } => out == KeyOutcome::<Pic, Gif>::Start(
                        Job::UploadPicture(plan),
                    ),
                    Pending::Gif { plan, rate, rate_override, .. } => out
                        == KeyOutcome::<Pic, Gif>::Start(
                        Job::UploadGif { plan, rate: upload_rate(rate, rate_override) },
                    ),
                }
            },
            _ => b == a && out is Nothing,
        },
        _ => true,
    }
}

/// A key while a job runs: Esc asks the worker to stop, `q` asks whether to
/// quit (stopping costs an unfinished animation).
pub open spec fn running_key_spec<Pic, Gif>(
    a: App<Pic, Gif>,
    key: Key,
    b: App<Pic, Gif>,
    out: KeyOutcome<Pic, Gif>,
) -> bool {
    match a.screen {
        Screen::Running(r) => out is Nothing && match key {
            Key::Esc => b.status matches Some(s) && s@ == "cancelling…"@ && b == App {
                screen: Screen::Running(Running { cancelling: true, ..r }),
                status: b.status,
                ..a
            },
            Key::Char('q') => b == App { quit_confirm: true, ..a },
            _ => b == a,
        },
        _ => true,
    }
}

/// Whether a key answers "yes" to "quit?".
pub open spec fn is_yes(key: Key) -> bool {
    key == Key::Char('y') || key == Key::Char('Y') || key == Key::Enter
}

/// What a key does.
pub open spec fn key_spec<Pic, Gif>(
    a: App<Pic, Gif>,
    key: Key,
    b: App<Pic, Gif>,
    out: KeyOutcome<Pic, Gif>,
) -> bool {
    if a.quit_confirm {
        out is Nothing && if is_yes(key) {
            b == App {
                should_quit: true,
                screen: match a.screen {
                    Screen::Running(r) => Screen::Running(Running { cancelling: true, ..r }),
                    s => s,
                },
                ..a
            }
        } else {
            b == App { quit_confirm: false, ..a }
        }
    } else {
        match a.screen {
            Screen::Menu => menu_key_spec(a, key, b, out),
            Screen::Browse { .. } => browse_key_spec(a, key, b, out),
            Screen::Confirm(_) => confirm_key_spec(a, key, b, out),
            Screen::Running(_) => running_key_spec(a, key, b, out),
        }
    }
}

/// What an update does.
pub open spec fn update_spec<Pic, Gif>(a: App<Pic, Gif>, u: Update<Pic, Gif>, b: App<Pic, Gif>) -> bool {
    match u {
        Update::Device(d) => if same_state(d, a.device) {
            b == App { device: d, ..a }
        } else {
            b.device == d && same_but_log(App { device: d, ..a }, b) && noted(
                a,
                b,
                "device: "@ + device_summary_text(d),
            )
        },
        Update::Preview(result) => match result {
            Ok(p) => b == App { screen: Screen::Confirm(Box::new(p)), ..a },
            // Stay in the browser so another file can be picked.
            Err(e) => same_but_log(a, b) && noted(a, b, e@),
        },
        Update::Started { label, total, est_secs } => b == App {
            screen: Screen::Running(
                Running { label, done: 0, total, frame: None, est_secs, cancelling: false },
            ),
            ..a
        },
        Update::Progress { done, total, frame } => match a.screen {
            Screen::Running(r) => b == App {
                screen: Screen::Running(
                    Running {
                        done,
                        total,
                        // A report that names no frame keeps the last one shown.
                        frame: if frame is Some {
                            frame
                        } else {
                            r.frame
                        },
                        ..r
                    },
                ),
                ..a
            },
            _ => b == a,
        },
        Update::Note(m) => same_but_log(a, b) && noted(a, b, m@),
        Update::Finished(result) => b.screen is Menu && noted(
            a,
            b,
            match result {
                Ok(m) => m@,
                Err(e) => e@,
            },
        ) && b == App {
            screen: Screen::Menu,
            log: b.log,
            status: b.status,
            // A quit that was waiting on cancellation can now happen.
            should_quit: a.should_quit || a.quit_confirm,
            ..a
        },
    }
}

impl<Pic, Gif> App<Pic, Gif> {
    /// The interface at start: no keyboard yet, the menu, and a status line
    /// naming where the browser will start.
    pub fn new(start_dir: &str) -> (a: Self)
        ensures
            a.device == DeviceState::NotFound,
            a.screen is Menu,
            a.selected == 0,
            a.log@.len() == 0,
            a.status matches Some(s) && s@ == "browsing from "@ + start_dir@,
            !a.quit_confirm && !a.should_quit,
    {
        let mut s = String::from_str("browsing from ");
        s.append(start_dir);
        App {
            device: DeviceState::NotFound,
            screen: Screen::Menu,
            selected: 0,
            log: Vec::new(),
            status: Some(s),
            quit_confirm: false,
            should_quit: false,
        }
    }

    /// Whether a job is running.
    pub fn busy(&self) -> (r: bool)
        ensures
            r == (self.screen is Running),
    {
        match self.screen {
            Screen::Running(_) => true,
            _ => false,
        }
    }

    /// Whether an action can be started now: every action ends at the
    /// keyboard, so all of them need it, and none can start mid-job.
    pub fn actions_enabled(&self) -> (r: bool)
        ensures
            r == (self.device is Ready && !(self.screen is Running)),
    {
        self.device.is_ready() && !self.busy()
    }

    fn note(&mut self, s: String)
        ensures
            same_but_log(*old(self), *final(self)),
            noted(*old(self), *final(self), s@),
    {
        self.log.push(s.clone());
        if self.log.len() > 200 {
            self.log.remove(0);
        }
        self.status = Some(s);
        assert(self.log@ =~= logged(old(self).log@, s));
    }

    fn menu_key(&mut self, key: Key) -> (out: KeyOutcome<Pic, Gif>)
        requires
            old(self).screen is Menu,
            key == Key::Enter ==> old(self).selected < ACTION_COUNT,
        ensures
            menu_key_spec(*old(self), key, *final(self), out),
    {
        match key {
            Key::Char('q') => {
                self.should_quit = true;
                KeyOutcome::Nothing
            },
            Key::Up => {
                self.selected = if self.selected == 0 {
                    0
                } else {
                    self.selected - 1
                };
                KeyOutcome::Nothing
            },
            Key::Down => {
                self.selected = if self.selected < ACTION_COUNT - 2 {
                    self.selected + 1
                } else {
                    ACTION_COUNT - 1
                };
                KeyOutcome::Nothing
            },
            Key::Enter => {
                let action = Action::at(self.selected);
                if !self.device.is_ready() {
                    let m = String::from_str("no keyboard: this action needs one");
                    proof {
                        reveal_strlit("no keyboard: this action needs one");
                    }
                    self.note(m);
                    return KeyOutcome::Nothing;
                }
                match action {
                    Action::SetTime => KeyOutcome::Start(Job::SetTime),
                    Action::ShowHome => KeyOutcome::Start(Job::SwitchPage(Page::Home)),
                    Action::ShowPicture => KeyOutcome::Start(Job::SwitchPage(Page::Picture)),
                    Action::ShowGif => KeyOutcome::Start(Job::SwitchPage(Page::Gif)),
                    Action::ClearPicture => KeyOutcome::Start(Job::ClearPicture),
                    Action::UploadPicture => KeyOutcome::List { target: Listing::Current, for_gif: false },
                    Action::UploadGif => KeyOutcome::List { target: Listing::Current, for_gif: true },
                }
            },
            _ => KeyOutcome::Nothing,
        }
    }

    fn browse_key(&mut self, key: Key) -> (out: KeyOutcome<Pic, Gif>)
        requires
            old(self).screen is Browse,
        ensures
            browse_key_spec(*old(self), key, *final(self), out),
    {
        let mut screen = Screen::Menu;
        std::mem::swap(&mut screen, &mut self.screen);
        let Screen::Browse { for_gif, dir, entries, selected, error } = screen else {
            return KeyOutcome::Nothing;
        };
        match key {
            Key::Esc | Key::Char('q') => {
                KeyOutcome::Nothing
            },
            Key::Up => {
                let s = if selected == 0 {
                    0
                } else {
                    selected - 1
                };
                self.screen = Screen::Browse { for_gif, dir, entries, selected: s, error };
                KeyOutcome::Nothing
            },
            Key::Down => {
                let last = if entries.len() == 0 {
                    0
                } else {
                    entries.len() - 1
                };
                let s = if selected < last && selected + 1 < last {
                    selected + 1
                } else {
                    last
                };
                self.screen = Screen::Browse { for_gif, dir, entries, selected: s, error };
                KeyOutcome::Nothing
            },
            Key::Backspace => {
                let parent = parent_dir(dir.as_str());
                self.screen = Screen::Browse { for_gif, dir, entries, selected, error };
                match parent {
                    Some(p) => KeyOutcome::List { target: Listing::Dir(p), for_gif },
                    None => KeyOutcome::Nothing,
                }
            },
            Key::Char('~') => {
                self.screen = Screen::Browse { for_gif, dir, entries, selected, error };
                KeyOutcome::List { target: Listing::Home, for_gif }
            },
            Key::Enter => {
                if selected >= entries.len() {
                    self.screen = Screen::Browse { for_gif, dir, entries, selected, error };
                    return KeyOutcome::Nothing;
                }
                let is_dir = entries[selected].is_dir;
                let path = entries[selected].path.clone();
                if is_dir {
                    self.screen = Screen::Browse { for_gif, dir, entries, selected, error };
                    KeyOutcome::List { target: Listing::Dir(path), for_gif }
                } else {
                    let mut m = String::from_str("reading ");
                    m.append(entries[selected].name.as_str());
                    m.append("…");
                    proof {
                        reveal_strlit("reading ");
                        reveal_strlit("…");
                    }
                    self.screen = Screen::Browse { for_gif, dir, entries, selected, error };
                    self.note(m);
                    KeyOutcome::Start(Job::Preview { path, for_gif })
                }
            },
            _ => {
                self.screen = Screen::Browse { for_gif, dir, entries, selected, error };
                KeyOutcome::Nothing
            },
        }
    }

    fn confirm_key(&mut self, key: Key) -> (out: KeyOutcome<Pic, Gif>)
        requires
            old(self).screen is Confirm,
        ensures
            confirm_key_spec(*old(self), key, *final(self), out),
    {
        match key {
            Key::Esc | Key::Char('q') => {
                self.screen = Screen::Menu;
                let m = String::from_str("discarded");
                proof {
                    reveal_strlit("discarded");
                }
                self.note(m);
                KeyOutcome::Nothing
            },
            Key::Left | Key::Right => {
                let mut screen = Screen::Menu;
                std::mem::swap(&mut screen, &mut self.screen);
                let Screen::Confirm(p) = screen else {
                    return KeyOutcome::Nothing;
                };
                match *p {
                    Pending::Gif { path, plan, preview, rate, rate_override } => {
                        let current = match rate_override {
                            Some(r) => r,
                            None => rate,
                        };
                        let next = if key == Key::Left {
                            if current <= GIF_FPS_MIN {
                                GIF_FPS_MIN
                            } else {
                                current - 1
                            }
                        } else {
                            if current >= GIF_FPS_MAX {
                                GIF_FPS_MAX
                            } else {
                                current + 1
                            }
                        };
                        self.screen = Screen::Confirm(
                            Box::new(
                                Pending::Gif { path, plan, preview, rate, rate_override: Some(next) },
                            ),
                        );
                    },
                    other => {
                        self.screen = Screen::Confirm(Box::new(other));
                    },
                }
                KeyOutcome::Nothing
            },
            Key::Enter => {
                if !self.device.is_ready() {
                    let m = String::from_str("no keyboard: cannot upload");
                    proof {
                        reveal_strlit("no keyboard: cannot upload");
                    }
                    self.note(m);
                    return KeyOutcome::Nothing;
                }
                let mut screen = Screen::Menu;
                std::mem::swap(&mut screen, &mut self.screen);
                let Screen::Confirm(p) = screen else {
                    return KeyOutcome::Nothing;
                };
                match *p {
                    Pending::Picture { plan, .. } => KeyOutcome::Start(Job::UploadPicture(plan)),
                    Pending::Gif { plan, rate, rate_override, .. } => {
                        let r = match rate_override {
                            Some(r) => r,
                            None => rate,
                        };
                        KeyOutcome::Start(Job::UploadGif { plan, rate: r })
                    },
                }
            },
            _ => KeyOutcome::Nothing,
        }
    }

    fn running_key(&mut self, key: Key) -> (out: KeyOutcome<Pic, Gif>)
        requires
            old(self).screen is Running,
        ensures
            running_key_spec(*old(self), key, *final(self), out),
    {
        match key {
            Key::Esc => {
                let mut screen = Screen::Menu;
                std::mem::swap(&mut screen, &mut self.screen);
                if let Screen::Running(r) = screen {
                    self.screen = Screen::Running(Running { cancelling: true, ..r });
                    let s = String::from_str("cancelling…");
                    proof {
                        reveal_strlit("cancelling…");
                    }
                    self.status = Some(s);
                }
                KeyOutcome::Nothing
            },
            Key::Char('q') => {
                self.quit_confirm = true;
                KeyOutcome::Nothing
            },
            _ => KeyOutcome::Nothing,
        }
    }

    /// Handles a key, and says what the caller must do about it: start a
    /// job, list a directory for the browser, or nothing.
    ///
    /// Quitting during a job asks first; "yes" marks the job as cancelling
    /// and quits. Nothing starts without a keyboard, and an upload starts
    /// only from the confirm screen, with exactly the plan previewed there.
    pub fn on_key(&mut self, key: Key) -> (out: KeyOutcome<Pic, Gif>)
        requires
            !old(self).quit_confirm && old(self).screen is Menu && key == Key::Enter ==> old(self).selected
                < ACTION_COUNT,
        ensures
            key_spec(*old(self), key, *final(self), out),
            old(self).selected < ACTION_COUNT ==> final(self).selected < ACTION_COUNT,
    {
        if self.quit_confirm {
            match key {
                Key::Char('y') | Key::Char('Y') | Key::Enter => {
                    let mut screen = Screen::Menu;
                    std::mem::swap(&mut screen, &mut self.screen);
                    self.screen = match screen {
                        Screen::Running(r) => Screen::Running(Running { cancelling: true, ..r }),
                        s => s,
                    };
                    self.should_quit = true;
                },
                _ => self.quit_confirm = false,
            }
            return KeyOutcome::Nothing;
        }
        match self.screen {
            Screen::Menu => self.menu_key(key),
            Screen::Browse { .. } => self.browse_key(key),
            Screen::Confirm(_) => self.confirm_key(key),
            Screen::Running(_) => self.running_key(key),
        }
    }

    /// Handles something that happened elsewhere: a device change (noted
    /// only when it says something new), a finished preview, a job starting,
    /// progressing, noting or finishing.
    pub fn on_update(&mut self, update: Update<Pic, Gif>)
        ensures
            update_spec(*old(self), update, *final(self)),
    {
        match update {
            Update::Device(d) => {
                if !d.same_as(&self.device) {
                    let mut m = String::from_str("device: ");
                    let s = d.summary();
                    m.append(s.as_str());
                    proof {
                        reveal_strlit("device: ");
                    }
                    self.note(m);
                }
                self.device = d;
            },
            Update::Preview(result) => match result {
                Ok(pending) => self.screen = Screen::Confirm(Box::new(pending)),
                Err(e) => self.note(e),
            },
            Update::Started { label, total, est_secs } => {
                self.screen = Screen::Running(
                    Running { label, done: 0, total, frame: None, est_secs, cancelling: false },
                );
            },
            Update::Progress { done, total, frame } => {
                let mut screen = Screen::Menu;
                std::mem::swap(&mut screen, &mut self.screen);
                self.screen = match screen {
                    Screen::Running(r) => {
                        let f = if frame.is_some() {
                            frame
                        } else {
                            r.frame
                        };
                        Screen::Running(Running { done, total, frame: f, ..r })
                    },
                    s => s,
                };
            },
            Update::Note(m) => self.note(m),
            Update::Finished(result) => {
                self.screen = Screen::Menu;
                match result {
                    Ok(m) => self.note(m),
                    Err(e) => self.note(e),
                }
                if self.quit_confirm {
                    self.should_quit = true;
                }
            },
        }
    }

    /// Shows a directory listing in the browser, with nothing selected yet
    /// but the first entry; `error` says why a listing is empty when it
    /// could not be read.
    pub fn show_listing(&mut self, for_gif: bool, dir: String, entries: Vec<Entry>, error: Option<String>)
        ensures
            *final(self) == (App { screen: Screen::Browse { for_gif, dir, entries, selected: 0, error }, ..*old(self) }),
    {
        self.screen = Screen::Browse { for_gif, dir, entries, selected: 0, error };
    }

    /// The browser was asked for the home directory and there is none: it
    /// stays where it is and says so.
    pub fn home_missing(&mut self)
        ensures
            match old(self).screen {
                Screen::Browse { for_gif, dir, entries, selected, .. } => final(self).screen matches Screen::Browse {
                    for_gif: f,
                    dir: d,
                    entries: e,
                    selected: s,
                    error: Some(m),
                } && f == for_gif && d == dir && e == entries && s == selected && m@ == "no home directory"@
                    && *final(self) == (App { screen: final(self).screen, ..*old(self) }),
                _ => *final(self) == *old(self),
            },
    {
        let mut screen = Screen::Menu;
        std::mem::swap(&mut screen, &mut self.screen);
        self.screen = match screen {
            Screen::Browse { for_gif, dir, entries, selected, .. } => {
                let m = String::from_str("no home directory");
                proof {
                    reveal_strlit("no home directory");
                }
                Screen::Browse { for_gif, dir, entries, selected, error: Some(m) }
            },
            s => s,
        };
    }
}



// --- Laws ---

/// Nothing that reaches the keyboard starts without one: whatever the
/// screen and the key, a job other than a preview is started only when the
/// keyboard is ready.
pub proof fn lemma_no_device_job_without_a_keyboard<Pic, Gif>(
    a: App<Pic, Gif>,
    key: Key,
    b: App<Pic, Gif>,
    out: KeyOutcome<Pic, Gif>,
)
    requires
        key_spec(a, key, b, out),
    ensures
        out matches KeyOutcome::Start(job) ==> (job is Preview || a.device is Ready),
{
}

/// What is uploaded is what was previewed: an upload starts only from the
/// confirm screen, with that screen's plan, at the chosen rate.
pub proof fn lemma_uploads_carry_the_previewed_plan<Pic, Gif>(
    a: App<Pic, Gif>,
    key: Key,
    b: App<Pic, Gif>,
    out: KeyOutcome<Pic, Gif>,
)
    requires
        key_spec(a, key, b, out),
    ensures
        out matches KeyOutcome::Start(Job::UploadPicture(plan)) ==> a.screen matches Screen::Confirm(
            p,
        ) && *p matches Pending::Picture { plan: q, .. } && q == plan,
        out matches KeyOutcome::Start(Job::UploadGif { plan, rate }) ==> a.screen matches Screen::Confirm(
            p,
        ) && *p matches Pending::Gif { plan: q, rate: r, rate_override: o, .. } && q == plan && rate
            == upload_rate(r, o),
{
}

/// The rate chosen on the confirm screen stays inside the device's 1-60
/// fps, however often it is nudged, as long as it started there.
pub proof fn lemma_rate_stays_in_range<Pic, Gif>(
    a: App<Pic, Gif>,
    key: Key,
    b: App<Pic, Gif>,
    out: KeyOutcome<Pic, Gif>,
)
    requires
        key_spec(a, key, b, out),
        !a.quit_confirm,
        a.screen matches Screen::Confirm(p) && *p matches Pending::Gif { rate, rate_override, .. }
            && GIF_FPS_MIN <= upload_rate(rate, rate_override) <= GIF_FPS_MAX,
    ensures
        b.screen matches Screen::Confirm(p) ==> *p matches Pending::Gif { rate, rate_override, .. }
            && GIF_FPS_MIN <= upload_rate(rate, rate_override) <= GIF_FPS_MAX,
{
}

/// The rate after nudging `r` with each arrow key in turn: Right one up,
/// at most 60; Left one down, at least 1.
pub open spec fn nudged(r: int, keys: Seq<Key>) -> int
    decreases keys.len(),
{
    if keys.len() == 0 {
        r
    } else {
        let prev = nudged(r, keys.drop_last());
        if keys.last() == Key::Left {
            if prev <= GIF_FPS_MIN {
                GIF_FPS_MIN as int
            } else {
                prev - 1
            }
        } else {
            if prev >= GIF_FPS_MAX {
                GIF_FPS_MAX as int
            } else {
                prev + 1
            }
        }
    }
}

/// `a` on the confirm screen of a GIF, with its rate choice replaced by
/// `rate_override`; any other `a` as it is.
pub open spec fn with_rate_choice<Pic, Gif>(a: App<Pic, Gif>, rate_override: Option<u8>) -> App<Pic, Gif> {
    match a.screen {
        Screen::Confirm(p) => match *p {
            Pending::Gif { path, plan, preview, rate, .. } => App {
                screen: Screen::Confirm(Box::new(Pending::Gif { path, plan, preview, rate, rate_override })),
                ..a
            },
            _ => a,
        },
        _ => a,
    }
}

/// `keys` are all arrow keys, and `states` are what the interface went
/// through answering them from `states[0]`, with `outs` its answers.
pub open spec fn answered_arrows<Pic, Gif>(
    states: Seq<App<Pic, Gif>>,
    keys: Seq<Key>,
    outs: Seq<KeyOutcome<Pic, Gif>>,
) -> bool {
    &&& states.len() == keys.len() + 1
    &&& outs.len() == keys.len()
    &&& forall|i: int| 0 <= i < keys.len() ==> (#[trigger] keys[i] == Key::Left || keys[i] == Key::Right)
    &&& forall|i: int| 0 <= i < keys.len() ==> #[trigger] key_spec(states[i], keys[i], states[i + 1], outs[i])
}

proof fn lemma_nudged_in_range(r: int, keys: Seq<Key>)
    requires
        GIF_FPS_MIN <= r <= GIF_FPS_MAX,
    ensures
        GIF_FPS_MIN <= nudged(r, keys) <= GIF_FPS_MAX,
    decreases keys.len(),
{
    if keys.len() > 0 {
        lemma_nudged_in_range(r, keys.drop_last());
    }
}

proof fn lemma_arrows_upto<Pic, Gif>(
    states: Seq<App<Pic, Gif>>,
    keys: Seq<Key>,
    outs: Seq<KeyOutcome<Pic, Gif>>,
    k: int,
)
    requires
        answered_arrows(states, keys, outs),
        0 <= k <= keys.len(),
        !states[0].quit_confirm,
        states[0].screen matches Screen::Confirm(p) && *p matches Pending::Gif { rate, rate_override, .. }
            && GIF_FPS_MIN <= upload_rate(rate, rate_override) <= GIF_FPS_MAX,
    ensures
        states[0].screen matches Screen::Confirm(p) && *p matches Pending::Gif { rate, rate_override, .. }
            && states[k] == with_rate_choice(
            states[0],
            if k == 0 {
                rate_override
            } else {
                Some(nudged(upload_rate(rate, rate_override) as int, keys.take(k)) as u8)
            },
        ),
        forall|i: int| 0 <= i < k ==> (#[trigger] outs[i]) is Nothing,
    decreases k,
{
    if let Screen::Confirm(p) = states[0].screen {
        if let Pending::Gif { path, plan, preview, rate, rate_override } = *p {
            let r0 = upload_rate(rate, rate_override) as int;
            if k == 0 {
                assert(states[0] == with_rate_choice(states[0], rate_override));
            } else {
                lemma_arrows_upto(states, keys, outs, k - 1);
                let prev_choice = if k - 1 == 0 {
                    rate_override
                } else {
                    Some(nudged(r0, keys.take(k - 1)) as u8)
                };
                lemma_nudged_in_range(r0, keys.take(k - 1));
                let prev = nudged(r0, keys.take(k - 1));
                assert(keys.take(k - 1) == keys.take(k).drop_last());
                assert(keys.take(k).last() == keys[k - 1]);
                if k - 1 == 0 {
                    assert(keys.take(0) =~= Seq::<Key>::empty());
                }
                assert(upload_rate(rate, prev_choice) == prev);
                let i = k - 1;
                assert(key_spec(states[i], keys[i], states[i + 1], outs[i]));
                assert(keys[i] == Key::Left || keys[i] == Key::Right);
                assert(i + 1 == k);
            }
        }
    }
}

/// Nudging the rate is exactly `nudged`: on the confirm screen of a GIF,
/// with a rate in 1-60, any sequence of arrow keys leaves every other part
/// of the interface as it was and sets the rate choice to `nudged` of the
/// starting rate, which stays in 1-60; none of the keys starts anything.
pub proof fn lemma_arrow_keys_set_the_rate<Pic, Gif>(
    states: Seq<App<Pic, Gif>>,
    keys: Seq<Key>,
    outs: Seq<KeyOutcome<Pic, Gif>>,
)
    requires
        answered_arrows(states, keys, outs),
        !states[0].quit_confirm,
        states[0].screen matches Screen::Confirm(p) && *p matches Pending::Gif { rate, rate_override, .. }
            && GIF_FPS_MIN <= upload_rate(rate, rate_override) <= GIF_FPS_MAX,
    ensures
        states[0].screen matches Screen::Confirm(p) && *p matches Pending::Gif { rate, rate_override, .. } && {
            let r = nudged(upload_rate(rate, rate_override) as int, keys);
            &&& GIF_FPS_MIN <= r <= GIF_FPS_MAX
            &&& keys.len() > 0 ==> states.last() == with_rate_choice(states[0], Some(r as u8))
            &&& keys.len() == 0 ==> states.last() == states[0]
        },
        forall|i: int| 0 <= i < keys.len() ==> (#[trigger] outs[i]) is Nothing,
{
    lemma_arrows_upto(states, keys, outs, keys.len() as int);
    assert(keys.take(keys.len() as int) =~= keys);
    if let Screen::Confirm(p) = states[0].screen {
        if let Pending::Gif { rate, rate_override, .. } = *p {
            lemma_nudged_in_range(upload_rate(rate, rate_override) as int, keys);
            if keys.len() == 0 {
                assert(states[0] == with_rate_choice(states[0], rate_override));
            }
        }
    }
}

/// What is uploaded after nudging is the nudged rate: Enter on the confirm
/// screen of a GIF, with the keyboard ready, starts the upload of its plan
/// at `nudged` of the starting rate and returns to the menu.
pub proof fn lemma_enter_uploads_the_nudged_rate<Pic, Gif>(
    states: Seq<App<Pic, Gif>>,
    keys: Seq<Key>,
    outs: Seq<KeyOutcome<Pic, Gif>>,
    b: App<Pic, Gif>,
    out: KeyOutcome<Pic, Gif>,
)
    requires
        answered_arrows(states, keys, outs),
        key_spec(states.last(), Key::Enter, b, out),
        !states[0].quit_confirm,
        states[0].device is Ready,
        states[0].screen matches Screen::Confirm(p) && *p matches Pending::Gif { rate, rate_override, .. }
            && GIF_FPS_MIN <= upload_rate(rate, rate_override) <= GIF_FPS_MAX,
    ensures
        states[0].screen matches Screen::Confirm(p) && *p matches Pending::Gif { plan, rate, rate_override, .. }
            && out == KeyOutcome::<Pic, Gif>::Start(
            Job::UploadGif { plan, rate: nudged(upload_rate(rate, rate_override) as int, keys) as u8 },
        ),
        b.screen is Menu,
{
    lemma_arrow_keys_set_the_rate(states, keys, outs);
}

/// The log never grows past 200 lines once it is within them, whatever
/// key or update arrives.
pub proof fn lemma_log_stays_bounded<Pic, Gif>(
    a: App<Pic, Gif>,
    key: Key,
    u: Update<Pic, Gif>,
    b: App<Pic, Gif>,
    c: App<Pic, Gif>,
    out: KeyOutcome<Pic, Gif>,
)
    requires
        a.log@.len() <= 200,
        key_spec(a, key, b, out),
        update_spec(a, u, c),
    ensures
        b.log@.len() <= 200,
        c.log@.len() <= 200,
{
}

/// `q` during a job only asks whether to quit: the job carries on untouched
/// until the answer. In the menu, `q` quits at once.
pub proof fn lemma_quitting<Pic, Gif>(
    a: App<Pic, Gif>,
    key: Key,
    b: App<Pic, Gif>,
    out: KeyOutcome<Pic, Gif>,
)
    requires
        key_spec(a, key, b, out),
        !a.quit_confirm,
        key == Key::Char('q'),
    ensures
        a.screen is Running ==> b.quit_confirm && b.should_quit == a.should_quit && b.screen
            == a.screen && b.device == a.device,
        a.screen is Menu ==> b.should_quit && !b.quit_confirm,
{
}

} // verus!

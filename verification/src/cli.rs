//! The command line's own rules: which frame rates it accepts, which pages
//! it names, what the clock snapshot holds, and how a failed picture read is
//! reported.

use crate::protocol::{Page, GIF_FPS_MAX, GIF_FPS_MIN};
use vstd::prelude::*;

verus! {

// --- Frame rate ---

/// An ASCII decimal digit.
pub open spec fn is_digit(c: char) -> bool {
    '0' <= c && c <= '9'
}

/// The value of a string of decimal digits.
pub open spec fn digits_value(s: Seq<char>) -> int
    decreases s.len(),
{
    if s.len() == 0 {
        0
    } else {
        digits_value(s.drop_last()) * 10 + (s.last() as int - '0' as int)
    }
}

/// The digits of an unsigned number as written: an optional leading `+`
/// is not part of them.
pub open spec fn unsigned_digits(s: Seq<char>) -> Seq<char> {
    if s.len() > 0 && s[0] == '+' {
        s.skip(1)
    } else {
        s
    }
}

/// What `u8`'s `FromStr` reads from `s`: an optional `+` then at least one
/// digit and nothing else, worth at most 255.
pub open spec fn parsed_u8(s: Seq<char>) -> Option<u8> {
    let d = unsigned_digits(s);
    if d.len() > 0 && (forall|i: int| 0 <= i < d.len() ==> is_digit(#[trigger] d[i]))
        && digits_value(d) <= 255 {
        Some(digits_value(d) as u8)
    } else {
        None
    }
}

proof fn lemma_digits_value_nonneg(s: Seq<char>)
    requires
        forall|i: int| 0 <= i < s.len() ==> is_digit(#[trigger] s[i]),
    ensures
        digits_value(s) >= 0,
    decreases s.len(),
{
    if s.len() > 0 {
        lemma_digits_value_nonneg(s.drop_last());
        assert(is_digit(s[s.len() - 1]));
    }
}

proof fn lemma_digits_value_grows(s: Seq<char>, k: int)
    requires
        0 <= k <= s.len(),
        forall|i: int| 0 <= i < s.len() ==> is_digit(#[trigger] s[i]),
    ensures
        digits_value(s.take(k)) <= digits_value(s),
    decreases s.len() - k,
{
    if k < s.len() {
        lemma_digits_value_grows(s, k + 1);
        let t = s.take(k + 1);
        assert(t.drop_last() =~= s.take(k));
        assert(t.last() == s[k]);
        assert(is_digit(s[k]));
        lemma_digits_value_nonneg(s.take(k));
    } else {
        assert(s.take(k) =~= s);
    }
}

fn parse_u8(s: &str) -> (r: Option<u8>)
    ensures
        r == parsed_u8(s@),
{
    let n = s.unicode_len();
    let mut i: usize = 0;
    if n > 0 && s.get_char(0) == '+' {
        i = 1;
    }
    let ghost d = unsigned_digits(s@);
    assert(d =~= s@.skip(i as int));
    if i >= n {
        return None;
    }
    let start = i;
    let mut value: u32 = 0;
    while i < n
        invariant
            start <= i <= n,
            n == s@.len(),
            d =~= s@.skip(start as int),
            d == unsigned_digits(s@),
            d.len() > 0,
            forall|j: int| 0 <= j < i - start ==> is_digit(#[trigger] d[j]),
            value == digits_value(d.take(i - start)),
            value <= 255,
        decreases n - i,
    {
        let c = s.get_char(i);
        assert(d[i - start] == c);
        if c < '0' || c > '9' {
            assert(!is_digit(d[i - start]));
            return None;
        }
        let ghost k = i - start;
        assert(d.take(k + 1).drop_last() =~= d.take(k));
        assert(d.take(k + 1).last() == c);
        value = value * 10 + (c as u32 - '0' as u32);
        assert(value == digits_value(d.take(k + 1)));
        if value > 255 {
            proof {
                assert forall|j: int| 0 <= j < k + 1 implies is_digit(#[trigger] d.take(k + 1)[j]) by {}
                if forall|j: int| 0 <= j < d.len() ==> is_digit(#[trigger] d[j]) {
                    lemma_digits_value_grows(d, k + 1);
                }
            }
            return None;
        }
        i = i + 1;
    }
    assert(d.take(d.len() as int) =~= d);
    Some(value as u8)
}

/// The refusal of a frame rate that is not a number.
pub open spec fn not_a_number_text(s: Seq<char>) -> Seq<char> {
    "`"@ + s + "` is not a whole number"@
}

/// The refusal of a frame rate outside 1-60.
pub open spec fn out_of_range_text() -> Seq<char> {
    "must be between 1 and 60"@
}

/// Reads a frame rate, rejecting one the device cannot store, so a bad
/// `--fps` fails before anything is decoded or sent.
pub fn parse_fps(s: &str) -> (r: Result<u8, String>)
    ensures
        match parsed_u8(s@) {
            None => r matches Err(e) && e@ == not_a_number_text(s@),
            Some(v) => if GIF_FPS_MIN <= v <= GIF_FPS_MAX {
                r == Ok::<u8, String>(v)
            } else {
                r matches Err(e) && e@ == out_of_range_text()
            },
        },
{
    match parse_u8(s) {
        None => {
            let mut e = String::from_str("`");
            e.append(s);
            e.append("` is not a whole number");
            Err(e)
        },
        Some(v) => {
            if v < GIF_FPS_MIN || v > GIF_FPS_MAX {
                Err(String::from_str("must be between 1 and 60"))
            } else {
                Ok(v)
            }
        },
    }
}


// --- Pages ---

/// The page names the command line accepts.
#[derive(Debug, Clone, Copy, PartialEq, Eq, Structural)]
pub enum PageArg {
    Home,
    Picture,
    Gif,
}

/// The protocol page a command-line page name selects, one for one.
pub open spec fn page_of(arg: PageArg) -> Page {
    match arg {
        PageArg::Home => Page::Home,
        PageArg::Picture => Page::Picture,
        PageArg::Gif => Page::Gif,
    }
}

impl From<PageArg> for Page {
    fn from(arg: PageArg) -> (p: Page) {
        match arg {
            PageArg::Home => Page::Home,
            PageArg::Picture => Page::Picture,
            PageArg::Gif => Page::Gif,
        }
    }
}

impl vstd::std_specs::convert::FromSpecImpl<PageArg> for Page {
    open spec fn obeys_from_spec() -> bool {
        true
    }

    open spec fn from_spec(arg: PageArg) -> Page {
        page_of(arg)
    }
}


// --- Clock ---

/// A local wall-clock snapshot in the vendor's field encoding.
#[derive(Debug, Clone, Copy, PartialEq, Eq, Structural)]
pub struct ClockDateFields {
    pub hour: u8,
    pub minute: u8,
    pub second: u8,
    pub year2digit: u8,
    /// Monday = 1 .. Sunday = 7.
    pub weekday: u8,
    /// 1-12.
    pub month: u8,
    /// Day of the month.
    pub date: u8,
}

/// Rust's `%` on a signed value: the remainder takes the sign of `y`.
pub open spec fn signed_rem(y: int, m: int) -> int {
    if y >= 0 {
        y % m
    } else {
        -((-y) % m)
    }
}

impl ClockDateFields {
    /// The snapshot for a calendar time: each field narrowed to a byte as it
    /// is, the year reduced to its last two digits. `weekday` counts from
    /// Monday = 1.
    pub fn from_calendar(
        year: i32,
        month: u32,
        day: u32,
        weekday: u32,
        hour: u32,
        minute: u32,
        second: u32,
    ) -> (f: Self)
        ensures
            f.hour == hour as u8,
            f.minute == minute as u8,
            f.second == second as u8,
            f.year2digit == signed_rem(year as int, 100) as u8,
            f.weekday == weekday as u8,
            f.month == month as u8,
            f.date == day as u8,
            0 <= year ==> f.year2digit == year % 100,
    {
        let y = year as i64;
        let r: i64 = if y >= 0 {
            y % 100
        } else {
            -((-y) % 100)
        };
        ClockDateFields {
            hour: hour as u8,
            minute: minute as u8,
            second: second as u8,
            year2digit: r as u8,
            weekday: weekday as u8,
            month: month as u8,
            date: day as u8,
        }
    }
}


// --- A picture that could not be read ---

/// A `set-picture` failure that happened while reading or converting the
/// image, before any HID device was opened.
#[derive(Debug, Clone)]
pub struct PictureError {
    pub path: String,
    pub detail: String,
}

/// The text a `PictureError` is reported with.
pub open spec fn picture_error_text(path: Seq<char>, detail: Seq<char>) -> Seq<char> {
    "could not use "@ + path + " as a picture: "@ + detail
        + "\n(supported formats: PNG and JPEG. The keyboard was not contacted.)"@
}

impl PictureError {
    /// The text this failure is reported with.
    pub fn message(&self) -> (m: String)
        ensures
            m@ == picture_error_text(self.path@, self.detail@),
    {
        let mut m = String::from_str("could not use ");
        m.append(self.path.as_str());
        m.append(" as a picture: ");
        m.append(self.detail.as_str());
        m.append("\n(supported formats: PNG and JPEG. The keyboard was not contacted.)");
        m
    }
}

} // verus!

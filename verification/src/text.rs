//! Text for the messages the library composes: decimal numbers, and paths
//! as `{:?}` shows them.

use vstd::prelude::*;

verus! {

/// The ASCII digit for `d` (0..=9).
pub open spec fn digit_char(d: nat) -> char {
    (48 + d) as char
}

/// The decimal digits of `n`, most significant first, with no leading zero.
pub open spec fn decimal(n: nat) -> Seq<char>
    decreases n,
{
    if n < 10 {
        seq![digit_char(n)]
    } else {
        decimal(n / 10).push(digit_char(n % 10))
    }
}

fn digit_str(d: u64) -> (s: &'static str)
    requires
        d < 10,
    ensures
        s@ == seq![digit_char(d as nat)],
{
    proof {
        reveal_strlit("0");
        reveal_strlit("1");
        reveal_strlit("2");
        reveal_strlit("3");
        reveal_strlit("4");
        reveal_strlit("5");
        reveal_strlit("6");
        reveal_strlit("7");
        reveal_strlit("8");
        reveal_strlit("9");
    }
    let s = if d == 0 {
        "0"
    } else if d == 1 {
        "1"
    } else if d == 2 {
        "2"
    } else if d == 3 {
        "3"
    } else if d == 4 {
        "4"
    } else if d == 5 {
        "5"
    } else if d == 6 {
        "6"
    } else if d == 7 {
        "7"
    } else if d == 8 {
        "8"
    } else {
        "9"
    };
    assert(s@ =~= seq![digit_char(d as nat)]);
    s
}

/// Appends the decimal digits of `n` to `s`.
pub fn push_decimal(s: &mut String, n: u64)
    ensures
        final(s)@ == old(s)@ + decimal(n as nat),
    decreases n,
{
    if n >= 10 {
        push_decimal(s, n / 10);
    }
    s.append(digit_str(n % 10));
    assert(decimal(n as nat) == if n < 10 {
        seq![digit_char(n as nat)]
    } else {
        decimal((n / 10) as nat).push(digit_char((n % 10) as nat))
    });
    if n >= 10 {
        assert(old(s)@ + decimal((n / 10) as nat) + seq![digit_char((n % 10) as nat)]
            =~= old(s)@ + decimal(n as nat));
    } else {
        assert(old(s)@ + seq![digit_char((n % 10) as nat)] =~= old(s)@ + decimal(n as nat));
    }
}

/// `n` in decimal.
pub fn decimal_string(n: u64) -> (s: String)
    ensures
        s@ == decimal(n as nat),
{
    let mut s = String::new();
    push_decimal(&mut s, n);
    assert(s@ =~= decimal(n as nat));
    s
}


/// What `{:?}` makes of a path given as text (`std::path::Path`'s `Debug`):
/// the text in double quotes, with quotes, backslashes and unprintable
/// characters escaped.
pub uninterp spec fn path_debug_text(path: Seq<char>) -> Seq<char>;

/// The text of each string in a list.
pub open spec fn strings_view(v: Seq<String>) -> Seq<Seq<char>> {
    v.map_values(|s: String| s@)
}

/// Each path as `path_debug_text` gives it, separated by `, `.
pub open spec fn joined_paths(v: Seq<Seq<char>>) -> Seq<char>
    decreases v.len(),
{
    if v.len() == 0 {
        Seq::empty()
    } else if v.len() == 1 {
        path_debug_text(v[0])
    } else {
        joined_paths(v.drop_last()) + ", "@ + path_debug_text(v.last())
    }
}

/// What `{:?}` makes of a list of paths: each as `path_debug_text` gives
/// it, separated by `, `, inside square brackets.
pub open spec fn path_list_text(v: Seq<Seq<char>>) -> Seq<char> {
    "["@ + joined_paths(v) + "]"@
}

/// `format!("{:?}", Path::new(path))`: std's `Debug` for `Path`. Its result
/// is named, not described: the contract only ties it to the text it was
/// given.
#[verifier::external_body]
pub(crate) fn debug_path(path: &str) -> (r: String)
    ensures
        r@ == path_debug_text(path@),
{
    format!("{:?}", std::path::Path::new(path))
}

/// A list of paths as `{:?}` shows it.
pub fn debug_path_list(v: &Vec<String>) -> (r: String)
    ensures
        r@ == path_list_text(strings_view(v@)),
{
    proof {
        reveal_strlit("[");
        reveal_strlit("]");
        reveal_strlit(", ");
    }
    let mut r = String::from_str("[");
    let mut i: usize = 0;
    while i < v.len()
        invariant
            i <= v@.len(),
            r@ == "["@ + joined_paths(strings_view(v@).take(i as int)),
        decreases v@.len() - i,
    {
        let ghost before = r@;
        if i > 0 {
            r.append(", ");
        }
        let quoted = debug_path(v[i].as_str());
        r.append(quoted.as_str());
        proof {
            let t = strings_view(v@).take(i + 1);
            assert(t.drop_last() =~= strings_view(v@).take(i as int));
            assert(t.last() == v@[i as int]@);
            if i == 0 {
                assert(t.len() == 1);
            }
        }
        assert(r@ =~= "["@ + joined_paths(strings_view(v@).take(i + 1)));
        i = i + 1;
    }
    assert(strings_view(v@).take(v@.len() as int) =~= strings_view(v@));
    r.append("]");
    assert(r@ =~= path_list_text(strings_view(v@)));
    r
}

} // verus!

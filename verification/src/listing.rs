//! What the file browser offers from a directory: directories, plus the
//! image files the command accepts, directories first, then by name
//! ignoring case. Reading the directory is the caller's.

use crate::app::Entry;
use vstd::prelude::*;

verus! {

/// ASCII lower case; other characters unchanged.
pub open spec fn ascii_lower(c: char) -> char {
    if 'A' <= c && c <= 'Z' {
        ((c as u8) + 32) as char
    } else {
        c
    }
}

/// The index of the last `.` in `name`, or -1 when there is none.
pub open spec fn last_dot(name: Seq<char>) -> int
    decreases name.len(),
{
    if name.len() == 0 {
        -1
    } else if name.last() == '.' {
        name.len() - 1
    } else {
        last_dot(name.drop_last())
    }
}

/// A file name's extension as `Path::extension` reads it: what follows the
/// last `.`, unless there is none or the only one starts the name.
pub open spec fn extension_of(name: Seq<char>) -> Option<Seq<char>> {
    let i = last_dot(name);
    if i <= 0 {
        None
    } else {
        Some(name.skip(i + 1))
    }
}

/// Whether an extension, ignoring ASCII case, is one the command accepts:
/// `gif` for an animation, `png`, `jpg` or `jpeg` for a picture.
pub open spec fn accepted_extension(ext: Seq<char>, for_gif: bool) -> bool {
    let e = ext.map_values(|c: char| ascii_lower(c));
    if for_gif {
        e == "gif"@
    } else {
        e == "png"@ || e == "jpg"@ || e == "jpeg"@
    }
}

/// Whether the browser offers an entry: hidden names never; directories
/// always; files only with an accepted extension.
pub open spec fn offered(e: Entry, for_gif: bool) -> bool {
    &&& !(e.name@.len() > 0 && e.name@[0] == '.')
    &&& (e.is_dir || (extension_of(e.name@) matches Some(x) && accepted_extension(x, for_gif)))
}

fn lower_ascii(c: char) -> (r: char)
    ensures
        r == ascii_lower(c),
{
    if 'A' <= c && c <= 'Z' {
        ((c as u8) + 32) as char
    } else {
        c
    }
}

fn equals_lower(s: &str, from: usize, word: &str) -> (r: bool)
    requires
        from <= s@.len(),
    ensures
        r == (s@.skip(from as int).map_values(|c: char| ascii_lower(c)) == word@),
{
    let n = s.unicode_len();
    let m = word.unicode_len();
    let ghost x = s@.skip(from as int).map_values(|c: char| ascii_lower(c));
    if n - from != m {
        assert(x.len() != word@.len());
        return false;
    }
    let mut j: usize = 0;
    while j < m
        invariant
            j <= m,
            m == word@.len(),
            n == s@.len(),
            n - from == m,
            from <= n,
            x == s@.skip(from as int).map_values(|c: char| ascii_lower(c)),
            forall|k: int| 0 <= k < j ==> x[k] == word@[k],
        decreases m - j,
    {
        let c = lower_ascii(s.get_char(from + j));
        if c != word.get_char(j) {
            assert(x[j as int] != word@[j as int]);
            return false;
        }
        j = j + 1;
    }
    assert(x =~= word@);
    true
}

fn find_last_dot(s: &str) -> (i: Option<usize>)
    ensures
        match i {
            None => last_dot(s@) == -1,
            Some(k) => last_dot(s@) == k && k < s@.len(),
        },
{
    let n = s.unicode_len();
    let mut k = n;
    assert(s@.take(n as int) =~= s@);
    while k > 0
        invariant
            k <= n,
            n == s@.len(),
            last_dot(s@) == last_dot(s@.take(k as int)),
        decreases k,
    {
        assert(s@.take(k as int).drop_last() =~= s@.take(k - 1));
        if s.get_char(k - 1) == '.' {
            return Some(k - 1);
        }
        k = k - 1;
    }
    assert(s@.take(0) =~= Seq::<char>::empty());
    None
}

fn is_offered(e: &Entry, for_gif: bool) -> (r: bool)
    ensures
        r == offered(*e, for_gif),
{
    let name = e.name.as_str();
    if name.unicode_len() > 0 && name.get_char(0) == '.' {
        return false;
    }
    if e.is_dir {
        return true;
    }
    match find_last_dot(name) {
        None => false,
        Some(0) => false,
        Some(i) => {
            proof {
                reveal_strlit("gif");
                reveal_strlit("png");
                reveal_strlit("jpg");
                reveal_strlit("jpeg");
            }
            if for_gif {
                equals_lower(name, i + 1, "gif")
            } else {
                equals_lower(name, i + 1, "png") || equals_lower(name, i + 1, "jpg")
                    || equals_lower(name, i + 1, "jpeg")
            }
        },
    }
}

/// `ext` spells `word`, a word of lower-case ASCII letters, in any mix of
/// ASCII upper and lower case: each character is the word's or the same
/// letter in upper case (32 code points below).
pub open spec fn spells(ext: Seq<char>, word: Seq<char>) -> bool {
    &&& ext.len() == word.len()
    &&& forall|i: int| 0 <= i < ext.len() ==> #[trigger] ext[i] == word[i] || ext[i] as int == word[i] as int - 32
}

proof fn lemma_last_dot_past(s: Seq<char>, t: Seq<char>)
    requires
        forall|i: int| 0 <= i < t.len() ==> t[i] != '.',
    ensures
        last_dot(s + t) == last_dot(s),
    decreases t.len(),
{
    if t.len() > 0 {
        assert((s + t).drop_last() =~= s + t.drop_last());
        assert((s + t).last() == t.last());
        lemma_last_dot_past(s, t.drop_last());
    } else {
        assert(s + t =~= s);
    }
}

proof fn lemma_spells_lower(ext: Seq<char>, word: Seq<char>)
    requires
        forall|i: int| 0 <= i < word.len() ==> 'a' <= #[trigger] word[i] && word[i] <= 'z',
    ensures
        spells(ext, word) <==> ext.map_values(|c: char| ascii_lower(c)) == word,
{
    let l = ext.map_values(|c: char| ascii_lower(c));
    if spells(ext, word) {
        assert forall|i: int| 0 <= i < ext.len() implies l[i] == word[i] by {
            let c = ext[i];
            assert('a' <= word[i] && word[i] <= 'z');
            if c != word[i] {
                assert(c as int == word[i] as int - 32);
                assert('A' <= c && c <= 'Z');
                assert(((c as u8) + 32) as char == word[i]);
            } else {
                assert(!('A' <= c && c <= 'Z'));
            }
        }
        assert(l =~= word);
    }
    if l == word {
        assert forall|i: int| 0 <= i < ext.len() implies #[trigger] ext[i] == word[i] || ext[i] as int == word[i]
            as int - 32 by {
            assert(l[i] == word[i]);
            let c = ext[i];
            if 'A' <= c && c <= 'Z' {
                assert(ascii_lower(c) == ((c as u8) + 32) as char);
                assert(c as int == word[i] as int - 32);
            }
        }
    }
}

/// Which files the browser offers, stated with the extensions written out:
/// a file that is not hidden, named `stem.ext` with no further dot in
/// `ext`, is offered for a picture exactly when `ext` is `png`, `jpg` or
/// `jpeg` in any ASCII case (so `PHOTO.JPG` off a camera is offered), and
/// for an animation exactly when it is `gif` in any ASCII case.
pub proof fn lemma_offered_files(e: Entry, stem: Seq<char>, ext: Seq<char>)
    requires
        e.name@ == stem + seq!['.'] + ext,
        stem.len() > 0,
        stem[0] != '.',
        forall|i: int| 0 <= i < ext.len() ==> ext[i] != '.',
        !e.is_dir,
    ensures
        offered(e, false) <==> (spells(ext, seq!['p', 'n', 'g']) || spells(ext, seq!['j', 'p', 'g'])
            || spells(ext, seq!['j', 'p', 'e', 'g'])),
        offered(e, true) <==> spells(ext, seq!['g', 'i', 'f']),
{
    let name = e.name@;
    let head = stem + seq!['.'];
    assert(name == head + ext);
    lemma_last_dot_past(head, ext);
    assert(head.last() == '.');
    assert(last_dot(head) == stem.len());
    assert(name.skip(stem.len() as int + 1) =~= ext);
    assert(name[0] == stem[0]);
    assert(extension_of(name) == Some(ext));
    reveal_strlit("png");
    reveal_strlit("jpg");
    reveal_strlit("jpeg");
    reveal_strlit("gif");
    assert("png"@ =~= seq!['p', 'n', 'g']);
    assert("jpg"@ =~= seq!['j', 'p', 'g']);
    assert("jpeg"@ =~= seq!['j', 'p', 'e', 'g']);
    assert("gif"@ =~= seq!['g', 'i', 'f']);
    lemma_spells_lower(ext, seq!['p', 'n', 'g']);
    lemma_spells_lower(ext, seq!['j', 'p', 'g']);
    lemma_spells_lower(ext, seq!['j', 'p', 'e', 'g']);
    lemma_spells_lower(ext, seq!['g', 'i', 'f']);
}

/// A name as `str::to_lowercase` writes it: Unicode lower case, the same
/// on every machine and in every locale.
pub uninterp spec fn lowercase(s: Seq<char>) -> Seq<char>;

/// `str::to_lowercase`. Claims only that its result is named by
/// `lowercase`.
#[verifier::external_body]
fn to_lower(s: &str) -> (r: String)
    ensures
        r@ == lowercase(s@),
{
    s.to_lowercase()
}

/// Lexicographic order by character, the order `str` comparison gives.
pub open spec fn text_le(a: Seq<char>, b: Seq<char>) -> bool
    decreases a.len(),
{
    if a.len() == 0 {
        true
    } else if b.len() == 0 {
        false
    } else if a[0] != b[0] {
        a[0] < b[0]
    } else {
        text_le(a.skip(1), b.skip(1))
    }
}

proof fn lemma_text_le_total(a: Seq<char>, b: Seq<char>)
    ensures
        text_le(a, b) || text_le(b, a),
    decreases a.len(),
{
    if a.len() > 0 && b.len() > 0 {
        if a[0] == b[0] {
            lemma_text_le_total(a.skip(1), b.skip(1));
        }
    }
}

proof fn lemma_text_le_transitive(a: Seq<char>, b: Seq<char>, c: Seq<char>)
    requires
        text_le(a, b),
        text_le(b, c),
    ensures
        text_le(a, c),
    decreases a.len(),
{
    if a.len() > 0 && b.len() > 0 && c.len() > 0 && a[0] == b[0] && b[0] == c[0] {
        lemma_text_le_transitive(a.skip(1), b.skip(1), c.skip(1));
    }
}

/// The browser's order: directories before files, then names ignoring case.
pub open spec fn entry_le(a: Entry, b: Entry) -> bool {
    (a.is_dir && !b.is_dir) || (a.is_dir == b.is_dir && text_le(
        lowercase(a.name@),
        lowercase(b.name@),
    ))
}

/// Every entry comes no later than the ones after it.
pub open spec fn sorted_entries(s: Seq<Entry>) -> bool {
    forall|i: int, j: int| 0 <= i < j < s.len() ==> #[trigger] entry_le(s[i], s[j])
}

proof fn lemma_entry_le_total(a: Entry, b: Entry)
    ensures
        entry_le(a, b) || entry_le(b, a),
{
    lemma_text_le_total(lowercase(a.name@), lowercase(b.name@));
}

proof fn lemma_entry_le_transitive(a: Entry, b: Entry, c: Entry)
    requires
        entry_le(a, b),
        entry_le(b, c),
    ensures
        entry_le(a, c),
{
    if a.is_dir == b.is_dir && b.is_dir == c.is_dir {
        lemma_text_le_transitive(lowercase(a.name@), lowercase(b.name@), lowercase(c.name@));
    }
}

fn text_le_exec(a: &str, b: &str) -> (r: bool)
    ensures
        r == text_le(a@, b@),
{
    let n = a.unicode_len();
    let m = b.unicode_len();
    let mut i: usize = 0;
    assert(a@.skip(0) =~= a@ && b@.skip(0) =~= b@);
    while i < n && i < m
        invariant
            i <= n,
            i <= m,
            n == a@.len(),
            m == b@.len(),
            text_le(a@, b@) == text_le(a@.skip(i as int), b@.skip(i as int)),
        decreases n - i,
    {
        let x = a.get_char(i);
        let y = b.get_char(i);
        assert(a@.skip(i as int)[0] == x && b@.skip(i as int)[0] == y);
        if x != y {
            return x < y;
        }
        assert(a@.skip(i as int).skip(1) =~= a@.skip(i + 1));
        assert(b@.skip(i as int).skip(1) =~= b@.skip(i + 1));
        i = i + 1;
    }
    if i == n {
        assert(a@.skip(i as int).len() == 0);
        true
    } else {
        assert(b@.skip(i as int).len() == 0);
        false
    }
}

proof fn lemma_insert_keeps_sorted(s: Seq<Entry>, p: int, e: Entry)
    requires
        sorted_entries(s),
        0 <= p <= s.len(),
        forall|i: int| 0 <= i < p ==> entry_le(#[trigger] s[i], e),
        p < s.len() ==> !entry_le(s[p], e),
    ensures
        sorted_entries(s.insert(p, e)),
{
    let t = s.insert(p, e);
    if p < s.len() {
        lemma_entry_le_total(s[p], e);
    }
    assert forall|i: int, j: int| 0 <= i < j < t.len() implies #[trigger] entry_le(t[i], t[j]) by {
        if j < p {
            assert(entry_le(s[i], s[j]));
        } else if j == p {
            assert(entry_le(s[i], e));
        } else if i < p {
            assert(entry_le(s[i], s[j - 1]));
        } else if i == p {
            if j - 1 > p {
                assert(entry_le(s[p], s[j - 1]));
                lemma_entry_le_transitive(e, s[p], s[j - 1]);
            }
        } else {
            assert(entry_le(s[i - 1], s[j - 1]));
        }
    }
}

/// Where `e` goes in `s`: before the first entry that does not come before
/// it (`entry_le`), so after every entry it ties with.
pub open spec fn insert_pos(s: Seq<Entry>, e: Entry) -> int
    decreases s.len(),
{
    if s.len() == 0 {
        0
    } else if !entry_le(s[0], e) {
        0
    } else {
        1 + insert_pos(s.skip(1), e)
    }
}

/// `s` sorted by `entry_le`, entries that tie keeping the order they have in
/// `s`: each entry in turn inserted after everything it does not precede.
pub open spec fn stable_sorted(s: Seq<Entry>) -> Seq<Entry>
    decreases s.len(),
{
    if s.len() == 0 {
        Seq::empty()
    } else {
        let t = stable_sorted(s.drop_last());
        t.insert(insert_pos(t, s.last()), s.last())
    }
}

proof fn lemma_insert_pos(s: Seq<Entry>, e: Entry, p: int)
    requires
        0 <= p <= s.len(),
        forall|i: int| 0 <= i < p ==> entry_le(#[trigger] s[i], e),
        p < s.len() ==> !entry_le(s[p], e),
    ensures
        insert_pos(s, e) == p,
    decreases p,
{
    if p > 0 {
        assert(entry_le(s[0], e));
        let t = s.skip(1);
        assert forall|i: int| 0 <= i < p - 1 implies entry_le(#[trigger] t[i], e) by {
            assert(t[i] == s[i + 1]);
        }
        if p - 1 < t.len() {
            assert(t[p - 1] == s[p]);
        }
        lemma_insert_pos(t, e, p - 1);
    }
}

/// What the browser lists from a directory's entries: the ones it offers
/// (`offered`), each once, in its order (`entry_le`), entries that tie
/// (names equal ignoring case) in the order they were read.
pub fn browsable_entries(raw: Vec<Entry>, for_gif: bool) -> (out: Vec<Entry>)
    ensures
        out@ == stable_sorted(raw@.filter(|e: Entry| offered(e, for_gif))),
        out@.to_multiset() == raw@.filter(|e: Entry| offered(e, for_gif)).to_multiset(),
        sorted_entries(out@),
{
    let ghost start = raw@;
    let ghost pred = |e: Entry| offered(e, for_gif);
    let mut raw = raw;
    let mut out: Vec<Entry> = Vec::new();
    let mut keys: Vec<String> = Vec::new();
    let ghost mut k: int = 0;
    assert(start.take(0).filter(pred) =~= Seq::<Entry>::empty());
    while raw.len() > 0
        invariant
            0 <= k <= start.len(),
            raw@ == start.skip(k),
            pred == (|e: Entry| offered(e, for_gif)),
            out@.to_multiset() == start.take(k).filter(pred).to_multiset(),
            out@ == stable_sorted(start.take(k).filter(pred)),
            sorted_entries(out@),
            keys@.len() == out@.len(),
            forall|i: int| 0 <= i < out@.len() ==> (#[trigger] keys@[i])@ == lowercase(out@[i].name@),
        decreases raw@.len(),
    {
        let e = raw.remove(0);
        let ghost prev = start.take(k).filter(pred);
        proof {
            assert(start.skip(k + 1) =~= start.skip(k).remove(0));
            assert(start.take(k + 1).drop_last() =~= start.take(k));
            assert(start.take(k + 1).last() == e);
            k = k + 1;
        }
        if is_offered(&e, for_gif) {
            let key = to_lower(e.name.as_str());
            // Insert after every entry that does not come after it, so the
            // order among equals is the order they were read in.
            let mut p: usize = 0;
            while p < out.len()
                invariant
                    p <= out@.len(),
                    keys@.len() == out@.len(),
                    forall|i: int| 0 <= i < out@.len() ==> (#[trigger] keys@[i])@ == lowercase(out@[i].name@),
                    key@ == lowercase(e.name@),
                    forall|i: int| 0 <= i < p ==> entry_le(#[trigger] out@[i], e),
                ensures
                    p <= out@.len(),
                    forall|i: int| 0 <= i < p ==> entry_le(#[trigger] out@[i], e),
                    p < out@.len() ==> !entry_le(out@[p as int], e),
                decreases out@.len() - p,
            {
                let before = if out[p].is_dir != e.is_dir {
                    out[p].is_dir
                } else {
                    text_le_exec(keys[p].as_str(), key.as_str())
                };
                if !before {
                    break;
                }
                p = p + 1;
            }
            let ghost old_out = out@;
            let ghost old_keys = keys@;
            out.insert(p, e);
            keys.insert(p, key);
            proof {
                lemma_insert_keeps_sorted(old_out, p as int, e);
                lemma_insert_pos(old_out, e, p as int);
                vstd::seq_lib::to_multiset_insert(old_out, p as int, e);
                vstd::seq_lib::to_multiset_build(prev, e);
                assert(pred(e));
                assert(start.take(k).drop_last() == start.take(k - 1));
                assert(start.take(k).last() == e);
                assert(start.take(k).filter(pred) =~= prev.push(e)) by {
                    reveal_with_fuel(Seq::filter, 2);
                }
                assert(prev.push(e).drop_last() =~= prev);
                assert(stable_sorted(prev.push(e)) == old_out.insert(p as int, e));
                assert forall|i: int| 0 <= i < out@.len() implies (#[trigger] keys@[i])@ == lowercase(
                    out@[i].name@,
                ) by {
                    if i < p {
                        assert(keys@[i] == old_keys[i] && out@[i] == old_out[i]);
                    } else if i > p {
                        assert(keys@[i] == old_keys[i - 1] && out@[i] == old_out[i - 1]);
                    }
                }
            }
        } else {
            assert(!pred(e));
            assert(start.take(k).drop_last() == start.take(k - 1));
            assert(start.take(k).last() == e);
            assert(start.take(k).filter(pred) =~= prev) by {
                reveal_with_fuel(Seq::filter, 2);
            }
        }
    }
    assert(start.skip(k).len() == 0);
    assert(start.take(k) =~= start);
    out
}

} // verus!

//! The configuration file of defaults for the environment: `KEY=VALUE` lines.
//!
//! Blank lines and lines starting with `#` are skipped, as are lines without `=`
//! or with an empty key. Whitespace around the key and the value is trimmed, and
//! one layer of matching single or double quotes around the value is removed.
use vstd::prelude::*;

use crate::registry::{has_key, key_views, var_views};
use crate::text::str_eq;
use crate::text::{chars_of, split_lines, trim, trim_range};

verus! {

/// `s` without one layer of matching single or double quotes around it.
pub open spec fn unquoted(s: Seq<char>) -> Seq<char> {
    if s.len() >= 2 && ((s[0] == '"' && s.last() == '"') || (s[0] == '\'' && s.last() == '\'')) {
        s.subrange(1, s.len() - 1)
    } else {
        s
    }
}

/// Strips one layer of matching single or double quotes around `s`; anything
/// else, a lone quote character among it, comes back unchanged.
pub fn strip_quotes(s: &str) -> (r: &str)
    ensures
        r@ == unquoted(s@),
{
    let n = s.unicode_len();
    if n >= 2 {
        let first = s.get_char(0);
        let last = s.get_char(n - 1);
        if (first == '"' && last == '"') || (first == '\'' && last == '\'') {
            return s.substring_char(1, n - 1);
        }
    }
    s
}

/// `k` is the position of the first `=` in `t`.
pub open spec fn is_first_eq(t: Seq<char>, k: int) -> bool {
    &&& 0 <= k < t.len()
    &&& t[k] == '='
    &&& forall|m: int| 0 <= m < k ==> t[m] != '='
}

/// The (key, value) pair that one line gives, if any.
pub open spec fn dotenv_entry(line: Seq<char>) -> Option<(Seq<char>, Seq<char>)> {
    let t = trim(line);
    if t.len() == 0 || t[0] == '#' || !(exists|k: int| is_first_eq(t, k)) {
        None
    } else {
        let k = choose|k: int| is_first_eq(t, k);
        let key = trim(t.take(k));
        if key.len() == 0 {
            None
        } else {
            Some((key, unquoted(trim(t.skip(k + 1)))))
        }
    }
}

/// The pairs that a sequence of lines gives, in order.
pub open spec fn entries_of(lines: Seq<Seq<char>>) -> Seq<(Seq<char>, Seq<char>)>
    decreases lines.len(),
{
    if lines.len() == 0 {
        seq![]
    } else {
        let r = entries_of(lines.drop_last());
        match dotenv_entry(lines.last()) {
            Some(p) => r.push(p),
            None => r,
        }
    }
}

/// The pairs that the text of a configuration file gives, in order.
pub open spec fn dotenv_entries(contents: Seq<char>) -> Seq<(Seq<char>, Seq<char>)> {
    entries_of(split_lines(contents))
}

/// The pair that the line `text[lo..hi]` gives, if any.
fn parse_line(s: &Vec<char>, text: &str, lo: usize, hi: usize) -> (r: Option<(String, String)>)
    requires
        s@ == text@,
        lo <= hi <= s@.len(),
    ensures
        match r {
            Some(p) => dotenv_entry(s@.subrange(lo as int, hi as int)) == Some((p.0@, p.1@)),
            None => dotenv_entry(s@.subrange(lo as int, hi as int)) is None,
        },
{
    let ghost line = s@.subrange(lo as int, hi as int);
    let (a, b) = trim_range(s, lo, hi);
    let ghost t = s@.subrange(a as int, b as int);
    if a == b || s[a] == '#' {
        return None;
    }
    let mut k: usize = a;
    while k < b && s[k] != '='
        invariant
            a <= k <= b <= s@.len(),
            t == s@.subrange(a as int, b as int),
            forall|m: int| a <= m < k ==> s@[m] != '=',
        decreases b - k,
    {
        k = k + 1;
    }
    if k == b {
        assert(!(exists|j: int| is_first_eq(t, j))) by {
            if exists|j: int| is_first_eq(t, j) {
                let j = choose|j: int| is_first_eq(t, j);
                assert(s@[a + j] == '=');
            }
        }
        return None;
    }
    let ghost kk = k - a;
    assert(is_first_eq(t, kk));
    assert(forall|j: int| is_first_eq(t, j) ==> j == kk);
    let (ka, kb) = trim_range(s, a, k);
    assert(t.take(kk) =~= s@.subrange(a as int, k as int));
    if ka == kb {
        return None;
    }
    let (va, vb) = trim_range(s, k + 1, b);
    assert(t.skip(kk + 1) =~= s@.subrange(k + 1, b as int));
    let key = text.substring_char(ka, kb).to_owned();
    let value = strip_quotes(text.substring_char(va, vb)).to_owned();
    Some((key, value))
}

/// The (key, value) pairs of a configuration file, in the order of its lines.
pub fn parse_dotenv(contents: &str) -> (r: Vec<(String, String)>)
    ensures
        var_views(r@) == dotenv_entries(contents@),
{
    let s = chars_of(contents);
    let mut out: Vec<(String, String)> = Vec::new();
    let mut start: usize = 0;
    let mut i: usize = 0;
    assert(s@.take(0) =~= Seq::<char>::empty());
    while i < s.len()
        invariant
            s@ == contents@,
            start <= i <= s@.len(),
            split_lines(s@.take(i as int)).len() >= 1,
            split_lines(s@.take(i as int)).last() == s@.subrange(start as int, i as int),
            var_views(out@) == entries_of(split_lines(s@.take(i as int)).drop_last()),
        decreases s@.len() - i,
    {
        let ghost before = split_lines(s@.take(i as int));
        let ghost done = var_views(out@);
        assert(s@.take(i + 1).drop_last() =~= s@.take(i as int));
        if s[i] == '\n' {
            let entry = parse_line(&s, contents, start, i);
            assert(before =~= before.drop_last().push(before.last()));
            match entry {
                Some(p) => {
                    out.push(p);
                    assert(var_views(out@) =~= done.push((p.0@, p.1@)));
                },
                None => {},
            }
            assert(split_lines(s@.take(i + 1)).drop_last() =~= before);
            assert(s@.subrange(i + 1, i + 1) =~= Seq::<char>::empty());
            start = i + 1;
        } else {
            let ghost after = split_lines(s@.take(i + 1));
            assert(after.drop_last() =~= before.drop_last());
            assert(s@.subrange(start as int, i + 1) =~= s@.subrange(start as int, i as int).push(
                s@[i as int],
            ));
        }
        i = i + 1;
    }
    let ghost lines = split_lines(s@.take(i as int));
    let ghost done = var_views(out@);
    let entry = parse_line(&s, contents, start, i);
    assert(lines =~= lines.drop_last().push(lines.last()));
    match entry {
        Some(p) => {
            out.push(p);
            assert(var_views(out@) =~= done.push((p.0@, p.1@)));
        },
        None => {},
    }
    assert(s@.take(i as int) =~= s@);
    out
}


/// The keys of a sequence of pairs.
pub open spec fn keys_of(entries: Seq<(Seq<char>, Seq<char>)>) -> Seq<Seq<char>> {
    entries.map_values(|p: (Seq<char>, Seq<char>)| p.0)
}

/// The pairs that set a variable, in order: the file only provides defaults, so
/// a pair is left out when its key is among `present` (already set) or was
/// already given by an earlier pair.
pub open spec fn defaults_to_apply(
    entries: Seq<(Seq<char>, Seq<char>)>,
    present: Seq<Seq<char>>,
) -> Seq<(Seq<char>, Seq<char>)>
    decreases entries.len(),
{
    if entries.len() == 0 {
        seq![]
    } else {
        let pre = entries.drop_last();
        let r = defaults_to_apply(pre, present);
        let k = entries.last().0;
        if present.contains(k) || keys_of(pre).contains(k) {
            r
        } else {
            r.push(entries.last())
        }
    }
}

/// Whether some pair of `entries[..end]` has the key `key`.
fn key_given_before(entries: &Vec<(String, String)>, end: usize, key: &String) -> (r: bool)
    requires
        end <= entries@.len(),
    ensures
        r == keys_of(var_views(entries@).take(end as int)).contains(key@),
{
    let ghost ks = keys_of(var_views(entries@).take(end as int));
    let mut i: usize = 0;
    while i < end
        invariant
            i <= end <= entries@.len(),
            ks == keys_of(var_views(entries@).take(end as int)),
            forall|j: int| 0 <= j < i ==> ks[j] != key@,
        decreases end - i,
    {
        assert(ks[i as int] == entries@[i as int].0@);
        if str_eq(entries[i].0.as_str(), key.as_str()) {
            return true;
        }
        i = i + 1;
    }
    assert(!ks.contains(key@)) by {
        if ks.contains(key@) {
            let j = choose|j: int| 0 <= j < ks.len() && ks[j] == key@;
            assert(ks[j] != key@);
        }
    }
    false
}

/// The variables a configuration file sets, given the names already set in the
/// environment: each pair of the file whose key is neither already set nor
/// given by an earlier line, in the order of the lines.
pub fn dotenv_defaults(contents: &str, present: &Vec<String>) -> (r: Vec<(String, String)>)
    ensures
        var_views(r@) == defaults_to_apply(dotenv_entries(contents@), key_views(present@)),
{
    let entries = parse_dotenv(contents);
    let ghost all = var_views(entries@);
    let mut out: Vec<(String, String)> = Vec::new();
    let mut i: usize = 0;
    while i < entries.len()
        invariant
            i <= entries@.len(),
            all == var_views(entries@),
            var_views(out@) == defaults_to_apply(all.take(i as int), key_views(present@)),
        decreases entries@.len() - i,
    {
        let ghost done = var_views(out@);
        assert(all.take(i + 1).drop_last() =~= all.take(i as int));
        assert(all.take(i + 1).last() == (entries@[i as int].0@, entries@[i as int].1@));
        let key = &entries[i].0;
        if !has_key(present, key.as_str()) && !key_given_before(&entries, i, key) {
            let pair = (entries[i].0.clone(), entries[i].1.clone());
            out.push(pair);
            assert(var_views(out@) =~= done.push((entries@[i as int].0@, entries@[i as int].1@)));
        }
        i = i + 1;
    }
    assert(all.take(entries@.len() as int) =~= all);
    out
}

} // verus!

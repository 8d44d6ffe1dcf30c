//! Reading a process-table listing: one process per line, the executable name
//! first and then its full argument string, as `ps -eo comm=,args=` prints it.
use vstd::prelude::*;

use crate::text::{chars_of, is_ws, same_chars, split_lines, split_words, views, words};

verus! {

/// The name of the executable that runs the bridge and every channel adapter.
pub open spec fn adapter_binary() -> Seq<char> {
    "acomm"@
}

/// A listing line is a process of the adapter binary carrying `flag`: its first
/// word is exactly the binary's name, and one of the later words is exactly `flag`.
pub open spec fn line_matches(line: Seq<char>, flag: Seq<char>) -> bool {
    let w = words(line);
    &&& w.len() >= 1
    &&& w[0] == adapter_binary()
    &&& exists|i: int| 1 <= i < w.len() && w[i] == flag
}

/// Some line of the listing is a process of the adapter binary carrying `flag`.
pub open spec fn list_has_flag(list: Seq<char>, flag: Seq<char>) -> bool {
    exists|j: int| 0 <= j < split_lines(list).len() && line_matches(split_lines(list)[j], flag)
}

/// Decides `line_matches` on the characters `s[lo..hi]`.
fn chars_match_flag(s: &Vec<char>, lo: usize, hi: usize, flag: &Vec<char>) -> (r: bool)
    requires
        lo <= hi <= s@.len(),
    ensures
        r == line_matches(s@.subrange(lo as int, hi as int), flag@),
{
    let w = split_words(s, lo, hi);
    let ghost ws = words(s@.subrange(lo as int, hi as int));
    assert(ws.len() == w@.len());
    if w.len() == 0 {
        return false;
    }
    let name = chars_of("acomm");
    assert(ws[0] == w@[0]@);
    if !same_chars(&w[0], &name) {
        return false;
    }
    let mut i: usize = 1;
    while i < w.len()
        invariant
            1 <= i <= w@.len(),
            lo <= hi <= s@.len(),
            ws == words(s@.subrange(lo as int, hi as int)),
            ws == views(w@),
            ws[0] == adapter_binary(),
            forall|j: int| 1 <= j < i ==> ws[j] != flag@,
        decreases w@.len() - i,
    {
        assert(ws[i as int] == w@[i as int]@);
        if same_chars(&w[i], flag) {
            assert(ws[i as int] == flag@);
            return true;
        }
        i = i + 1;
    }
    false
}

/// Whether one line of a process listing is a process of the adapter binary
/// whose arguments hold `flag` as a whole word.
pub fn process_line_matches_acomm_flag(line: &str, flag: &str) -> (r: bool)
    ensures
        r == line_matches(line@, flag@),
{
    let s = chars_of(line);
    let f = chars_of(flag);
    assert(s@.subrange(0, s@.len() as int) =~= s@);
    chars_match_flag(&s, 0, s.len(), &f)
}

/// Whether some line of a process listing is a process of the adapter binary
/// whose arguments hold `flag` as a whole word.
pub fn process_list_has_acomm_flag(process_list: &str, flag: &str) -> (r: bool)
    ensures
        r == list_has_flag(process_list@, flag@),
{
    let s = chars_of(process_list);
    let f = chars_of(flag);
    let mut found = false;
    let mut start: usize = 0;
    let mut i: usize = 0;
    assert(s@.take(0) =~= Seq::<char>::empty());
    while i < s.len()
        invariant
            start <= i <= s@.len(),
            split_lines(s@.take(i as int)).len() >= 1,
            split_lines(s@.take(i as int)).last() == s@.subrange(start as int, i as int),
            found == exists|j: int|
                0 <= j < split_lines(s@.take(i as int)).len() - 1 && line_matches(
                    split_lines(s@.take(i as int))[j],
                    f@,
                ),
        decreases s@.len() - i,
    {
        let ghost before = split_lines(s@.take(i as int));
        assert(s@.take(i + 1).drop_last() =~= s@.take(i as int));
        if s[i] == '\n' {
            let m = chars_match_flag(&s, start, i, &f);
            found = found || m;
            start = i + 1;
            let ghost after = split_lines(s@.take(i + 1));
            assert(forall|j: int| 0 <= j < before.len() ==> after[j] == before[j]);
            assert(s@.subrange(start as int, i + 1) =~= Seq::<char>::empty());
            assert(found == exists|j: int|
                0 <= j < after.len() - 1 && line_matches(after[j], f@)) by {
                if m {
                    assert(line_matches(after[before.len() - 1], f@));
                }
                if found {
                    let j = choose|j: int|
                        0 <= j < after.len() - 1 && line_matches(after[j], f@);
                    if j < before.len() - 1 {
                        assert(line_matches(before[j], f@));
                    }
                }
            }
        } else {
            let ghost after = split_lines(s@.take(i + 1));
            assert(forall|j: int| 0 <= j < before.len() - 1 ==> after[j] == before[j]);
            assert(s@.subrange(start as int, i + 1) =~= s@.subrange(start as int, i as int).push(
                s@[i as int],
            ));
        }
        i = i + 1;
    }
    let last = chars_match_flag(&s, start, s.len(), &f);
    assert(s@.take(s@.len() as int) =~= s@);
    found || last
}

} // verus!

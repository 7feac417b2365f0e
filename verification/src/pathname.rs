//! Deriving a display name from a path: the last path segment, with the
//! whole path as the fallback when no segment can be extracted.

use vstd::prelude::*;
use vstd::string::*;

verus! {

/// `s` without its trailing `/` separators.
pub open spec fn without_trailing_separators(s: Seq<char>) -> Seq<char>
    decreases s.len(),
{
    if s.len() > 0 && s.last() == '/' {
        without_trailing_separators(s.drop_last())
    } else {
        s
    }
}

/// The index of the last `/` of `s`, or `-1` when there is none.
pub open spec fn last_separator(s: Seq<char>) -> int
    decreases s.len(),
{
    if s.len() == 0 {
        -1
    } else if s.last() == '/' {
        s.len() - 1
    } else {
        last_separator(s.drop_last())
    }
}

/// The last path segment: what follows the last separator once trailing
/// separators are dropped, or nothing when nothing remains (an empty
/// path, or separators only).
pub open spec fn last_segment(s: Seq<char>) -> Option<Seq<char>> {
    let t = without_trailing_separators(s);
    if t.len() == 0 {
        None
    } else {
        Some(t.subrange(last_separator(t) + 1, t.len() as int))
    }
}

/// The display name of a path: its last segment when one exists, the
/// whole path otherwise.
pub open spec fn display_name(s: Seq<char>) -> Seq<char> {
    match last_segment(s) {
        Some(name) => name,
        None => s,
    }
}

/// A scan that stopped right after a separator found the last one.
proof fn lemma_last_separator_scan(t: Seq<char>, k: int)
    requires
        0 <= k <= t.len(),
        forall|j: int| k <= j < t.len() ==> t[j] != '/',
        k == 0 || t[k - 1] == '/',
    ensures
        last_separator(t) == k - 1,
    decreases t.len(),
{
    if t.len() == 0 {
    } else if t.last() == '/' {
        assert(k == t.len());
    } else {
        assert(k < t.len());
        lemma_last_separator_scan(t.drop_last(), k);
    }
}

/// The last path segment of `path`, when one can be extracted.
pub fn last_segment_of(path: &str) -> (r: Option<String>)
    ensures
        r is Some <==> last_segment(path@) is Some,
        r matches Some(name) ==> name@ == last_segment(path@)->0,
{
    let n = path.unicode_len();
    proof {
        assert(path@.take(n as int) =~= path@);
    }
    let mut end: usize = n;
    while end > 0 && path.get_char(end - 1) == '/'
        invariant
            end <= n == path@.len(),
            without_trailing_separators(path@) == without_trailing_separators(
                path@.take(end as int),
            ),
        decreases end,
    {
        proof {
            assert(path@.take(end as int).last() == '/');
            assert(path@.take(end as int).drop_last() =~= path@.take(end as int - 1));
        }
        end = end - 1;
    }
    proof {
        assert(without_trailing_separators(path@) == path@.take(end as int));
    }
    if end == 0 {
        return None;
    }
    let mut start: usize = end;
    while start > 0 && path.get_char(start - 1) != '/'
        invariant
            start <= end <= path@.len(),
            forall|j: int| start <= j < end ==> path@[j] != '/',
        decreases start,
    {
        start = start - 1;
    }
    proof {
        let t = path@.take(end as int);
        lemma_last_separator_scan(t, start as int);
        assert(t.subrange(start as int, end as int) =~= path@.subrange(
            start as int,
            end as int,
        ));
    }
    let segment = path.substring_char(start, end);
    Some(String::from_str(segment))
}

/// The display name shown for a file in reports and exports: the last
/// path segment, or the full path when no segment can be extracted (the
/// caller may warn about the latter).
pub fn display_name_of(path: &str) -> (r: String)
    ensures
        r@ == display_name(path@),
{
    match last_segment_of(path) {
        Some(name) => name,
        None => String::from_str(path),
    }
}

} // verus!

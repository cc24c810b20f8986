//! Character-level text helpers: first occurrence of a character or of a
//! substring, and first-occurrence replacement. These back the profile file
//! parser and the destination-key rewrite.

use vstd::prelude::*;
use vstd::string::StrSliceExecFns;
use vstd::string::StringExecFns;

verus! {

/// Index of the first occurrence of `c` in `s` at or after `from`.
pub open spec fn find_char_from(s: Seq<char>, c: char, from: int) -> Option<int>
    decreases s.len() - from,
{
    if from < 0 || from >= s.len() {
        None
    } else if s[from] == c {
        Some(from)
    } else {
        find_char_from(s, c, from + 1)
    }
}

/// Where `c` first occurs at `j` and nowhere in `[from, j)`, the scan from
/// `from` finds exactly `j`.
pub(crate) proof fn lemma_find_char_first(s: Seq<char>, c: char, from: int, j: int)
    requires
        0 <= from <= j < s.len(),
        s[j] == c,
        forall|k: int| from <= k < j ==> s[k] != c,
    ensures
        find_char_from(s, c, from) == Some(j),
    decreases j - from,
{
    if from < j {
        lemma_find_char_first(s, c, from + 1, j);
    }
}

/// A found index lies in `[from, s.len())`, holds `c`, and nothing before it
/// in the scanned range does.
pub(crate) proof fn lemma_find_char_props(s: Seq<char>, c: char, from: int)
    requires
        0 <= from,
    ensures
        match find_char_from(s, c, from) {
            Some(j) => from <= j < s.len() && s[j] == c && (forall|k: int|
                from <= k < j ==> s[k] != c),
            None => forall|k: int| from <= k < s.len() ==> s[k] != c,
        },
    decreases s.len() - from,
{
    if from < s.len() && s[from] != c {
        lemma_find_char_props(s, c, from + 1);
    }
}

/// `pat` occurs in `s` starting at `at`.
pub open spec fn matches_at(s: Seq<char>, at: int, pat: Seq<char>) -> bool {
    &&& 0 <= at
    &&& at + pat.len() <= s.len()
    &&& s.subrange(at, at + pat.len() as int) == pat
}

/// Start of the first occurrence of `pat` in `s` at or after `from`.
pub open spec fn find_sub_from(s: Seq<char>, pat: Seq<char>, from: int) -> Option<int>
    decreases s.len() - from,
{
    if from < 0 || from + pat.len() > s.len() {
        None
    } else if matches_at(s, from, pat) {
        Some(from)
    } else if from >= s.len() {
        None
    } else {
        find_sub_from(s, pat, from + 1)
    }
}

/// `s` with the first occurrence of `pat` replaced by `to`; `s` itself when
/// `pat` does not occur.
pub open spec fn replace_first(s: Seq<char>, pat: Seq<char>, to: Seq<char>) -> Seq<char> {
    match find_sub_from(s, pat, 0) {
        Some(i) => s.subrange(0, i) + to + s.subrange(i + pat.len() as int, s.len() as int),
        None => s,
    }
}

/// Exec scan for the first occurrence of `c` at or after `from`.
pub(crate) fn str_find_char_from(s: &str, c: char, from: usize) -> (r: Option<usize>)
    requires
        from <= s@.len(),
    ensures
        match r {
            Some(j) => find_char_from(s@, c, from as int) == Some(j as int),
            None => find_char_from(s@, c, from as int) is None,
        },
{
    let n = s.unicode_len();
    let mut i = from;
    while i < n
        invariant
            from <= i <= n,
            n == s@.len(),
            find_char_from(s@, c, from as int) == find_char_from(s@, c, i as int),
        decreases n - i,
    {
        if s.get_char(i) == c {
            return Some(i);
        }
        i = i + 1;
    }
    None
}

/// Exec check that `pat` occurs in `s` starting at `at`.
pub(crate) fn str_matches_at(s: &str, at: usize, pat: &str) -> (b: bool)
    ensures
        b == matches_at(s@, at as int, pat@),
{
    let n = s.unicode_len();
    let m = pat.unicode_len();
    if at > n || m > n - at {
        return false;
    }
    let mut i: usize = 0;
    while i < m
        invariant
            0 <= i <= m,
            n == s@.len(),
            m == pat@.len(),
            at + m <= n,
            forall|k: int| 0 <= k < i ==> s@[at + k] == pat@[k],
        decreases m - i,
    {
        if s.get_char(at + i) != pat.get_char(i) {
            proof {
                assert(s@.subrange(at as int, at + m as int)[i as int] != pat@[i as int]);
            }
            return false;
        }
        i = i + 1;
    }
    proof {
        assert(s@.subrange(at as int, at + m as int) =~= pat@);
    }
    true
}

/// Exec scan for the first occurrence of `pat` at or after `from`.
pub(crate) fn str_find_sub_from(s: &str, pat: &str, from: usize) -> (r: Option<usize>)
    requires
        from <= s@.len(),
    ensures
        match r {
            Some(j) => find_sub_from(s@, pat@, from as int) == Some(j as int),
            None => find_sub_from(s@, pat@, from as int) is None,
        },
{
    let n = s.unicode_len();
    let m = pat.unicode_len();
    if m == 0 {
        proof {
            assert(s@.subrange(from as int, from as int) =~= pat@);
        }
        return Some(from);
    }
    if m > n - from {
        return None;
    }
    let mut i = from;
    while i <= n - m
        invariant
            from <= i,
            i <= n - m + 1,
            1 <= m <= n,
            n == s@.len(),
            m == pat@.len(),
            find_sub_from(s@, pat@, from as int) == find_sub_from(s@, pat@, i as int),
        decreases n - i,
    {
        if str_matches_at(s, i, pat) {
            return Some(i);
        }
        i = i + 1;
    }
    None
}

/// `s` with the first occurrence of `pat` replaced by `to`; `s` unchanged
/// when `pat` does not occur in it.
pub(crate) fn str_replace_first(s: &str, pat: &str, to: &str) -> (r: String)
    ensures
        r@ == replace_first(s@, pat@, to@),
{
    let n = s.unicode_len();
    let m = pat.unicode_len();
    match str_find_sub_from(s, pat, 0) {
        None => s.to_owned(),
        Some(i) => {
            proof {
                lemma_find_sub_props(s@, pat@, 0);
            }
            let mut out = String::new();
            out.append(s.substring_char(0, i));
            out.append(to);
            out.append(s.substring_char(i + m, n));
            proof {
                assert(out@ =~= replace_first(s@, pat@, to@));
            }
            out
        },
    }
}

/// A found substring start admits the match and lies in range.
pub(crate) proof fn lemma_find_sub_props(s: Seq<char>, pat: Seq<char>, from: int)
    requires
        0 <= from,
    ensures
        match find_sub_from(s, pat, from) {
            Some(j) => from <= j && j + pat.len() <= s.len() && matches_at(s, j, pat),
            None => true,
        },
    decreases s.len() - from,
{
    if from + pat.len() <= s.len() && !matches_at(s, from, pat) && from < s.len() {
        lemma_find_sub_props(s, pat, from + 1);
    }
}

} // verus!

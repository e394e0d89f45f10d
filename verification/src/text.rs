//! Small executable string utilities, each proved against the character view.

use vstd::prelude::*;
use vstd::string::StrSliceExecFns;
use vstd::string::StringExecFns;

verus! {

/// The character sequences of a sequence of strings.
pub open spec fn views_of(v: Seq<String>) -> Seq<Seq<char>> {
    v.map_values(|s: String| s@)
}

/// Appending a string appends its view.
pub proof fn lemma_views_of_push(v: Seq<String>, s: String)
    ensures
        views_of(v.push(s)) == views_of(v).push(s@),
{
    assert(views_of(v.push(s)) =~= views_of(v).push(s@));
}

/// Executable equality of two string slices, decided at the level of their
/// character sequences.
pub fn str_eq(a: &str, b: &str) -> (r: bool)
    ensures
        r == (a@ == b@),
{
    let sa = String::from_str(a);
    let sb = String::from_str(b);
    sa == sb
}

/// The least index at or after `from` where `c` occurs in `s`.
pub open spec fn find_char_from(s: Seq<char>, from: int, c: char) -> Option<int>
    decreases s.len() - from,
{
    if from < 0 || from >= s.len() {
        None
    } else if s[from] == c {
        Some(from)
    } else {
        find_char_from(s, from + 1, c)
    }
}

/// `find_char_from` finds exactly the least occurrence at or after `from`.
pub proof fn lemma_find_char_from(s: Seq<char>, from: int, c: char)
    requires
        0 <= from,
    ensures
        match find_char_from(s, from, c) {
            Some(k) => from <= k < s.len() && s[k] == c && (forall|j: int|
                from <= j < k ==> s[j] != c),
            None => forall|j: int| from <= j < s.len() ==> s[j] != c,
        },
    decreases s.len() - from,
{
    if from >= s.len() {
    } else if s[from] == c {
    } else {
        lemma_find_char_from(s, from + 1, c);
    }
}

/// Finds the least occurrence of `c` in `s` at or after `from`.
pub fn find_char_in(s: &str, from: usize, c: char) -> (r: Option<usize>)
    ensures
        match r {
            Some(k) => find_char_from(s@, from as int, c) == Some(k as int),
            None => find_char_from(s@, from as int, c) is None,
        },
{
    let n: usize = s.unicode_len();
    if from >= n {
        return None;
    }
    let mut j: usize = from;
    while j < n
        invariant
            from <= j <= n,
            n == s@.len(),
            find_char_from(s@, from as int, c) == find_char_from(s@, j as int, c),
        decreases n - j,
    {
        if s.get_char(j) == c {
            return Some(j);
        }
        j = j + 1;
    }
    None
}

/// `p` occurs in `s` starting at index `at`.
pub open spec fn starts_with_at(s: Seq<char>, p: Seq<char>, at: int) -> bool {
    0 <= at && at + p.len() <= s.len() && s.subrange(at, at + p.len()) == p
}

/// Decides [`starts_with_at`].
pub fn check_prefix_at(s: &str, p: &str, at: usize) -> (r: bool)
    ensures
        r == starts_with_at(s@, p@, at as int),
{
    let n: usize = s.unicode_len();
    let m: usize = p.unicode_len();
    if m > n || at > n - m {
        return false;
    }
    let piece = s.substring_char(at, at + m);
    str_eq(piece, p)
}

} // verus!

//! Character-level helpers shared by the grammar: the whitespace class,
//! scans for whitespace runs, and trimming.

use vstd::prelude::*;

verus! {

/// The whitespace class used throughout this crate: the ASCII whitespace
/// characters (space, tab, line feed, vertical tab, form feed, carriage
/// return).
pub open spec fn is_ws(c: char) -> bool {
    c == ' ' || c == '\t' || c == '\n' || c == '\u{000B}' || c == '\u{000C}' || c == '\r'
}

/// Returns whether `c` counts as whitespace for this crate's grammar.
pub fn is_whitespace(c: char) -> (r: bool)
    ensures
        r == is_ws(c),
{
    c == ' ' || c == '\t' || c == '\n' || c == '\u{000B}' || c == '\u{000C}' || c == '\r'
}

/// Returns whether `c` is not whitespace.
pub fn is_not_whitespace(c: char) -> (r: bool)
    ensures
        r == !is_ws(c),
{
    !is_whitespace(c)
}

/// The first position at or after `i` holding a non-whitespace character,
/// or the length of `s` when only whitespace remains.
pub open spec fn first_non_ws(s: Seq<char>, i: int) -> int
    recommends
        0 <= i <= s.len(),
    decreases s.len() - i,
{
    if i < 0 || i >= s.len() || !is_ws(s[i]) {
        i
    } else {
        first_non_ws(s, i + 1)
    }
}

/// The first position at or after `i` holding a whitespace character,
/// or the length of `s` when none follows.
pub open spec fn first_ws(s: Seq<char>, i: int) -> int
    recommends
        0 <= i <= s.len(),
    decreases s.len() - i,
{
    if i < 0 || i >= s.len() || is_ws(s[i]) {
        i
    } else {
        first_ws(s, i + 1)
    }
}

/// The end of `s` once trailing whitespace before position `j` is dropped:
/// the least position `b <= j` such that everything in `b..j` is whitespace
/// and `s[b - 1]`, if any, is not.
pub open spec fn trimmed_end(s: Seq<char>, j: int) -> int
    recommends
        0 <= j <= s.len(),
    decreases j,
{
    if j <= 0 || j > s.len() || !is_ws(s[j - 1]) {
        j
    } else {
        trimmed_end(s, j - 1)
    }
}

/// `s` with leading and trailing whitespace removed.
pub open spec fn trim_spec(s: Seq<char>) -> Seq<char> {
    let a = first_non_ws(s, 0);
    if a == s.len() {
        Seq::empty()
    } else {
        s.subrange(a, trimmed_end(s, s.len() as int))
    }
}

pub proof fn lemma_first_non_ws_bounds(s: Seq<char>, i: int)
    requires
        0 <= i <= s.len(),
    ensures
        i <= first_non_ws(s, i) <= s.len(),
        forall|k: int| i <= k < first_non_ws(s, i) ==> is_ws(s[k]),
        first_non_ws(s, i) < s.len() ==> !is_ws(s[first_non_ws(s, i)]),
    decreases s.len() - i,
{
    if i < s.len() && is_ws(s[i]) {
        lemma_first_non_ws_bounds(s, i + 1);
    }
}

pub proof fn lemma_first_ws_bounds(s: Seq<char>, i: int)
    requires
        0 <= i <= s.len(),
    ensures
        i <= first_ws(s, i) <= s.len(),
        forall|k: int| i <= k < first_ws(s, i) ==> !is_ws(s[k]),
        first_ws(s, i) < s.len() ==> is_ws(s[first_ws(s, i)]),
    decreases s.len() - i,
{
    if i < s.len() && !is_ws(s[i]) {
        lemma_first_ws_bounds(s, i + 1);
    }
}

pub proof fn lemma_trimmed_end_bounds(s: Seq<char>, j: int)
    requires
        0 <= j <= s.len(),
    ensures
        0 <= trimmed_end(s, j) <= j,
        forall|k: int| trimmed_end(s, j) <= k < j ==> is_ws(s[k]),
        trimmed_end(s, j) > 0 ==> !is_ws(s[trimmed_end(s, j) - 1]),
    decreases j,
{
    if j > 0 && is_ws(s[j - 1]) {
        lemma_trimmed_end_bounds(s, j - 1);
    }
}

/// A line that carries a non-whitespace character somewhere keeps a
/// non-empty trimmed form, and a line of pure whitespace trims to nothing.
pub proof fn lemma_trim_len(s: Seq<char>)
    ensures
        trim_spec(s).len() == 0 <==> first_non_ws(s, 0) == s.len(),
{
    lemma_first_non_ws_bounds(s, 0);
    lemma_trimmed_end_bounds(s, s.len() as int);
    let a = first_non_ws(s, 0);
    if a < s.len() {
        let b = trimmed_end(s, s.len() as int);
        if b <= a {
            assert(is_ws(s[a]));
        }
    }
}

/// Trimming a line that already starts and ends with non-whitespace
/// characters gives the line back unchanged.
pub proof fn lemma_trim_of_trimmed(s: Seq<char>)
    requires
        s.len() > 0,
        !is_ws(s[0]),
        !is_ws(s[s.len() - 1]),
    ensures
        trim_spec(s) == s,
{
    assert(first_non_ws(s, 0) == 0);
    assert(trimmed_end(s, s.len() as int) == s.len());
    assert(trim_spec(s) =~= s);
}

/// Advances `i` past any whitespace run in `s`.
pub fn skip_whitespace(s: &str, i: usize) -> (r: usize)
    requires
        i <= s@.len(),
    ensures
        r == first_non_ws(s@, i as int),
        i <= r <= s@.len(),
{
    let n = s.unicode_len();
    let mut j = i;
    while j < n && is_whitespace(s.get_char(j))
        invariant
            i <= j <= n,
            n == s@.len(),
            first_non_ws(s@, i as int) == first_non_ws(s@, j as int),
        decreases n - j,
    {
        j = j + 1;
    }
    j
}

/// Advances `i` past the run of non-whitespace characters at `i`.
pub fn skip_word(s: &str, i: usize) -> (r: usize)
    requires
        i <= s@.len(),
    ensures
        r == first_ws(s@, i as int),
        i <= r <= s@.len(),
{
    let n = s.unicode_len();
    let mut j = i;
    while j < n && is_not_whitespace(s.get_char(j))
        invariant
            i <= j <= n,
            n == s@.len(),
            first_ws(s@, i as int) == first_ws(s@, j as int),
        decreases n - j,
    {
        j = j + 1;
    }
    j
}

/// Removes leading and trailing whitespace, borrowing from `s`.
pub fn trim(s: &str) -> (r: &str)
    ensures
        r@ == trim_spec(s@),
{
    let n = s.unicode_len();
    let a = skip_whitespace(s, 0);
    if a == n {
        proof {
            reveal_strlit("");
            assert(""@ =~= Seq::<char>::empty());
        }
        return "";
    }
    proof {
        lemma_first_non_ws_bounds(s@, 0);
    }
    let mut b = n;
    while b > a && is_whitespace(s.get_char(b - 1))
        invariant
            a < b <= n,
            n == s@.len(),
            a == first_non_ws(s@, 0),
            a < n,
            !is_ws(s@[a as int]),
            trimmed_end(s@, n as int) == trimmed_end(s@, b as int),
        decreases b,
    {
        b = b - 1;
    }
    assert(b > a);
    assert(trimmed_end(s@, b as int) == b);
    s.substring_char(a, b)
}

} // verus!

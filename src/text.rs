//! Small verified helpers on strings viewed as sequences of characters.

use vstd::prelude::*;

verus! {

/// Relies on str::to_lowercase: the result depends on the characters alone.
pub uninterp spec fn lower_of(s: Seq<char>) -> Seq<char>;

/// Lower-cases a string (Unicode-aware, as `str::to_lowercase` does).
#[verifier::external_body]
pub(crate) fn lowercase(s: &str) -> (r: String)
    ensures
        r@ == lower_of(s@),
{
    s.to_lowercase()
}

/// `pat` occurs in `s` starting at character `i`.
pub open spec fn occurs_at(s: Seq<char>, pat: Seq<char>, i: int) -> bool {
    0 <= i && i + pat.len() <= s.len() && s.subrange(i, i + pat.len()) == pat
}

/// `pat` occurs somewhere in `s`.
pub open spec fn contains_seq(s: Seq<char>, pat: Seq<char>) -> bool {
    exists|i: int| #[trigger] occurs_at(s, pat, i)
}

/// Whether `pat` occurs in `s` at character position `i`.
fn matches_at(s: &str, pat: &str, i: usize, s_len: usize, p_len: usize) -> (r: bool)
    requires
        s_len == s@.len(),
        p_len == pat@.len(),
        i + p_len <= s_len,
    ensures
        r == occurs_at(s@, pat@, i as int),
{
    let mut j: usize = 0;
    while j < p_len
        invariant
            s_len == s@.len(),
            p_len == pat@.len(),
            i + p_len <= s_len,
            j <= p_len,
            forall|k: int| 0 <= k < j ==> s@[i + k] == pat@[k],
        decreases p_len - j,
    {
        if s.get_char(i + j) != pat.get_char(j) {
            assert(s@.subrange(i as int, i + p_len)[j as int] != pat@[j as int]);
            return false;
        }
        j += 1;
    }
    assert(s@.subrange(i as int, i + p_len) =~= pat@);
    true
}

/// Whether `pat` occurs as a substring of `s`.
pub fn contains_str(s: &str, pat: &str) -> (r: bool)
    ensures
        r == contains_seq(s@, pat@),
{
    let s_len = s.unicode_len();
    let p_len = pat.unicode_len();
    if p_len > s_len {
        assert forall|i: int| !occurs_at(s@, pat@, i) by {}
        return false;
    }
    let last = s_len - p_len;
    let mut i: usize = 0;
    loop
        invariant
            s_len == s@.len(),
            p_len == pat@.len(),
            last == s_len - p_len,
            i <= last,
            forall|k: int| 0 <= k < i ==> !occurs_at(s@, pat@, k),
        ensures
            forall|k: int| 0 <= k <= last ==> !occurs_at(s@, pat@, k),
        decreases last - i,
    {
        if matches_at(s, pat, i, s_len, p_len) {
            return true;
        }
        if i == last {
            break;
        }
        i += 1;
    }
    assert forall|k: int| !occurs_at(s@, pat@, k) by {
        if 0 <= k <= last {
        }
    }
    false
}

} // verus!

verus! {

/// Index of the first `c` at or after `from`, or the length of `s` if there is none.
pub open spec fn first_stop(s: Seq<char>, c: char, from: int) -> int
    decreases s.len() - from,
{
    if from < 0 || from >= s.len() {
        s.len() as int
    } else if s[from] == c {
        from
    } else {
        first_stop(s, c, from + 1)
    }
}

/// The characters of `s` before its first `c` (all of `s` if it holds none).
pub open spec fn until_char(s: Seq<char>, c: char) -> Seq<char> {
    s.subrange(0, first_stop(s, c, 0))
}

/// `p` is a prefix of `s`.
pub open spec fn has_prefix(s: Seq<char>, p: Seq<char>) -> bool {
    occurs_at(s, p, 0)
}

/// `p` is a suffix of `s`.
pub open spec fn has_suffix(s: Seq<char>, p: Seq<char>) -> bool {
    occurs_at(s, p, s.len() - p.len())
}

/// `first_stop` lies between `from` and the length, points at a `c` when
/// it is short of the length, and no `c` comes before it.
pub proof fn lemma_first_stop_bounds(s: Seq<char>, c: char, from: int)
    requires
        0 <= from <= s.len(),
    ensures
        from <= first_stop(s, c, from) <= s.len(),
        first_stop(s, c, from) < s.len() ==> s[first_stop(s, c, from)] == c,
        forall|k: int| from <= k < first_stop(s, c, from) ==> s[k] != c,
    decreases s.len() - from,
{
    if from < s.len() && s[from] != c {
        lemma_first_stop_bounds(s, c, from + 1);
    }
}

/// Character position of the first `c` at or after `from` (the length if none).
pub fn find_char(s: &str, c: char, from: usize) -> (r: usize)
    requires
        from <= s@.len(),
    ensures
        r == first_stop(s@, c, from as int),
{
    let n = s.unicode_len();
    let mut i = from;
    while i < n
        invariant
            n == s@.len(),
            from <= i <= n,
            first_stop(s@, c, from as int) == first_stop(s@, c, i as int),
        decreases n - i,
    {
        if s.get_char(i) == c {
            return i;
        }
        i += 1;
    }
    i
}

/// Whether `p` is a prefix of `s`.
pub fn starts_with(s: &str, p: &str) -> (r: bool)
    ensures
        r == has_prefix(s@, p@),
{
    let s_len = s.unicode_len();
    let p_len = p.unicode_len();
    if p_len > s_len {
        return false;
    }
    matches_at(s, p, 0, s_len, p_len)
}

/// Whether `p` is a suffix of `s`.
pub fn ends_with(s: &str, p: &str) -> (r: bool)
    ensures
        r == has_suffix(s@, p@),
{
    let s_len = s.unicode_len();
    let p_len = p.unicode_len();
    if p_len > s_len {
        return false;
    }
    matches_at(s, p, s_len - p_len, s_len, p_len)
}

/// Whether two strings hold the same characters.
pub fn str_eq(a: &str, b: &str) -> (r: bool)
    ensures
        r == (a@ == b@),
{
    let a_len = a.unicode_len();
    let b_len = b.unicode_len();
    if a_len != b_len {
        return false;
    }
    let r = matches_at(a, b, 0, a_len, b_len);
    assert(a@.subrange(0, a_len as int) =~= a@);
    r
}


/// Relies on str::trim: leading and trailing white space removed; the
/// result depends on the characters alone.
pub uninterp spec fn trim_of(s: Seq<char>) -> Seq<char>;

/// Removes leading and trailing white space (as `str::trim` does).
pub(crate) fn trim(s: &str) -> (r: String)
    ensures
        r@ == trim_of(s@),
{
    trim_str(s).to_string()
}

/// Relies on str::trim.
#[verifier::external_body]
fn trim_str(s: &str) -> (r: &str)
    ensures
        r@ == trim_of(s@),
{
    s.trim()
}

/// The characters of `s` before its first `c`.
pub fn until(s: &str, c: char) -> (r: String)
    ensures
        r@ == until_char(s@, c),
{
    let k = find_char(s, c, 0);
    proof {
        lemma_first_stop_bounds(s@, c, 0);
    }
    s.substring_char(0, k).to_string()
}

} // verus!

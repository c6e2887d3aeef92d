//! Character-level text operations used by the file model, each with its
//! meaning stated over `Seq<char>`.
use vstd::prelude::*;

verus! {

/// `pat` stands in `s` starting at position `i`.
pub open spec fn occurs_at(s: Seq<char>, pat: Seq<char>, i: int) -> bool {
    0 <= i && i + pat.len() <= s.len() && s.subrange(i, i + pat.len()) == pat
}

/// The first position at or after `k` where `pat` occurs in `s`.
pub open spec fn first_occurrence_from(s: Seq<char>, pat: Seq<char>, k: int) -> Option<int>
    decreases s.len() + 1 - k,
{
    if k < 0 || k + pat.len() > s.len() {
        None
    } else if occurs_at(s, pat, k) {
        Some(k)
    } else {
        first_occurrence_from(s, pat, k + 1)
    }
}

/// `s` with the first occurrence of a non-empty `pat` replaced by `with`;
/// `s` itself when `pat` is empty or absent.
pub open spec fn replace_first(s: Seq<char>, pat: Seq<char>, with: Seq<char>) -> Seq<char> {
    if pat.len() == 0 {
        s
    } else {
        match first_occurrence_from(s, pat, 0) {
            Some(i) => s.subrange(0, i) + with + s.subrange(i + pat.len(), s.len() as int),
            None => s,
        }
    }
}

pub open spec fn starts_with(s: Seq<char>, p: Seq<char>) -> bool {
    p.len() <= s.len() && s.subrange(0, p.len() as int) == p
}

/// The position of the last `c` in `s`, or -1.
pub open spec fn last_index_of(s: Seq<char>, c: char) -> int
    decreases s.len(),
{
    if s.len() == 0 {
        -1
    } else if s.last() == c {
        s.len() - 1
    } else {
        last_index_of(s.drop_last(), c)
    }
}

pub proof fn lemma_last_index_bounds(s: Seq<char>, c: char)
    ensures
        -1 <= last_index_of(s, c) < s.len(),
        last_index_of(s, c) >= 0 ==> s[last_index_of(s, c)] == c,
    decreases s.len(),
{
    if s.len() > 0 && s.last() != c {
        lemma_last_index_bounds(s.drop_last(), c);
    }
}

pub proof fn lemma_first_occurrence_found(s: Seq<char>, pat: Seq<char>, k: int)
    ensures
        first_occurrence_from(s, pat, k) matches Some(i) ==> k <= i && occurs_at(s, pat, i),
    decreases s.len() + 1 - k,
{
    if k < 0 || k + pat.len() > s.len() {
    } else if occurs_at(s, pat, k) {
    } else {
        lemma_first_occurrence_found(s, pat, k + 1);
    }
}

/// The last component of a `/`-separated path.
pub open spec fn base_name(p: Seq<char>) -> Seq<char> {
    p.subrange(last_index_of(p, '/') + 1, p.len() as int)
}

/// The extension of a file name: from its last `.` on, dot included; empty
/// when the name has no dot past its first character, and for `..`.
pub open spec fn extension_of_name(n: Seq<char>) -> Seq<char> {
    let i = last_index_of(n, '.');
    if i > 0 && n != seq!['.', '.'] {
        n.subrange(i, n.len() as int)
    } else {
        Seq::empty()
    }
}

pub proof fn lemma_absent_has_no_first(s: Seq<char>, pat: Seq<char>, k: int)
    requires
        forall|i: int| !occurs_at(s, pat, i),
    ensures
        first_occurrence_from(s, pat, k) is None,
    decreases s.len() + 1 - k,
{
    if k < 0 || k + pat.len() > s.len() {
    } else {
        lemma_absent_has_no_first(s, pat, k + 1);
    }
}

/// Replacing a text that does not occur changes nothing: once `.md` has
/// been replaced away, replacing `.md` again is a no-op.
pub proof fn lemma_replace_absent_is_identity(s: Seq<char>, pat: Seq<char>, with: Seq<char>)
    requires
        forall|i: int| !occurs_at(s, pat, i),
    ensures
        replace_first(s, pat, with) == s,
{
    lemma_absent_has_no_first(s, pat, 0);
}

/// Whether `pat` stands in `s` at position `k`.
pub fn matches_at(s: &str, s_len: usize, pat: &str, pat_len: usize, k: usize) -> (r: bool)
    requires
        s_len == s@.len(),
        pat_len == pat@.len(),
    ensures
        r == occurs_at(s@, pat@, k as int),
{
    if k > s_len || pat_len > s_len - k {
        return false;
    }
    let mut j: usize = 0;
    while j < pat_len
        invariant
            j <= pat_len,
            s_len == s@.len(),
            pat_len == pat@.len(),
            k + pat_len <= s_len,
            s@.subrange(k as int, k + j) == pat@.subrange(0, j as int),
        decreases pat_len - j,
    {
        if s.get_char(k + j) != pat.get_char(j) {
            assert(s@.subrange(k as int, k + pat_len)[j as int] != pat@[j as int]);
            return false;
        }
        assert(s@.subrange(k as int, k + j + 1) =~= s@.subrange(k as int, k + j).push(s@[k + j]));
        assert(pat@.subrange(0, j + 1) =~= pat@.subrange(0, j as int).push(pat@[j as int]));
        j = j + 1;
    }
    assert(pat@.subrange(0, pat_len as int) =~= pat@);
    true
}

/// The first position where `pat` occurs in `s`.
pub fn find_first(s: &str, pat: &str) -> (r: Option<usize>)
    ensures
        match first_occurrence_from(s@, pat@, 0) {
            Some(i) => r matches Some(j) && j == i,
            None => r.is_none(),
        },
{
    let s_len = s.unicode_len();
    let pat_len = pat.unicode_len();
    if pat_len > s_len {
        return None;
    }
    let mut k: usize = 0;
    while k <= s_len - pat_len
        invariant
            s_len == s@.len(),
            pat_len == pat@.len(),
            pat_len <= s_len,
            k <= s_len - pat_len + 1,
            first_occurrence_from(s@, pat@, 0) == first_occurrence_from(s@, pat@, k as int),
        decreases s_len - pat_len + 1 - k,
    {
        if matches_at(s, s_len, pat, pat_len, k) {
            return Some(k);
        }
        if k == s_len - pat_len {
            assert(first_occurrence_from(s@, pat@, k + 1).is_none());
            return None;
        }
        k = k + 1;
    }
    None
}

/// Whether `s` begins with `p`.
pub fn has_prefix(s: &str, p: &str) -> (r: bool)
    ensures
        r == starts_with(s@, p@),
{
    let s_len = s.unicode_len();
    let p_len = p.unicode_len();
    matches_at(s, s_len, p, p_len, 0)
}

/// `s` from character position `from` on.
pub fn suffix_from(s: &str, from: usize) -> (r: String)
    requires
        from <= s@.len(),
    ensures
        r@ == s@.subrange(from as int, s@.len() as int),
{
    let n = s.unicode_len();
    s.substring_char(from, n).to_string()
}

/// Joins three pieces of text.
pub fn join3(a: &str, b: &str, c: &str) -> (r: String)
    ensures
        r@ == a@ + b@ + c@,
{
    let mut r = a.to_string();
    r.append(b);
    r.append(c);
    r
}

/// `s` with the first occurrence of `pat` replaced by `with`; unchanged when
/// `pat` is empty or does not occur.
pub fn replace_first_of(s: &str, pat: &str, with: &str) -> (r: String)
    ensures
        r@ == replace_first(s@, pat@, with@),
{
    let pat_len = pat.unicode_len();
    if pat_len == 0 {
        return s.to_string();
    }
    match find_first(s, pat) {
        Some(i) => {
            proof {
                lemma_first_occurrence_found(s@, pat@, 0);
            }
            let n = s.unicode_len();
            let head = s.substring_char(0, i);
            let tail = s.substring_char(i + pat_len, n);
            join3(head, with, tail)
        },
        None => s.to_string(),
    }
}

/// The position of the last `c` in `s`.
pub fn find_last(s: &str, c: char) -> (r: Option<usize>)
    ensures
        match r {
            Some(i) => i == last_index_of(s@, c),
            None => last_index_of(s@, c) == -1,
        },
{
    let n = s.unicode_len();
    let mut i: usize = n;
    assert(s@.subrange(0, n as int) =~= s@);
    while i > 0
        invariant
            i <= n,
            n == s@.len(),
            last_index_of(s@, c) == last_index_of(s@.subrange(0, i as int), c),
        decreases i,
    {
        assert(s@.subrange(0, i as int).drop_last() =~= s@.subrange(0, i - 1));
        if s.get_char(i - 1) == c {
            return Some(i - 1);
        }
        i = i - 1;
    }
    None
}

} // verus!

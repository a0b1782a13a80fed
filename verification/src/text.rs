//! Character-level text utilities shared by the rest of the library.
//!
//! Strings are reasoned about through their view, a `Seq<char>`. The helpers
//! here give the few `str` operations the library needs (ASCII lower-casing,
//! substring search, suffix trimming, equality) a precise meaning over those
//! sequences.

use vstd::prelude::*;
use vstd::string::*;

verus! {

/// `String::push` appends one character at the end of the string.
pub assume_specification[ String::push ](s: &mut String, ch: char)
    ensures
        final(s)@ == old(s)@.push(ch),
;

// ---------------------------------------------------------------------------
// Specification vocabulary
// ---------------------------------------------------------------------------

/// `char::to_ascii_lowercase`: `'A'..='Z'` map to `'a'..='z'`, all else is kept.
pub open spec fn ascii_lower(c: char) -> char {
    if 'A' <= c && c <= 'Z' {
        ((c as u32) + 32) as char
    } else {
        c
    }
}

/// `str::to_ascii_lowercase` on a character sequence.
pub open spec fn lower(s: Seq<char>) -> Seq<char> {
    s.map_values(|c: char| ascii_lower(c))
}

/// `pat` occurs in `s` starting at index `i`.
pub open spec fn occurs_at(s: Seq<char>, pat: Seq<char>, i: int) -> bool {
    0 <= i && i + pat.len() <= s.len() && s.subrange(i, i + pat.len()) == pat
}

/// `pat` occurs somewhere in `s` (`str::contains`).
pub open spec fn contains(s: Seq<char>, pat: Seq<char>) -> bool {
    exists|i: int| #[trigger] occurs_at(s, pat, i)
}

/// `i` is the leftmost occurrence of `pat` in `s` (what `str::find` reports).
pub open spec fn is_first_occurrence(s: Seq<char>, pat: Seq<char>, i: int) -> bool {
    &&& occurs_at(s, pat, i)
    &&& forall|j: int| 0 <= j < i ==> !#[trigger] occurs_at(s, pat, j)
}

/// `s` ends with `suf`.
pub open spec fn ends_with(s: Seq<char>, suf: Seq<char>) -> bool {
    suf.len() <= s.len() && s.subrange(s.len() - suf.len(), s.len() as int) == suf
}

/// `str::trim_end_matches(suf)` for a non-empty pattern: strip `suf` from the
/// end as many times as it matches.
pub open spec fn trim_end_all(s: Seq<char>, suf: Seq<char>) -> Seq<char>
    decreases s.len(),
{
    if suf.len() > 0 && ends_with(s, suf) {
        trim_end_all(s.subrange(0, s.len() - suf.len()), suf)
    } else {
        s
    }
}

/// The index of the leftmost occurrence of `pat` in `s` (meaningful when
/// `contains(s, pat)`).
pub open spec fn first_occurrence(s: Seq<char>, pat: Seq<char>) -> int {
    choose|i: int| is_first_occurrence(s, pat, i)
}

proof fn lemma_first_below(s: Seq<char>, pat: Seq<char>, i: int)
    requires
        occurs_at(s, pat, i),
    ensures
        exists|j: int| is_first_occurrence(s, pat, j),
    decreases i,
{
    if exists|j: int| 0 <= j < i && #[trigger] occurs_at(s, pat, j) {
        let j = choose|j: int| 0 <= j < i && #[trigger] occurs_at(s, pat, j);
        lemma_first_below(s, pat, j);
    } else {
        assert(is_first_occurrence(s, pat, i));
    }
}

/// Whenever `pat` occurs in `s`, `first_occurrence` is its leftmost occurrence.
pub proof fn lemma_first_occurrence(s: Seq<char>, pat: Seq<char>)
    requires
        contains(s, pat),
    ensures
        is_first_occurrence(s, pat, first_occurrence(s, pat)),
{
    let i = choose|i: int| occurs_at(s, pat, i);
    lemma_first_below(s, pat, i);
}

/// Two different leftmost occurrences cannot exist.
pub proof fn lemma_first_occurrence_unique(s: Seq<char>, pat: Seq<char>, i: int, j: int)
    requires
        is_first_occurrence(s, pat, i),
        is_first_occurrence(s, pat, j),
    ensures
        i == j,
{
    if i < j {
        assert(!occurs_at(s, pat, i));
    } else if j < i {
        assert(!occurs_at(s, pat, j));
    }
}

// ---------------------------------------------------------------------------
// Executable helpers
// ---------------------------------------------------------------------------

/// The characters of `s`, in order.
pub fn chars_of(s: &str) -> (r: Vec<char>)
    ensures
        r@ == s@,
{
    let mut out: Vec<char> = Vec::new();
    let mut it = s.chars();
    loop
        invariant
            out@ + vstd::std_specs::iter::IteratorSpec::remaining(&it) == s@,
            vstd::std_specs::iter::IteratorSpec::decrease(&it) is Some,
        ensures
            out@ == s@,
        decreases vstd::std_specs::iter::IteratorSpec::decrease(&it)->0,
    {
        match it.next() {
            Some(c) => out.push(c),
            None => break,
        }
    }
    out
}

/// A `String` holding `v[lo..hi]`.
pub fn string_of(v: &Vec<char>, lo: usize, hi: usize) -> (r: String)
    requires
        lo <= hi <= v@.len(),
    ensures
        r@ == v@.subrange(lo as int, hi as int),
{
    let mut out = String::new();
    let mut k = lo;
    while k < hi
        invariant
            lo <= k <= hi <= v@.len(),
            out@ == v@.subrange(lo as int, k as int),
        decreases hi - k,
    {
        out.push(v[k]);
        assert(v@.subrange(lo as int, k + 1) == v@.subrange(lo as int, k as int).push(v@[k as int]));
        k = k + 1;
    }
    out
}

/// `char::to_ascii_lowercase`.
pub fn lower_char(c: char) -> (r: char)
    ensures
        r == ascii_lower(c),
{
    if 'A' <= c && c <= 'Z' {
        ((c as u8) + 32) as char
    } else {
        c
    }
}

/// ASCII lower-casing of every character.
pub fn lower_chars(v: &Vec<char>) -> (r: Vec<char>)
    ensures
        r@ == lower(v@),
{
    let mut out: Vec<char> = Vec::new();
    let mut k: usize = 0;
    while k < v.len()
        invariant
            k <= v@.len(),
            out@ == lower(v@.subrange(0, k as int)),
        decreases v@.len() - k,
    {
        out.push(lower_char(v[k]));
        assert(lower(v@.subrange(0, k + 1)) == lower(v@.subrange(0, k as int)).push(
            ascii_lower(v@[k as int]),
        ));
        k = k + 1;
    }
    assert(v@.subrange(0, v@.len() as int) == v@);
    out
}

/// Whether `pat` occurs in `hay` at index `i`.
pub fn matches_at(hay: &Vec<char>, pat: &Vec<char>, i: usize) -> (r: bool)
    ensures
        r == occurs_at(hay@, pat@, i as int),
{
    if pat.len() > hay.len() || i > hay.len() - pat.len() {
        return false;
    }
    let mut k: usize = 0;
    while k < pat.len()
        invariant
            k <= pat@.len(),
            i + pat@.len() <= hay@.len(),
            hay@.len() <= usize::MAX,
            forall|m: int| 0 <= m < k ==> hay@[i + m] == pat@[m],
        decreases pat@.len() - k,
    {
        if hay[i + k] != pat[k] {
            assert(hay@.subrange(i as int, i + pat@.len())[k as int] != pat@[k as int]);
            return false;
        }
        k = k + 1;
    }
    assert(hay@.subrange(i as int, i + pat@.len()) =~= pat@);
    true
}

/// Leftmost occurrence of `pat` in `hay` (`str::find`), by character index.
pub fn find_chars(hay: &Vec<char>, pat: &Vec<char>) -> (r: Option<usize>)
    ensures
        match r {
            Some(i) => is_first_occurrence(hay@, pat@, i as int),
            None => !contains(hay@, pat@),
        },
{
    if pat.len() > hay.len() {
        assert forall|j: int| !occurs_at(hay@, pat@, j) by {}
        return None;
    }
    let last = hay.len() - pat.len();
    let mut i: usize = 0;
    loop
        invariant
            last == hay@.len() - pat@.len(),
            i <= last,
            forall|j: int| 0 <= j < i ==> !#[trigger] occurs_at(hay@, pat@, j),
        ensures
            forall|j: int| 0 <= j <= last ==> !#[trigger] occurs_at(hay@, pat@, j),
        decreases last - i,
    {
        if matches_at(hay, pat, i) {
            return Some(i);
        }
        if i == last {
            break;
        }
        i = i + 1;
    }
    assert forall|j: int| !#[trigger] occurs_at(hay@, pat@, j) by {
        if 0 <= j && j <= last {
        }
    }
    None
}

/// `str::contains` on character vectors.
pub fn contains_chars(hay: &Vec<char>, pat: &Vec<char>) -> (r: bool)
    ensures
        r == contains(hay@, pat@),
{
    match find_chars(hay, pat) {
        Some(i) => {
            assert(occurs_at(hay@, pat@, i as int));
            true
        },
        None => false,
    }
}

/// Character-wise equality of two vectors.
pub fn chars_eq(a: &Vec<char>, b: &Vec<char>) -> (r: bool)
    ensures
        r == (a@ == b@),
{
    if a.len() != b.len() {
        return false;
    }
    let mut k: usize = 0;
    while k < a.len()
        invariant
            a@.len() == b@.len(),
            k <= a@.len(),
            forall|m: int| 0 <= m < k ==> a@[m] == b@[m],
        decreases a@.len() - k,
    {
        if a[k] != b[k] {
            return false;
        }
        k = k + 1;
    }
    assert(a@ =~= b@);
    true
}

/// String equality.
pub fn str_eq(a: &str, b: &str) -> (r: bool)
    ensures
        r == (a@ == b@),
{
    let av = chars_of(a);
    let bv = chars_of(b);
    chars_eq(&av, &bv)
}

/// The shortest prefix end `r <= end` with `v[..r] == trim_end_all(v[..end], pat)`.
pub fn trim_end_chars(v: &Vec<char>, end: usize, pat: &Vec<char>) -> (r: usize)
    requires
        end <= v@.len(),
        pat@.len() > 0,
    ensures
        r <= end,
        v@.subrange(0, r as int) == trim_end_all(v@.subrange(0, end as int), pat@),
{
    let n = v.len();
    let mut e = end;
    loop
        invariant
            e <= end <= v@.len(),
            n == v@.len(),
            pat@.len() > 0,
            trim_end_all(v@.subrange(0, end as int), pat@) == trim_end_all(v@.subrange(0, e as int), pat@),
        ensures
            e <= end,
            trim_end_all(v@.subrange(0, end as int), pat@) == v@.subrange(0, e as int),
        decreases e,
    {
        let ghost cur = v@.subrange(0, e as int);
        if pat.len() <= e && matches_at(v, pat, e - pat.len()) {
            assert(cur.subrange(cur.len() - pat@.len(), cur.len() as int) =~= v@.subrange(e - pat@.len(), e as int));
            assert(cur.subrange(0, cur.len() - pat@.len()) =~= v@.subrange(0, e - pat@.len()));
            e = e - pat.len();
        } else {
            assert(!ends_with(cur, pat@)) by {
                if pat@.len() <= cur.len() {
                    assert(cur.subrange(cur.len() - pat@.len(), cur.len() as int) =~= v@.subrange(e - pat@.len(), e as int));
                }
            }
            break;
        }
    }
    e
}

} // verus!

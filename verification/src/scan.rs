//! Searching byte strings for a pattern, and cutting them at its first occurrence.

use vstd::prelude::*;

verus! {

/// `pat` stands in `s` at position `i`.
pub open spec fn occurs_at(s: Seq<u8>, pat: Seq<u8>, i: int) -> bool {
    0 <= i && i + pat.len() <= s.len() && s.subrange(i, i + pat.len()) == pat
}

/// `pat` stands in `s` at position `i` and at no earlier position.
pub open spec fn first_at(s: Seq<u8>, pat: Seq<u8>, i: int) -> bool {
    occurs_at(s, pat, i) && forall|j: int| 0 <= j < i ==> !occurs_at(s, pat, j)
}

/// `pat` stands somewhere in `s`.
pub open spec fn contains(s: Seq<u8>, pat: Seq<u8>) -> bool {
    exists|i: int| occurs_at(s, pat, i)
}

/// The first position at which `pat` stands in `s`, where `s` contains `pat`.
pub open spec fn index_of(s: Seq<u8>, pat: Seq<u8>) -> int {
    choose|i: int| first_at(s, pat, i)
}

/// `s` cut at the first occurrence of `pat`: what stands before it and what stands after it.
pub open spec fn split_once(s: Seq<u8>, pat: Seq<u8>) -> Option<(Seq<u8>, Seq<u8>)> {
    if contains(s, pat) {
        let i = index_of(s, pat);
        Some((s.subrange(0, i), s.subrange(i + pat.len(), s.len() as int)))
    } else {
        None
    }
}

/// A first occurrence is the first occurrence: `index_of` finds it, and `split_once` cuts there.
pub proof fn lemma_first_at(s: Seq<u8>, pat: Seq<u8>, i: int)
    requires
        first_at(s, pat, i),
    ensures
        contains(s, pat),
        index_of(s, pat) == i,
        split_once(s, pat) == Some((s.subrange(0, i), s.subrange(i + pat.len(), s.len() as int))),
{
    let k = index_of(s, pat);
    assert(first_at(s, pat, k));
    if k < i {
        assert(!occurs_at(s, pat, k));
    }
    if i < k {
        assert(!occurs_at(s, pat, i));
    }
}

/// Where `pat` occurs at all, it has a first occurrence.
pub proof fn lemma_contains_has_first(s: Seq<u8>, pat: Seq<u8>)
    requires
        contains(s, pat),
    ensures
        first_at(s, pat, index_of(s, pat)),
{
    let w = choose|i: int| occurs_at(s, pat, i);
    lemma_least_occurrence(s, pat, w);
}

proof fn lemma_least_occurrence(s: Seq<u8>, pat: Seq<u8>, w: int)
    requires
        occurs_at(s, pat, w),
    ensures
        exists|i: int| first_at(s, pat, i),
    decreases w,
{
    if exists|j: int| 0 <= j < w && occurs_at(s, pat, j) {
        let j = choose|j: int| 0 <= j < w && occurs_at(s, pat, j);
        lemma_least_occurrence(s, pat, j);
    } else {
        assert(first_at(s, pat, w));
    }
}

/// Whether `pat` stands in `hay` at position `at`.
fn matches_at(hay: &[u8], pat: &[u8], at: usize) -> (found: bool)
    requires
        at + pat.len() <= hay.len(),
    ensures
        found == occurs_at(hay@, pat@, at as int),
{
    let mut k: usize = 0;
    while k < pat.len()
        invariant
            k <= pat.len(),
            at + pat.len() <= hay.len(),
            forall|m: int| 0 <= m < k ==> hay@[at + m] == pat@[m],
        decreases pat.len() - k,
    {
        if hay[at + k] != pat[k] {
            assert(hay@.subrange(at as int, at + pat.len())[k as int] != pat@[k as int]);
            return false;
        }
        k = k + 1;
    }
    assert(hay@.subrange(at as int, at + pat.len()) =~= pat@);
    true
}

/// The first position at which `pat` stands in `hay`.
pub fn find(hay: &[u8], pat: &[u8]) -> (found: Option<usize>)
    ensures
        found is Some <==> contains(hay@, pat@),
        found matches Some(i) ==> first_at(hay@, pat@, i as int) && i == index_of(hay@, pat@),
{
    if pat.len() > hay.len() {
        return None;
    }
    if pat.len() == 0 {
        proof {
            assert(hay@.subrange(0, 0) =~= pat@);
            lemma_first_at(hay@, pat@, 0);
        }
        return Some(0);
    }
    let last = hay.len() - pat.len();
    let mut at: usize = 0;
    while at <= last
        invariant
            pat.len() > 0,
            last + pat.len() == hay.len(),
            at <= last + 1,
            forall|j: int| 0 <= j < at ==> !occurs_at(hay@, pat@, j),
        decreases last + 1 - at,
    {
        if matches_at(hay, pat, at) {
            proof {
                lemma_first_at(hay@, pat@, at as int);
            }
            return Some(at);
        }
        at = at + 1;
    }
    None
}

} // verus!

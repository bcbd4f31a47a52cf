//! Searching a sequence for the first occurrence of a pattern.

use vstd::prelude::*;

verus! {

/// `pat` occurs in `s` at index `i`.
pub open spec fn occurs_at<T>(s: Seq<T>, pat: Seq<T>, i: int) -> bool {
    0 <= i && i + pat.len() <= s.len() && s.subrange(i, i + pat.len()) == pat
}

/// The least index at or after `from` at which `pat` occurs in `s`.
pub open spec fn find_from<T>(s: Seq<T>, pat: Seq<T>, from: int) -> Option<int>
    decreases s.len() - from,
{
    if from < 0 || from + pat.len() > s.len() {
        None
    } else if occurs_at(s, pat, from) {
        Some(from)
    } else if from < s.len() {
        find_from(s, pat, from + 1)
    } else {
        None
    }
}

/// The least index at which `pat` occurs in `s`.
pub open spec fn find_first<T>(s: Seq<T>, pat: Seq<T>) -> Option<int> {
    find_from(s, pat, 0)
}

/// `find_from` returns an occurrence at or after `from`, and nothing
/// occurs between `from` and it; it returns `None` only where nothing occurs
/// at or after `from`.
pub proof fn lemma_find_from<T>(s: Seq<T>, pat: Seq<T>, from: int)
    requires
        0 <= from,
    ensures
        match find_from(s, pat, from) {
            Some(i) => from <= i && occurs_at(s, pat, i) && forall|j: int|
                from <= j < i ==> !occurs_at(s, pat, j),
            None => forall|j: int| from <= j ==> !occurs_at(s, pat, j),
        },
    decreases s.len() - from,
{
    if from + pat.len() > s.len() {
    } else if occurs_at(s, pat, from) {
    } else if from < s.len() {
        lemma_find_from(s, pat, from + 1);
    } else {
        assert(pat.len() == 0);
        assert(s.subrange(from, from + pat.len()) =~= pat);
    }
}

/// An index at which `pat` occurs and before which, from `from` on, it does
/// not, is what `find_from` returns.
pub proof fn lemma_find_from_is(s: Seq<u8>, pat: Seq<u8>, from: int, i: int)
    requires
        0 <= from <= i,
        occurs_at(s, pat, i),
        forall|j: int| from <= j < i ==> !occurs_at(s, pat, j),
    ensures
        find_from(s, pat, from) == Some(i),
{
    lemma_find_from(s, pat, from);
}

/// Bytes appended to `s` do not move an occurrence that lies within `s`.
pub proof fn lemma_find_first_extend(s: Seq<u8>, tail: Seq<u8>, pat: Seq<u8>)
    requires
        find_first(s, pat) is Some,
    ensures
        find_first(s + tail, pat) == find_first(s, pat),
{
    let i = find_first(s, pat)->0;
    lemma_find_from(s, pat, 0);
    assert((s + tail).subrange(i, i + pat.len()) =~= s.subrange(i, i + pat.len()));
    assert forall|j: int| 0 <= j < i implies !occurs_at(s + tail, pat, j) by {
        assert(!occurs_at(s, pat, j));
        assert((s + tail).subrange(j, j + pat.len()) =~= s.subrange(j, j + pat.len()));
    }
    lemma_find_from_is(s + tail, pat, 0, i);
}

/// The first occurrence of `pat` in `s` at or after `from`, by comparing
/// byte for byte.
pub fn find_bytes(s: &[u8], pat: &[u8], from: usize) -> (found: Option<usize>)
    ensures
        match found {
            Some(i) => find_from(s@, pat@, from as int) == Some(i as int),
            None => find_from(s@, pat@, from as int) is None,
        },
{
    if pat.len() > s.len() || from > s.len() - pat.len() {
        return None;
    }
    let last: usize = s.len() - pat.len();
    let mut i: usize = from;
    while i <= last
        invariant
            from <= i <= last + 1,
            last == s.len() - pat.len(),
            find_from(s@, pat@, from as int) == find_from(s@, pat@, i as int),
        decreases last + 1 - i,
    {
        let mut k: usize = 0;
        while k < pat.len() && s[i + k] == pat[k]
            invariant
                k <= pat.len(),
                i <= last,
                last == s.len() - pat.len(),
                forall|j: int| 0 <= j < k ==> s@[i + j] == pat@[j],
            decreases pat.len() - k,
        {
            k = k + 1;
        }
        if k == pat.len() {
            assert(s@.subrange(i as int, i + pat.len()) =~= pat@);
            return Some(i);
        }
        assert(!occurs_at(s@, pat@, i as int)) by {
            if occurs_at(s@, pat@, i as int) {
                assert(s@.subrange(i as int, i + pat.len())[k as int] == pat@[k as int]);
            }
        }
        i = i + 1;
    }
    None
}

} // verus!

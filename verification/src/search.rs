//! Substring search over a byte buffer, built on a fast single-byte scan.

use vstd::prelude::*;
use vstd::slice::slice_subrange;
use vstd::string::StringSliceAdditionalSpecFns;

verus! {

/// `memchr::memchr` searches `haystack` for its first byte equal to `needle`:
/// it returns the index of that byte, which lies inside the haystack and has
/// no equal byte before it, or `None` when the haystack holds no such byte.
pub assume_specification[ memchr::memchr ](needle: u8, haystack: &[u8]) -> (r: Option<usize>)
    ensures
        match r {
            Some(i) => i < haystack@.len() && haystack@[i as int] == needle && forall|j: int|
                0 <= j < i ==> haystack@[j] != needle,
            None => forall|j: int| 0 <= j < haystack@.len() ==> haystack@[j] != needle,
        },
;

/// `pat` stands in `s` at index `at`.
pub open spec fn occurs_at(s: Seq<u8>, at: int, pat: Seq<u8>) -> bool {
    &&& 0 <= at
    &&& at + pat.len() <= s.len()
    &&& forall|k: int| 0 <= k < pat.len() ==> s[at + k] == pat[k]
}

/// The least index at or after `from` at which `pat` stands in `s`.
pub open spec fn first_occurrence(s: Seq<u8>, from: int, pat: Seq<u8>) -> Option<int>
    decreases s.len() - from,
{
    if from < 0 || from + pat.len() > s.len() {
        None
    } else if occurs_at(s, from, pat) {
        Some(from)
    } else {
        first_occurrence(s, from + 1, pat)
    }
}

/// The first occurrence of a pattern lies at or after the place where its
/// search began, and the pattern stands there.
pub proof fn lemma_first_occurrence(s: Seq<u8>, from: int, pat: Seq<u8>)
    requires
        0 <= from,
    ensures
        first_occurrence(s, from, pat) matches Some(k) ==> from <= k && occurs_at(s, k, pat),
    decreases s.len() - from,
{
    if from + pat.len() <= s.len() && !occurs_at(s, from, pat) {
        lemma_first_occurrence(s, from + 1, pat);
    }
}

/// `first_occurrence` is the leftmost match: a match at `at` with none in
/// `[from, at)` is the one it returns.
pub proof fn lemma_first_occurrence_is(s: Seq<u8>, from: int, pat: Seq<u8>, at: int)
    requires
        0 <= from <= at,
        occurs_at(s, at, pat),
        forall|j: int| from <= j < at ==> !occurs_at(s, j, pat),
    ensures
        first_occurrence(s, from, pat) == Some(at),
    decreases at - from,
{
    if from < at {
        lemma_first_occurrence_is(s, from + 1, pat, at);
    }
}

/// Where nothing matches at or after `from`, `first_occurrence` is `None`.
pub proof fn lemma_first_occurrence_none(s: Seq<u8>, from: int, pat: Seq<u8>)
    requires
        0 <= from,
        forall|j: int| from <= j ==> !occurs_at(s, j, pat),
    ensures
        first_occurrence(s, from, pat).is_none(),
    decreases s.len() - from,
{
    if from + pat.len() <= s.len() {
        lemma_first_occurrence_none(s, from + 1, pat);
    }
}

/// Finds the leftmost occurrence of the bytes of `x` in `h` at or after
/// `start`, and returns its distance from `start`.
///
/// A match is a place where every byte of `x` stands in `h`, in order and
/// wholly inside `h`. `None` means that there is no match at or after
/// `start`. The empty string matches wherever it is looked for inside `h`
/// or at its end.
pub fn find_str(h: &[u8], start: usize, x: &str) -> (r: Option<usize>)
    ensures
        match r {
            Some(k) => {
                &&& occurs_at(h@, start + k, x.spec_bytes())
                &&& forall|j: int| start <= j < start + k ==> !occurs_at(h@, j, x.spec_bytes())
            },
            None => forall|j: int| start <= j ==> !occurs_at(h@, j, x.spec_bytes()),
        },
        first_occurrence(h@, start as int, x.spec_bytes()) == match r {
            Some(k) => Some(start + k),
            None => None,
        },
{
    let xs = x.as_bytes();
    if start > h.len() {
        proof {
            lemma_first_occurrence_none(h@, start as int, xs@);
        }
        return None;
    }
    if xs.len() == 0 {
        proof {
            lemma_first_occurrence_is(h@, start as int, xs@, start as int);
        }
        return Some(0);
    }
    let mut pos: usize = start;
    loop
        invariant
            xs@ == x.spec_bytes(),
            xs@.len() > 0,
            start <= pos <= h@.len(),
            forall|j: int| start <= j < pos ==> !occurs_at(h@, j, xs@),
        decreases h@.len() - pos,
    {
        let rest = slice_subrange(h, pos, h.len());
        let found: usize = match memchr::memchr(xs[0], rest) {
            Some(found) => found,
            None => {
                proof {
                    assert forall|j: int| start <= j implies !occurs_at(h@, j, xs@) by {
                        if pos <= j < h@.len() {
                            assert(rest@[j - pos] == h@[j]);
                        }
                    }
                    lemma_first_occurrence_none(h@, start as int, xs@);
                }
                return None;
            },
        };
        let candidate: usize = pos + found;
        proof {
            assert(rest@[found as int] == h@[candidate as int]);
            assert forall|j: int| start <= j < candidate implies !occurs_at(h@, j, xs@) by {
                if pos <= j {
                    assert(rest@[j - pos] == h@[j]);
                }
            }
        }
        if xs.len() > h.len() - candidate {
            proof {
                lemma_first_occurrence_none(h@, start as int, xs@);
            }
            return None;
        }
        let mut i: usize = 1;
        let mut matched = true;
        while i < xs.len()
            invariant_except_break
                matched,
            invariant
                1 <= i <= xs@.len(),
                candidate + xs@.len() <= h@.len() <= usize::MAX,
                h@[candidate as int] == xs@[0],
                forall|k: int| 0 <= k < i ==> h@[candidate + k] == xs@[k],
            ensures
                matched ==> occurs_at(h@, candidate as int, xs@),
                !matched ==> !occurs_at(h@, candidate as int, xs@),
            decreases xs@.len() - i,
        {
            if h[candidate + i] != xs[i] {
                matched = false;
                break ;
            }
            i += 1;
        }
        if matched {
            proof {
                lemma_first_occurrence_is(h@, start as int, xs@, candidate as int);
            }
            return Some(candidate - start);
        }
        pos = candidate + 1;
    }
}

} // verus!

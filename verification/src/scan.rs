//! Searching a run of bytes for a marker.

use vstd::prelude::*;

verus! {

/// `needle` stands in `hay` at index `at`.
pub open spec fn occurs_at(hay: Seq<u8>, needle: Seq<u8>, at: int) -> bool {
    &&& 0 <= at
    &&& at + needle.len() <= hay.len()
    &&& hay.subrange(at, at + needle.len()) == needle
}

/// `needle` stands somewhere in `hay`.
pub open spec fn occurs(hay: Seq<u8>, needle: Seq<u8>) -> bool {
    exists|at: int| occurs_at(hay, needle, at)
}

/// `needle` stands in `hay` at `at` and nowhere before.
pub open spec fn first_at(hay: Seq<u8>, needle: Seq<u8>, at: int) -> bool {
    &&& occurs_at(hay, needle, at)
    &&& forall|before: int| 0 <= before < at ==> !occurs_at(hay, needle, before)
}

/// `needle` stands in `hay` at `at` and nowhere after.
pub open spec fn last_at(hay: Seq<u8>, needle: Seq<u8>, at: int) -> bool {
    &&& occurs_at(hay, needle, at)
    &&& forall|after: int| at < after ==> !occurs_at(hay, needle, after)
}

/// The least index at which `needle` stands in `hay`, if it stands there at all.
pub open spec fn first_occurrence(hay: Seq<u8>, needle: Seq<u8>) -> Option<int> {
    if occurs(hay, needle) {
        Some(choose|at: int| first_at(hay, needle, at))
    } else {
        None
    }
}

/// The greatest index at which `needle` stands in `hay`, if it stands there at all.
pub open spec fn last_occurrence(hay: Seq<u8>, needle: Seq<u8>) -> Option<int> {
    if occurs(hay, needle) {
        Some(choose|at: int| last_at(hay, needle, at))
    } else {
        None
    }
}

/// An index at which the needle stands first is the first occurrence.
pub proof fn lemma_first_occurrence_is(hay: Seq<u8>, needle: Seq<u8>, at: int)
    requires
        first_at(hay, needle, at),
    ensures
        first_occurrence(hay, needle) == Some(at),
{
    assert(first_at(hay, needle, choose|i: int| first_at(hay, needle, i)));
}

/// An index at which the needle stands last is the last occurrence.
pub proof fn lemma_last_occurrence_is(hay: Seq<u8>, needle: Seq<u8>, at: int)
    requires
        last_at(hay, needle, at),
    ensures
        last_occurrence(hay, needle) == Some(at),
{
    assert(last_at(hay, needle, choose|i: int| last_at(hay, needle, i)));
}

/// Where the first occurrence is, the needle stands, and nowhere before; there
/// is none exactly where the needle stands nowhere.
pub proof fn lemma_first_occurrence(hay: Seq<u8>, needle: Seq<u8>)
    ensures
        match first_occurrence(hay, needle) {
            Some(at) => first_at(hay, needle, at),
            None => !occurs(hay, needle),
        },
{
    if occurs(hay, needle) {
        let some = choose|at: int| occurs_at(hay, needle, at);
        lemma_least_occurrence(hay, needle, some);
    }
}

/// Below an index at which the needle stands there is one at which it stands
/// first.
proof fn lemma_least_occurrence(hay: Seq<u8>, needle: Seq<u8>, at: int)
    requires
        occurs_at(hay, needle, at),
    ensures
        exists|least: int| first_at(hay, needle, least),
    decreases at,
{
    if exists|before: int| 0 <= before < at && occurs_at(hay, needle, before) {
        let before = choose|before: int| 0 <= before < at && occurs_at(hay, needle, before);
        lemma_least_occurrence(hay, needle, before);
    } else {
        assert(first_at(hay, needle, at));
    }
}

/// Where the last occurrence is, the needle stands, and nowhere after; there
/// is none exactly where the needle stands nowhere.
pub proof fn lemma_last_occurrence(hay: Seq<u8>, needle: Seq<u8>)
    ensures
        match last_occurrence(hay, needle) {
            Some(at) => last_at(hay, needle, at),
            None => !occurs(hay, needle),
        },
{
    if occurs(hay, needle) {
        let some = choose|at: int| occurs_at(hay, needle, at);
        lemma_greatest_occurrence(hay, needle, some);
    }
}

/// Above an index at which the needle stands there is one at which it stands
/// last.
proof fn lemma_greatest_occurrence(hay: Seq<u8>, needle: Seq<u8>, at: int)
    requires
        occurs_at(hay, needle, at),
    ensures
        exists|greatest: int| last_at(hay, needle, greatest),
    decreases hay.len() - at,
{
    if exists|after: int| at < after && occurs_at(hay, needle, after) {
        let after = choose|after: int| at < after && occurs_at(hay, needle, after);
        lemma_greatest_occurrence(hay, needle, after);
    } else {
        assert(last_at(hay, needle, at));
    }
}

/// Tells whether `needle` stands in `hay` at `at`.
pub fn matches_at(hay: &[u8], needle: &[u8], at: usize) -> (found: bool)
    ensures
        found == occurs_at(hay@, needle@, at as int),
{
    if at > hay.len() || needle.len() > hay.len() - at {
        return false;
    }
    let mut k: usize = 0;
    while k < needle.len()
        invariant
            k <= needle.len(),
            at + needle.len() <= hay.len(),
            forall|j: int| 0 <= j < k ==> hay@[at + j] == needle@[j],
        decreases needle.len() - k,
    {
        if hay[at + k] != needle[k] {
            return false;
        }
        k += 1;
    }
    assert(hay@.subrange(at as int, at + needle@.len()) =~= needle@);
    true
}

/// The first index at which `needle` stands in `hay`.
pub fn find_first(hay: &[u8], needle: &[u8]) -> (found: Option<usize>)
    ensures
        match found {
            Some(at) => first_occurrence(hay@, needle@) == Some(at as int) && first_at(
                hay@,
                needle@,
                at as int,
            ),
            None => first_occurrence(hay@, needle@) is None && !occurs(hay@, needle@),
        },
{
    if needle.len() > hay.len() {
        return None;
    }
    let stop = hay.len() - needle.len();
    let mut at: usize = 0;
    loop
        invariant
            stop == hay.len() - needle.len(),
            at <= stop,
            forall|before: int| 0 <= before < at ==> !occurs_at(hay@, needle@, before),
        decreases stop - at,
    {
        if matches_at(hay, needle, at) {
            proof {
                lemma_first_occurrence_is(hay@, needle@, at as int);
            }
            return Some(at);
        }
        if at == stop {
            return None;
        }
        at += 1;
    }
}

/// The last index at which `needle` stands in `hay`.
pub fn find_last(hay: &[u8], needle: &[u8]) -> (found: Option<usize>)
    ensures
        match found {
            Some(at) => last_occurrence(hay@, needle@) == Some(at as int) && last_at(
                hay@,
                needle@,
                at as int,
            ),
            None => last_occurrence(hay@, needle@) is None && !occurs(hay@, needle@),
        },
{
    if needle.len() > hay.len() {
        return None;
    }
    let mut at: usize = hay.len() - needle.len();
    loop
        invariant
            at <= hay.len() - needle.len(),
            forall|after: int| at < after ==> !occurs_at(hay@, needle@, after),
        decreases at,
    {
        if matches_at(hay, needle, at) {
            proof {
                lemma_last_occurrence_is(hay@, needle@, at as int);
            }
            return Some(at);
        }
        if at == 0 {
            return None;
        }
        at -= 1;
    }
}

} // verus!

//! The first element of a sequence that a predicate holds of.

use vstd::prelude::*;

verus! {

/// The place of the first element that the predicate holds of.
pub open spec fn first_index<T>(s: Seq<T>, wanted: spec_fn(T) -> bool) -> Option<int>
    decreases s.len(),
{
    if s.len() == 0 {
        None
    } else if wanted(s[0]) {
        Some(0)
    } else {
        match first_index(s.drop_first(), wanted) {
            Some(i) => Some(i + 1),
            None => None,
        }
    }
}

/// The first index is the least place at which the predicate holds, and
/// there is none exactly where the predicate holds nowhere.
pub proof fn lemma_first_index<T>(s: Seq<T>, wanted: spec_fn(T) -> bool)
    ensures
        match first_index(s, wanted) {
            Some(i) => 0 <= i < s.len() && wanted(s[i]) && forall|k: int|
                0 <= k < i ==> !wanted(s[k]),
            None => forall|k: int| 0 <= k < s.len() ==> !wanted(s[k]),
        },
    decreases s.len(),
{
    if s.len() > 0 && !wanted(s[0]) {
        let rest = s.drop_first();
        lemma_first_index(rest, wanted);
        match first_index(rest, wanted) {
            Some(i) => {
                assert(rest[i] == s[i + 1]);
                assert forall|k: int| 0 <= k < i + 1 implies !wanted(s[k]) by {
                    if k > 0 {
                        assert(rest[k - 1] == s[k]);
                    }
                }
            },
            None => {
                assert forall|k: int| 0 <= k < s.len() implies !wanted(s[k]) by {
                    if k > 0 {
                        assert(rest[k - 1] == s[k]);
                    }
                }
            },
        }
    }
}

/// A place at which the predicate holds, with none before it, is the first
/// index.
pub proof fn lemma_first_index_is<T>(s: Seq<T>, wanted: spec_fn(T) -> bool, at: int)
    requires
        0 <= at < s.len(),
        wanted(s[at]),
        forall|k: int| 0 <= k < at ==> !wanted(s[k]),
    ensures
        first_index(s, wanted) == Some(at),
{
    lemma_first_index(s, wanted);
}

/// Where the predicate holds nowhere there is no first index.
pub proof fn lemma_first_index_none<T>(s: Seq<T>, wanted: spec_fn(T) -> bool)
    requires
        forall|k: int| 0 <= k < s.len() ==> !wanted(s[k]),
    ensures
        first_index(s, wanted) is None,
{
    lemma_first_index(s, wanted);
}

} // verus!

//! First-match search over sequences, as the declarations and tables of this
//! crate use it: where several entries would do, the first one counts.

use vstd::prelude::*;

verus! {

/// The position of the first item of `items` that `wanted` accepts.
pub open spec fn first_match<T>(items: Seq<T>, wanted: spec_fn(T) -> bool) -> Option<int>
    decreases items.len(),
{
    if items.len() == 0 {
        None
    } else if wanted(items[0]) {
        Some(0)
    } else {
        match first_match(items.drop_first(), wanted) {
            Some(at) => Some(at + 1),
            None => None,
        }
    }
}

/// What `first_match` returns is a position of an accepted item with none
/// accepted before it; it returns nothing only where no item is accepted.
pub proof fn lemma_first_match<T>(items: Seq<T>, wanted: spec_fn(T) -> bool)
    ensures
        match first_match(items, wanted) {
            Some(at) => {
                &&& 0 <= at < items.len()
                &&& wanted(items[at])
                &&& forall|j: int| 0 <= j < at ==> !wanted(#[trigger] items[j])
            },
            None => forall|j: int| 0 <= j < items.len() ==> !wanted(#[trigger] items[j]),
        },
    decreases items.len(),
{
    if items.len() > 0 && !wanted(items[0]) {
        let rest = items.drop_first();
        lemma_first_match(rest, wanted);
        match first_match(rest, wanted) {
            Some(at) => {
                assert(items[at + 1] == rest[at]);
                assert forall|j: int| 0 <= j < at + 1 implies !wanted(#[trigger] items[j]) by {
                    if j > 0 {
                        assert(items[j] == rest[j - 1]);
                    }
                }
            },
            None => {
                assert forall|j: int| 0 <= j < items.len() implies !wanted(#[trigger] items[j]) by {
                    if j > 0 {
                        assert(items[j] == rest[j - 1]);
                    }
                }
            },
        }
    }
}

/// An accepted item with none accepted before it is the first match.
pub proof fn lemma_first_match_found<T>(items: Seq<T>, wanted: spec_fn(T) -> bool, at: int)
    requires
        0 <= at < items.len(),
        wanted(items[at]),
        forall|j: int| 0 <= j < at ==> !wanted(#[trigger] items[j]),
    ensures
        first_match(items, wanted) == Some(at),
{
    lemma_first_match(items, wanted);
}

/// Where no item is accepted there is no match.
pub proof fn lemma_first_match_absent<T>(items: Seq<T>, wanted: spec_fn(T) -> bool)
    requires
        forall|j: int| 0 <= j < items.len() ==> !wanted(#[trigger] items[j]),
    ensures
        first_match(items, wanted) is None,
{
    lemma_first_match(items, wanted);
}

/// Two tests that agree on every item find the same first match.
pub proof fn lemma_first_match_same<T>(
    items: Seq<T>,
    wanted: spec_fn(T) -> bool,
    other: spec_fn(T) -> bool,
)
    requires
        forall|j: int| 0 <= j < items.len() ==> wanted(#[trigger] items[j]) == other(items[j]),
    ensures
        first_match(items, wanted) == first_match(items, other),
{
    lemma_first_match(items, wanted);
    lemma_first_match(items, other);
    match first_match(items, wanted) {
        Some(at) => {
            match first_match(items, other) {
                Some(at_other) => {
                    assert(wanted(items[at_other]));
                    assert(other(items[at]));
                },
                None => {
                    assert(other(items[at]));
                },
            }
        },
        None => {
            match first_match(items, other) {
                Some(at_other) => {
                    assert(wanted(items[at_other]));
                },
                None => {},
            }
        },
    }
}

} // verus!

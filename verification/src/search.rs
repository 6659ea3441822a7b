//! Finding the first position with a property.

use vstd::prelude::*;

verus! {

/// The least index in `from..to` at which `pred` holds, if there is one.
pub open spec fn least_from(pred: spec_fn(int) -> bool, from: int, to: int) -> Option<int>
    decreases to - from,
{
    if from >= to {
        None
    } else if pred(from) {
        Some(from)
    } else {
        least_from(pred, from + 1, to)
    }
}

/// `least_from` finds an index exactly when `pred` holds somewhere in the
/// range, and then it is the least such index.
pub proof fn lemma_least_from(pred: spec_fn(int) -> bool, from: int, to: int)
    ensures
        match least_from(pred, from, to) {
            Some(k) => from <= k < to && pred(k) && forall|i: int|
                from <= i < k ==> !#[trigger] pred(i),
            None => forall|i: int| from <= i < to ==> !#[trigger] pred(i),
        },
    decreases to - from,
{
    if from < to && !pred(from) {
        lemma_least_from(pred, from + 1, to);
    }
}

} // verus!

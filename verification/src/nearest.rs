//! What it means to be the first smallest entry of a sequence. Both searches
//! of the analyzer are stated over this.

use vstd::prelude::*;

verus! {

/// How far a mark lies from a cumulative distance, whichever is larger.
pub open spec fn gap(mark: int, distance: int) -> int {
    if mark >= distance {
        mark - distance
    } else {
        distance - mark
    }
}

/// The same numbers, freed of their width.
pub open spec fn as_ints(values: Seq<u64>) -> Seq<int> {
    Seq::new(values.len(), |index: int| values[index] as int)
}

/// No entry of `values` is smaller than the one at `index`, and every entry
/// before it is larger.
pub open spec fn is_first_minimum(values: Seq<int>, index: int) -> bool {
    &&& 0 <= index < values.len()
    &&& forall|j: int| 0 <= j < values.len() ==> values[index] <= #[trigger] values[j]
    &&& forall|j: int| 0 <= j < index ==> values[index] < #[trigger] values[j]
}

/// The position of the first smallest entry of `values`.
pub open spec fn first_minimum(values: Seq<int>) -> int {
    choose|index: int| is_first_minimum(values, index)
}

/// A sequence has at most one first smallest entry, so a position that is
/// one is the one that `first_minimum` names.
pub proof fn lemma_first_minimum_is(values: Seq<int>, index: int)
    requires
        is_first_minimum(values, index),
    ensures
        first_minimum(values) == index,
{
    let chosen = first_minimum(values);
    assert(is_first_minimum(values, chosen));
    if chosen < index {
        assert(values[index] < values[chosen]);
        assert(values[chosen] <= values[index]);
    } else if index < chosen {
        assert(values[chosen] < values[index]);
        assert(values[index] <= values[chosen]);
    }
}

/// Every sequence that is not empty has a first smallest entry.
pub proof fn lemma_first_minimum_exists(values: Seq<int>)
    requires
        values.len() > 0,
    ensures
        is_first_minimum(values, first_minimum(values)),
    decreases values.len(),
{
    if values.len() == 1 {
        assert(is_first_minimum(values, 0));
    } else {
        let shorter = values.drop_last();
        lemma_first_minimum_exists(shorter);
        let before = first_minimum(shorter);
        let last = values.len() - 1;
        assert forall|j: int| 0 <= j < last implies values[j] == shorter[j] by {}
        if values[last] < values[before] {
            assert forall|j: int| 0 <= j < last implies values[last] < #[trigger] values[j] by {
                assert(shorter[before] <= shorter[j]);
            }
            assert(is_first_minimum(values, last));
        } else {
            assert forall|j: int| 0 <= j < values.len() implies values[before]
                <= #[trigger] values[j] by {
                if j < last {
                    assert(shorter[before] <= shorter[j]);
                }
            }
            assert forall|j: int| 0 <= j < before implies values[before] < #[trigger] values[j] by {
                assert(shorter[before] < shorter[j]);
            }
            assert(is_first_minimum(values, before));
        }
    }
}

} // verus!

//! Ownership lists as sequences: where an identifier stands in a list, and
//! what taking it out by moving the last entry into its place leaves behind.

use vstd::prelude::*;
use crate::types::KittyIndex;

verus! {

/// The first position at which `id` stands in `list`; the list's length if
/// it stands nowhere.
pub open spec fn first_index(list: Seq<KittyIndex>, id: KittyIndex) -> int
    decreases list.len(),
{
    if list.len() == 0 {
        0
    } else if list[0] == id {
        0
    } else {
        1 + first_index(list.drop_first(), id)
    }
}

/// The list without the entry at `i`: the last entry takes its place, so the
/// order of the others is not kept.
pub open spec fn swap_remove(list: Seq<KittyIndex>, i: int) -> Seq<KittyIndex> {
    list.update(i, list.last()).drop_last()
}

/// `first_index` is the least position that holds `id`, and is in range
/// exactly when the list holds it.
pub proof fn lemma_first_index(list: Seq<KittyIndex>, id: KittyIndex)
    ensures
        0 <= first_index(list, id) <= list.len(),
        first_index(list, id) < list.len() ==> list[first_index(list, id)] == id,
        forall|j: int| 0 <= j < first_index(list, id) ==> list[j] != id,
        list.contains(id) <==> first_index(list, id) < list.len(),
    decreases list.len(),
{
    if list.len() > 0 && list[0] != id {
        let rest = list.drop_first();
        lemma_first_index(rest, id);
        assert forall|j: int| 0 <= j < 1 + first_index(rest, id) implies list[j] != id by {
            if j > 0 {
                assert(rest[j - 1] == list[j]);
            }
        }
    }
}

/// A position that holds `id` and has no earlier one that does is the first.
pub proof fn lemma_first_index_is(list: Seq<KittyIndex>, id: KittyIndex, i: int)
    requires
        0 <= i < list.len(),
        list[i] == id,
        forall|j: int| 0 <= j < i ==> list[j] != id,
    ensures
        first_index(list, id) == i,
{
    lemma_first_index(list, id);
}

/// Taking one entry out of a list without repetitions leaves a list without
/// repetitions that holds exactly the other entries.
pub proof fn lemma_swap_remove(list: Seq<KittyIndex>, i: int)
    requires
        0 <= i < list.len(),
        list.no_duplicates(),
    ensures
        swap_remove(list, i).len() == list.len() - 1,
        swap_remove(list, i).no_duplicates(),
        forall|x: KittyIndex|
            swap_remove(list, i).contains(x) <==> (list.contains(x) && x != list[i]),
{
    let out = swap_remove(list, i);
    assert forall|x: KittyIndex| out.contains(x) <==> (list.contains(x) && x != list[i]) by {
        if list.contains(x) && x != list[i] {
            let k = choose|k: int| 0 <= k < list.len() && list[k] == x;
            if k == list.len() - 1 {
                assert(out[i] == x);
            } else {
                assert(out[k] == x);
            }
        }
    }
}

} // verus!

//! What the ascending walk over an ordered map of priorities gives.

use vstd::prelude::*;
use vstd::std_specs::btree::increasing_seq;
use vstd::std_specs::cmp::OrdSpec;

verus! {

/// In an increasing sequence of priorities an earlier one is the smaller.
pub proof fn lemma_increasing_priorities(keys: Seq<i32>, i: int, j: int)
    requires
        increasing_seq(keys),
        0 <= i < j < keys.len(),
    ensures
        keys[i] < keys[j],
{
    broadcast use vstd::std_specs::btree::group_btree_axioms;
    broadcast use vstd::laws_cmp::group_laws_cmp;

    assert(keys[i].cmp_spec(&keys[j]) is Less);
}

} // verus!

//! Walking a chain of indices without walking in circles.
//!
//! A walk keeps the trail of the indices it has passed and stops when it
//! meets one of them again. Each step onto a definition that is not on the
//! trail leaves one definition fewer to step on, so every walk ends.
use vstd::prelude::*;
use vstd::set_lib::{lemma_int_range, lemma_len_subset, set_int_range};

use crate::definition::PoolIndex;

verus! {

/// The positions among `count` that no index on the trail refers to.
pub open spec fn unvisited(count: nat, trail: Seq<PoolIndex>) -> Set<int> {
    Set::new(|i: int| 0 <= i < count && !trail.contains(PoolIndex { index: i as u32 }))
}

/// How many of `count` positions are left to a walk with this trail.
pub open spec fn room(count: nat, trail: Seq<PoolIndex>) -> nat {
    unvisited(count, trail).len()
}

/// A step onto a position that is not on the trail leaves less room.
pub proof fn lemma_step_leaves_less_room(count: nat, trail: Seq<PoolIndex>, index: PoolIndex)
    requires
        index.index < count,
        !trail.contains(index),
    ensures
        room(count, trail.push(index)) < room(count, trail),
{
    let before = unvisited(count, trail);
    let after = unvisited(count, trail.push(index));
    let at = index.index as int;
    lemma_int_range(0, count as int);
    assert(before.subset_of(set_int_range(0, count as int)));
    lemma_len_subset(before, set_int_range(0, count as int));
    assert(PoolIndex { index: at as u32 } == index);
    assert(before.contains(at));
    assert forall|i: int| after.contains(i) implies before.remove(at).contains(i) by {
        let candidate = PoolIndex { index: i as u32 };
        let longer = trail.push(index);
        if trail.contains(candidate) {
            let k = choose|k: int| 0 <= k < trail.len() && trail[k] == candidate;
            assert(longer[k] == candidate);
        }
        if i == at {
            assert(longer[trail.len() as int] == index);
        }
    }
    lemma_len_subset(after, before.remove(at));
}

/// Whether the walk has passed `index`.
pub fn on_trail(trail: &Vec<PoolIndex>, index: PoolIndex) -> (found: bool)
    ensures
        found == trail@.contains(index),
{
    let mut i: usize = 0;
    while i < trail.len()
        invariant
            i <= trail.len(),
            forall|k: int| 0 <= k < i ==> trail@[k] != index,
        decreases trail.len() - i,
    {
        if trail[i].index == index.index {
            return true;
        }
        i += 1;
    }
    false
}

} // verus!

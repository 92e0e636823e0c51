//! One document for each top-level class, function and enum of a pool.
use vstd::prelude::*;

use crate::definition::PoolIndex;
use crate::encode::encode_definition;
use crate::error::{node_matches, EncodeError};
use crate::flat_index::{is_listed, listed};
use crate::node::Node;
use crate::pool::{ConstantPool, PoolView};

verus! {

/// What became of one root: its index, and its document or the reason
/// why it has none.
#[derive(Debug, PartialEq, Eq)]
pub struct Outcome {
    pub index: PoolIndex,
    pub result: Result<Node, EncodeError>,
}

impl PoolView {
    /// The indices of the root classes, functions and enums before
    /// position `end`, in the order of the pool.
    pub open spec fn roots_upto(self, end: int) -> Seq<PoolIndex>
        decreases end,
    {
        if end <= 1 {
            Seq::empty()
        } else if listed(self.definitions[end - 1]) {
            self.roots_upto(end - 1).push(PoolIndex { index: (end - 1) as u32 })
        } else {
            self.roots_upto(end - 1)
        }
    }

    /// The indices of the root classes, functions and enums of the pool,
    /// in its order.
    pub open spec fn roots(self) -> Seq<PoolIndex> {
        self.roots_upto(self.definitions.len() as int)
    }

    /// Whether `outcomes` holds, for each root in order, its index and
    /// what encoding it gives.
    pub open spec fn are_outcomes(self, outcomes: Seq<Outcome>, roots: Seq<PoolIndex>) -> bool {
        &&& outcomes.len() == roots.len()
        &&& forall|k: int|
            0 <= k < outcomes.len() ==> {
                &&& (#[trigger] outcomes[k]).index == roots[k]
                &&& node_matches(
                    outcomes[k].result,
                    self.encoded(self.definitions[roots[k].index as int]),
                )
            }
    }
}

/// Encodes every root class, function and enum of `pool`, each on its
/// own: a root that fails to encode has no document, and the others have
/// theirs all the same.
pub fn encode_roots(pool: &ConstantPool) -> (outcomes: Vec<Outcome>)
    ensures
        pool@.are_outcomes(outcomes@, pool@.roots()),
{
    let count = pool.definition_count();
    let mut outcomes: Vec<Outcome> = Vec::new();
    let mut at: u32 = 1;
    while at < count
        invariant
            1 <= at,
            at <= count || at == 1,
            count == pool@.definitions.len(),
            pool@.are_outcomes(outcomes@, pool@.roots_upto(at as int)),
        decreases count - at,
    {
        let index = PoolIndex::new(at);
        match pool.definition(index) {
            Ok(definition) => {
                if is_listed(definition) {
                    let result = encode_definition(definition, pool);
                    outcomes.push(Outcome { index, result });
                }
            },
            Err(_) => {},
        }
        at += 1;
    }
    assert(pool@.roots() == pool@.roots_upto(at as int));
    outcomes
}

} // verus!

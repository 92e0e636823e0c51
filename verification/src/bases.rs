//! The chain of base classes of a class, nearest ancestor first.
use vstd::prelude::*;

use crate::definition::{AnyDefinition, PoolIndex};
use crate::error::EncodeError;
use crate::names::{pretty, pretty_name};
use crate::pool::{ConstantPool, PoolView};
use crate::reference::{references_match, references_view, Reference, ReferenceView};
use crate::trail::{lemma_step_leaves_less_room, on_trail, room};

verus! {

impl PoolView {
    /// The ancestors of a class whose direct base is `index`, for a walk
    /// that has already passed the indices on `trail`.
    ///
    /// The walk ends at the undefined index. It fails where an index on
    /// the way does not resolve, where the definition's name does not
    /// resolve, where the definition is no class, and where the chain
    /// comes back to an index on the trail.
    pub open spec fn bases_from(self, index: PoolIndex, trail: Seq<PoolIndex>) -> Result<
        Seq<ReferenceView>,
        EncodeError,
    >
        decreases room(self.definitions.len(), trail),
    {
        if index.is_undefined() {
            Ok(Seq::empty())
        } else if trail.contains(index) {
            Err(EncodeError::CyclicBaseChain { index })
        } else {
            match self.definition(index) {
                Err(e) => Err(e),
                Ok(definition) => match self.name(definition.name) {
                    Err(e) => Err(e),
                    Ok(name) => match definition.value {
                        AnyDefinition::Class(class) => {
                            proof {
                                lemma_step_leaves_less_room(self.definitions.len(), trail, index);
                            }
                            match self.bases_from(class.base, trail.push(index)) {
                                Err(e) => Err(e),
                                Ok(rest) => Ok(
                                    seq![
                                        ReferenceView {
                                            name: pretty_name(name),
                                            index,
                                            base: None,
                                        },
                                    ] + rest,
                                ),
                            }
                        },
                        _ => Err(EncodeError::KindMismatch { index }),
                    },
                },
            }
        }
    }

    /// The ancestors of a class whose direct base is `index`, nearest
    /// first.
    pub open spec fn bases(self, index: PoolIndex) -> Result<Seq<ReferenceView>, EncodeError> {
        self.bases_from(index, Seq::empty())
    }
}

fn collect_bases_from(index: PoolIndex, pool: &ConstantPool, trail: Vec<PoolIndex>) -> (result:
    Result<Vec<Reference>, EncodeError>)
    ensures
        references_match(result, pool@.bases_from(index, trail@)),
    decreases room(pool@.definitions.len(), trail@),
{
    if index.is_undefined() {
        let none: Vec<Reference> = Vec::new();
        assert(references_view(none@) =~= Seq::<ReferenceView>::empty());
        return Ok(none);
    }
    if on_trail(&trail, index) {
        return Err(EncodeError::CyclicBaseChain { index });
    }
    let definition = match pool.definition(index) {
        Ok(definition) => definition,
        Err(e) => {
            return Err(e);
        },
    };
    let name = match pool.name(definition.name) {
        Ok(name) => name,
        Err(e) => {
            return Err(e);
        },
    };
    match &definition.value {
        AnyDefinition::Class(class) => {
            let ghost before = trail@;
            let mut trail = trail;
            trail.push(index);
            proof {
                lemma_step_leaves_less_room(pool@.definitions.len(), before, index);
            }
            let mut rest = match collect_bases_from(class.base, pool, trail) {
                Ok(rest) => rest,
                Err(e) => {
                    return Err(e);
                },
            };
            let ghost rest_view = references_view(rest@);
            let nearest = Reference { name: pretty(name), index, base: None };
            let mut bases: Vec<Reference> = Vec::new();
            bases.push(nearest);
            bases.append(&mut rest);
            assert(references_view(bases@) =~= seq![
                ReferenceView { name: pretty_name(name@), index, base: None },
            ] + rest_view);
            Ok(bases)
        },
        _ => Err(EncodeError::KindMismatch { index }),
    }
}

/// Walks the chain of base classes upward from `index`, the direct base of
/// some class, and returns a reference to each ancestor, nearest first.
///
/// A class without a base has no ancestors. The walk fails rather than go
/// round a cyclic chain.
pub fn collect_bases(index: PoolIndex, pool: &ConstantPool) -> (result: Result<
    Vec<Reference>,
    EncodeError,
>)
    ensures
        references_match(result, pool@.bases(index)),
{
    collect_bases_from(index, pool, Vec::new())
}

} // verus!

//! The flat index: one reference for each top-level class, function and
//! enum of the pool, in the order of the pool.
use vstd::prelude::*;

use crate::definition::{AnyDefinition, Definition, PoolIndex};
use crate::error::EncodeError;
use crate::names::pretty;
use crate::pool::{ConstantPool, PoolView};
use crate::reference::{references_match, references_view, Reference, ReferenceView};

verus! {

/// Whether the index has an entry for `definition`: it is a root, and a
/// class, a function or an enum.
pub open spec fn listed(definition: Definition) -> bool {
    definition.is_root() && (definition.value is Class || definition.value is Function
        || definition.value is Enum)
}

/// The base that the index records for `definition`: the direct base of a
/// class that has one, and nothing for anything else.
pub open spec fn recorded_base(definition: Definition) -> Option<PoolIndex> {
    match definition.value {
        AnyDefinition::Class(class) => if class.base.is_undefined() {
            None
        } else {
            Some(class.base)
        },
        _ => None,
    }
}

impl PoolView {
    /// The entry of the index for the definition at position `at`.
    pub open spec fn entry(self, at: int) -> Result<ReferenceView, EncodeError> {
        let definition = self.definitions[at];
        match self.short_name(definition.name) {
            Err(e) => Err(e),
            Ok(name) => Ok(
                ReferenceView {
                    name,
                    index: PoolIndex { index: at as u32 },
                    base: recorded_base(definition),
                },
            ),
        }
    }

    /// The index of the definitions before position `end`.
    pub open spec fn index_upto(self, end: int) -> Result<Seq<ReferenceView>, EncodeError>
        decreases end,
    {
        if end <= 1 {
            Ok(Seq::empty())
        } else {
            match self.index_upto(end - 1) {
                Err(e) => Err(e),
                Ok(entries) => if listed(self.definitions[end - 1]) {
                    match self.entry(end - 1) {
                        Err(e) => Err(e),
                        Ok(entry) => Ok(entries.push(entry)),
                    }
                } else {
                    Ok(entries)
                },
            }
        }
    }

    /// The flat index of the pool. It fails as a whole where the name of
    /// one listed definition does not resolve.
    pub open spec fn index(self) -> Result<Seq<ReferenceView>, EncodeError> {
        self.index_upto(self.definitions.len() as int)
    }

    /// A failure before `upto` is the failure of every longer index.
    proof fn lemma_index_fails_early(self, upto: int, end: int, e: EncodeError)
        requires
            upto <= end,
            self.index_upto(upto) == Err::<Seq<ReferenceView>, EncodeError>(e),
        ensures
            self.index_upto(end) == Err::<Seq<ReferenceView>, EncodeError>(e),
        decreases end - upto,
    {
        if upto < end {
            self.lemma_index_fails_early(upto, end - 1, e);
        }
    }
}

/// Whether the index has an entry for `definition`.
pub fn is_listed(definition: &Definition) -> (r: bool)
    ensures
        r == listed(*definition),
{
    definition.is_root() && match &definition.value {
        AnyDefinition::Class(_) => true,
        AnyDefinition::Function(_) => true,
        AnyDefinition::Enum(_) => true,
        _ => false,
    }
}

/// The base that the index records for `definition`.
pub fn direct_base(definition: &Definition) -> (base: Option<PoolIndex>)
    ensures
        base == recorded_base(*definition),
{
    match &definition.value {
        AnyDefinition::Class(class) => if class.base.is_undefined() {
            None
        } else {
            Some(class.base)
        },
        _ => None,
    }
}

/// Builds the flat index of `pool` in one pass over its definitions.
///
/// Each root class, function and enum gets one entry: its short name, its
/// own index and, for a class with a base, the index of that base. If the
/// name of one of them does not resolve, the whole index fails.
pub fn build_index(pool: &ConstantPool) -> (result: Result<Vec<Reference>, EncodeError>)
    ensures
        references_match(result, pool@.index()),
{
    let count = pool.definition_count();
    let mut entries: Vec<Reference> = Vec::new();
    let mut at: u32 = 1;
    assert(references_view(entries@) =~= Seq::empty());
    while at < count
        invariant
            1 <= at,
            at <= count || at == 1,
            count == pool@.definitions.len(),
            pool@.index_upto(at as int) == Ok::<Seq<ReferenceView>, EncodeError>(
                references_view(entries@),
            ),
        decreases count - at,
    {
        let index = PoolIndex::new(at);
        let ghost before = references_view(entries@);
        match pool.definition(index) {
            Ok(definition) => {
                if is_listed(definition) {
                    match pool.name(definition.name) {
                        Ok(name) => {
                            let entry = Reference {
                                name: pretty(name),
                                index,
                                base: direct_base(definition),
                            };
                            entries.push(entry);
                            assert(references_view(entries@) =~= before.push(entry@));
                        },
                        Err(e) => {
                            proof {
                                pool@.lemma_index_fails_early(at + 1, count as int, e);
                            }
                            return Err(e);
                        },
                    }
                }
            },
            Err(e) => {
                return Err(e);
            },
        }
        at += 1;
    }
    assert(pool@.index() == pool@.index_upto(at as int));
    Ok(entries)
}

} // verus!

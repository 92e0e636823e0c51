//! The ways in which encoding fails.
use vstd::prelude::*;

use crate::definition::{AnyDefinition, Definition, PoolIndex};
use crate::node::{list_view, Node, NodeView};

verus! {

/// What a lookup in the pool failed to find.
#[derive(Clone, Copy, Debug, PartialEq, Eq, Structural)]
pub enum Unresolved {
    /// No definition stands at this index.
    Definition(PoolIndex),
    /// No name stands at this index.
    Name(PoolIndex),
    /// No definition at all carries the name at this index.
    Named(PoolIndex),
}

/// Why a document, or the index, could not be built.
///
/// Every failure is fatal to the document under construction: no partial
/// output is ever returned.
#[derive(Clone, Copy, Debug, PartialEq, Eq, Structural)]
pub enum EncodeError {
    /// An index does not resolve in the pool.
    Resolution(Unresolved),
    /// The definition at `index` is not of the kind that the reference to
    /// it calls for.
    KindMismatch { index: PoolIndex },
    /// The definition is a local variable, which has no document form.
    UnsupportedKind,
    /// The chain of base classes comes back to `index`.
    CyclicBaseChain { index: PoolIndex },
    /// The nesting of type wrappers comes back to `index`.
    CyclicTypeNesting { index: PoolIndex },
}

/// The failure of an attempt to encode `definition`, found at `index`,
/// in a place that calls for another kind: a local variable is
/// unsupported wherever it turns up, anything else is a mismatch.
pub open spec fn misplaced_spec(index: PoolIndex, definition: Definition) -> EncodeError {
    if definition.value is Local {
        EncodeError::UnsupportedKind
    } else {
        EncodeError::KindMismatch { index }
    }
}

/// The failure of an attempt to encode `definition`, found at `index`,
/// in a place that calls for another kind.
pub fn misplaced(index: PoolIndex, definition: &Definition) -> (e: EncodeError)
    ensures
        e == misplaced_spec(index, *definition),
{
    match &definition.value {
        AnyDefinition::Local(_) => EncodeError::UnsupportedKind,
        _ => EncodeError::KindMismatch { index },
    }
}

/// Whether `result` is the executable form of `expected`: the same
/// failure, or a node with the expected value.
pub open spec fn node_matches(
    result: Result<Node, EncodeError>,
    expected: Result<NodeView, EncodeError>,
) -> bool {
    match result {
        Ok(node) => expected == Ok::<NodeView, EncodeError>(node@),
        Err(e) => expected == Err::<NodeView, EncodeError>(e),
    }
}

/// Whether `result` is the executable form of `expected`: the same
/// failure, or nodes with the expected values in the same order.
pub open spec fn nodes_match(
    result: Result<Vec<Node>, EncodeError>,
    expected: Result<Seq<NodeView>, EncodeError>,
) -> bool {
    match result {
        Ok(nodes) => expected == Ok::<Seq<NodeView>, EncodeError>(list_view(nodes@)),
        Err(e) => expected == Err::<Seq<NodeView>, EncodeError>(e),
    }
}

} // verus!

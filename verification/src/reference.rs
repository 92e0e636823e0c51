//! References: the entries of a base chain and of the flat index.
use vstd::prelude::*;

use crate::definition::PoolIndex;
use crate::error::EncodeError;
use crate::node::{list_view, Node, NodeView};
use crate::schema::{reference_layout, reference_node};

verus! {

/// A light-weight pointer to a definition: its short name, its own index
/// and, where it is recorded, the index of its direct base class.
#[derive(Debug, PartialEq, Eq)]
pub struct Reference {
    pub name: String,
    pub index: PoolIndex,
    pub base: Option<PoolIndex>,
}

/// The mathematical value of a [`Reference`].
pub struct ReferenceView {
    pub name: Seq<char>,
    pub index: PoolIndex,
    pub base: Option<PoolIndex>,
}

impl View for Reference {
    type V = ReferenceView;

    open spec fn view(&self) -> ReferenceView {
        ReferenceView { name: self.name@, index: self.index, base: self.base }
    }
}

impl ReferenceView {
    /// The document of this reference: its name, its index and its base,
    /// where a missing base is `Null`.
    pub open spec fn node(self) -> NodeView {
        reference_layout(
            self.name,
            self.index.index,
            match self.base {
                Some(base) => Some(base.index),
                None => None,
            },
        )
    }
}

/// The values of a sequence of references.
pub open spec fn references_view(references: Seq<Reference>) -> Seq<ReferenceView> {
    references.map_values(|r: Reference| r@)
}

/// The documents of a sequence of references.
pub open spec fn reference_nodes(references: Seq<ReferenceView>) -> Seq<NodeView> {
    references.map_values(|r: ReferenceView| r.node())
}

/// Whether `result` is the executable form of `expected`: the same
/// failure, or references with the expected values in the same order.
pub open spec fn references_match(
    result: Result<Vec<Reference>, EncodeError>,
    expected: Result<Seq<ReferenceView>, EncodeError>,
) -> bool {
    match result {
        Ok(references) => expected == Ok::<Seq<ReferenceView>, EncodeError>(
            references_view(references@),
        ),
        Err(e) => expected == Err::<Seq<ReferenceView>, EncodeError>(e),
    }
}

impl Reference {
    /// The document of this reference.
    pub fn to_node(&self) -> (node: Node)
        ensures
            node@ == self@.node(),
    {
        let base = match self.base {
            Some(base) => Some(base.index),
            None => None,
        };
        reference_node(self.name.clone(), self.index.index, base)
    }
}

/// The documents of the given references, in order.
pub fn to_nodes(references: &Vec<Reference>) -> (nodes: Vec<Node>)
    ensures
        list_view(nodes@) == reference_nodes(references_view(references@)),
{
    let mut nodes: Vec<Node> = Vec::new();
    let mut i: usize = 0;
    while i < references.len()
        invariant
            i <= references.len(),
            nodes@.len() == i,
            forall|k: int| 0 <= k < i ==> (#[trigger] nodes@[k])@ == references@[k]@.node(),
        decreases references.len() - i,
    {
        let node = references[i].to_node();
        nodes.push(node);
        i += 1;
    }
    assert(list_view(nodes@) =~= reference_nodes(references_view(references@)));
    nodes
}

/// The flat index as one document: the list of its entries.
pub fn index_document(references: &Vec<Reference>) -> (node: Node)
    ensures
        node@ == NodeView::List(reference_nodes(references_view(references@))),
{
    Node::list(to_nodes(references))
}

} // verus!

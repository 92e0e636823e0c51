//! Encoding of type descriptors: primitives, class types and the wrappers
//! around them.
use vstd::prelude::*;

use crate::definition::{AnyDefinition, Definition, PoolIndex, Type};
use crate::error::{misplaced, misplaced_spec, node_matches, EncodeError, Unresolved};
use crate::node::{Node, NodeView};
use crate::pool::{ConstantPool, PoolView};
use crate::schema::{
    class_type_layout, class_type_node, prim_type_layout, prim_type_node, static_array_layout,
    static_array_node, wrapper_layout, wrapper_node, Wrapper,
};
use crate::trail::{lemma_step_leaves_less_room, on_trail, room};

verus! {

/// Holds of the definitions that carry the name at `name`.
pub open spec fn carries(name: PoolIndex) -> spec_fn(Definition) -> bool {
    |d: Definition| d.name == name
}

/// Holds of the classes and enums that carry the name at `name`.
pub open spec fn declares(name: PoolIndex) -> spec_fn(Definition) -> bool {
    |d: Definition| d.name == name && (d.value is Class || d.value is Enum)
}

/// The document of a wrapper type around a type whose document is `inner`.
pub open spec fn wrap(type_: Type, inner: NodeView) -> NodeView {
    match type_ {
        Type::Prim => inner,
        Type::Class => inner,
        Type::Ref(_) => wrapper_layout(Wrapper::Ref, inner),
        Type::WeakRef(_) => wrapper_layout(Wrapper::WeakRef, inner),
        Type::ScriptRef(_) => wrapper_layout(Wrapper::ScriptRef, inner),
        Type::Array(_) => wrapper_layout(Wrapper::Array, inner),
        Type::StaticArray(_, size) => static_array_layout(size, inner),
    }
}

impl PoolView {
    /// The first position from `from` on whose definition is `wanted`.
    pub open spec fn first_from(self, from: int, wanted: spec_fn(Definition) -> bool) -> Option<
        int,
    >
        decreases self.definitions.len() - from,
    {
        if from >= self.definitions.len() {
            None
        } else if wanted(self.definitions[from]) {
            Some(from)
        } else {
            self.first_from(from + 1, wanted)
        }
    }

    /// The index of the class or enum that a class type named by `name`
    /// stands for: the first class or enum of the pool that carries the
    /// same name.
    ///
    /// Where only definitions of other kinds carry the name, the first of
    /// them is reported as a mismatch; where none does, the name is
    /// reported as unresolved.
    pub open spec fn find_type(self, name: PoolIndex) -> Result<PoolIndex, EncodeError> {
        match self.first_from(1, declares(name)) {
            Some(at) => Ok(PoolIndex { index: at as u32 }),
            None => match self.first_from(1, carries(name)) {
                Some(at) => Err(
                    EncodeError::KindMismatch { index: PoolIndex { index: at as u32 } },
                ),
                None => Err(EncodeError::Resolution(Unresolved::Named(name))),
            },
        }
    }

    /// The document of a type that wraps nothing: a primitive, or a class
    /// type together with the index of the class or enum it stands for.
    /// Either carries the type's own name as the pool stores it.
    pub open spec fn plain_type(self, name: PoolIndex, type_: Type) -> Result<
        NodeView,
        EncodeError,
    > {
        match type_ {
            Type::Class => match self.find_type(name) {
                Err(e) => Err(e),
                Ok(index) => match self.name(name) {
                    Err(e) => Err(e),
                    Ok(n) => Ok(class_type_layout(n, index.index)),
                },
            },
            _ => match self.name(name) {
                Err(e) => Err(e),
                Ok(n) => Ok(prim_type_layout(n)),
            },
        }
    }

    /// The document of the type at `index`, for a walk down the wrappers
    /// that has already passed the indices on `trail`.
    ///
    /// It fails where `index` does not resolve, where it resolves to
    /// something that is no type, and where the nesting comes back to an
    /// index on the trail.
    pub open spec fn type_at_from(self, index: PoolIndex, trail: Seq<PoolIndex>) -> Result<
        NodeView,
        EncodeError,
    >
        decreases room(self.definitions.len(), trail),
    {
        if trail.contains(index) {
            Err(EncodeError::CyclicTypeNesting { index })
        } else {
            match self.definition(index) {
                Err(e) => Err(e),
                Ok(definition) => match definition.value {
                    AnyDefinition::Type(type_) => match type_.inner() {
                        None => self.plain_type(definition.name, type_),
                        Some(inner) => {
                            proof {
                                lemma_step_leaves_less_room(self.definitions.len(), trail, index);
                            }
                            match self.type_at_from(inner, trail.push(index)) {
                                Err(e) => Err(e),
                                Ok(node) => Ok(wrap(type_, node)),
                            }
                        },
                    },
                    _ => Err(misplaced_spec(index, definition)),
                },
            }
        }
    }

    /// How many wrappers stand around the plain type at the core of the
    /// type at `index`, for a walk that has already passed the indices on
    /// `trail`. It counts as far as the walk gets.
    pub open spec fn wrappers_at_from(self, index: PoolIndex, trail: Seq<PoolIndex>) -> nat
        decreases room(self.definitions.len(), trail),
    {
        if trail.contains(index) {
            0
        } else {
            match self.definition(index) {
                Err(_) => 0,
                Ok(definition) => match definition.value {
                    AnyDefinition::Type(type_) => match type_.inner() {
                        None => 0,
                        Some(inner) => {
                            proof {
                                lemma_step_leaves_less_room(self.definitions.len(), trail, index);
                            }
                            1 + self.wrappers_at_from(inner, trail.push(index))
                        },
                    },
                    _ => 0,
                },
            }
        }
    }

    /// How many wrappers a type definition in hand consists of.
    pub open spec fn wrappers(self, type_: Type) -> nat {
        match type_.inner() {
            None => 0,
            Some(inner) => 1 + self.wrappers_at_from(inner, Seq::empty()),
        }
    }

    /// The document of the type at `index`.
    pub open spec fn type_at(self, index: PoolIndex) -> Result<NodeView, EncodeError> {
        self.type_at_from(index, Seq::empty())
    }

    /// The document of a type definition in hand, which carries the name
    /// at `name`.
    pub open spec fn type_node(self, name: PoolIndex, type_: Type) -> Result<
        NodeView,
        EncodeError,
    > {
        match type_.inner() {
            None => self.plain_type(name, type_),
            Some(inner) => match self.type_at(inner) {
                Err(e) => Err(e),
                Ok(node) => Ok(wrap(type_, node)),
            },
        }
    }

    /// What `first_from` returns is the first position from `from` on
    /// whose definition is `wanted`, and it returns `None` only where
    /// there is no such position.
    pub proof fn lemma_first_from(self, from: int, wanted: spec_fn(Definition) -> bool)
        requires
            0 <= from,
        ensures
            match self.first_from(from, wanted) {
                Some(at) => from <= at < self.definitions.len() && wanted(self.definitions[at])
                    && forall|i: int| from <= i < at ==> !wanted(#[trigger] self.definitions[i]),
                None => forall|i: int|
                    from <= i < self.definitions.len() ==> !wanted(#[trigger] self.definitions[i]),
            },
        decreases self.definitions.len() - from,
    {
        if from < self.definitions.len() && !wanted(self.definitions[from]) {
            self.lemma_first_from(from + 1, wanted);
        }
    }
}

/// Looks up the class or enum that carries the name at `name`.
pub fn find_type(name: PoolIndex, pool: &ConstantPool) -> (result: Result<PoolIndex, EncodeError>)
    ensures
        result == pool@.find_type(name),
{
    let count = pool.definition_count();
    let mut carrier: Option<PoolIndex> = None;
    let mut at: u32 = 1;
    while at < count
        invariant
            1 <= at,
            count == pool@.definitions.len(),
            pool@.first_from(1, declares(name)) == pool@.first_from(at as int, declares(name)),
            match carrier {
                Some(c) => pool@.first_from(1, carries(name)) == Some(c.index as int),
                None => pool@.first_from(1, carries(name)) == pool@.first_from(
                    at as int,
                    carries(name),
                ),
            },
        decreases count - at,
    {
        let index = PoolIndex::new(at);
        match pool.definition(index) {
            Ok(definition) => {
                if definition.name.index == name.index {
                    match &definition.value {
                        AnyDefinition::Class(_) => {
                            return Ok(index);
                        },
                        AnyDefinition::Enum(_) => {
                            return Ok(index);
                        },
                        _ => {
                            if carrier.is_none() {
                                carrier = Some(index);
                            }
                        },
                    }
                }
            },
            Err(e) => {
                return Err(e);
            },
        }
        at += 1;
    }
    match carrier {
        Some(index) => Err(EncodeError::KindMismatch { index }),
        None => Err(EncodeError::Resolution(Unresolved::Named(name))),
    }
}

fn encode_plain_type(name: PoolIndex, type_: Type, pool: &ConstantPool) -> (result: Result<
    Node,
    EncodeError,
>)
    ensures
        node_matches(result, pool@.plain_type(name, type_)),
{
    match type_ {
        Type::Class => {
            let index = match find_type(name, pool) {
                Ok(index) => index,
                Err(e) => {
                    return Err(e);
                },
            };
            match pool.name(name) {
                Ok(n) => Ok(class_type_node(n.to_owned(), index.index)),
                Err(e) => Err(e),
            }
        },
        _ => match pool.name(name) {
            Ok(n) => Ok(prim_type_node(n.to_owned())),
            Err(e) => Err(e),
        },
    }
}

fn wrap_node(type_: Type, inner: Node) -> (node: Node)
    ensures
        node@ == wrap(type_, inner@),
{
    match type_ {
        Type::Prim => inner,
        Type::Class => inner,
        Type::Ref(_) => wrapper_node(Wrapper::Ref, inner),
        Type::WeakRef(_) => wrapper_node(Wrapper::WeakRef, inner),
        Type::ScriptRef(_) => wrapper_node(Wrapper::ScriptRef, inner),
        Type::Array(_) => wrapper_node(Wrapper::Array, inner),
        Type::StaticArray(_, size) => static_array_node(size, inner),
    }
}

fn encode_type_at_from(index: PoolIndex, pool: &ConstantPool, trail: Vec<PoolIndex>) -> (result:
    Result<Node, EncodeError>)
    ensures
        node_matches(result, pool@.type_at_from(index, trail@)),
    decreases room(pool@.definitions.len(), trail@),
{
    if on_trail(&trail, index) {
        return Err(EncodeError::CyclicTypeNesting { index });
    }
    let definition = match pool.definition(index) {
        Ok(definition) => definition,
        Err(e) => {
            return Err(e);
        },
    };
    match &definition.value {
        AnyDefinition::Type(type_) => match type_.inner() {
            None => encode_plain_type(definition.name, *type_, pool),
            Some(inner) => {
                let ghost before = trail@;
                let mut trail = trail;
                trail.push(index);
                proof {
                    lemma_step_leaves_less_room(pool@.definitions.len(), before, index);
                }
                match encode_type_at_from(inner, pool, trail) {
                    Ok(node) => Ok(wrap_node(*type_, node)),
                    Err(e) => Err(e),
                }
            },
        },
        _ => Err(misplaced(index, definition)),
    }
}

/// Encodes the type at `index`, wrapper by wrapper, down to the primitive
/// or class type at its core.
pub fn encode_type_at(index: PoolIndex, pool: &ConstantPool) -> (result: Result<
    Node,
    EncodeError,
>)
    ensures
        node_matches(result, pool@.type_at(index)),
{
    encode_type_at_from(index, pool, Vec::new())
}

/// Encodes a type definition in hand, which carries the name at `name`.
pub fn encode_type(name: PoolIndex, type_: Type, pool: &ConstantPool) -> (result: Result<
    Node,
    EncodeError,
>)
    ensures
        node_matches(result, pool@.type_node(name, type_)),
{
    match type_.inner() {
        None => encode_plain_type(name, type_, pool),
        Some(inner) => match encode_type_at(inner, pool) {
            Ok(node) => Ok(wrap_node(type_, node)),
            Err(e) => Err(e),
        },
    }
}

} // verus!

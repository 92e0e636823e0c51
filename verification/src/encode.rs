//! The definition encoder: from a definition and the pool it lives in to
//! the document that describes it.
//!
//! Every index that a definition holds is resolved in the pool, checked to
//! be of the kind that its place calls for, and expanded in turn. The
//! first failure on the way, in the order in which a document lists its
//! members, is the failure of the whole document.
//!
//! A document carries the name of its definition as the pool stores it,
//! signature suffix included, so that overloads stay apart. A field has no
//! overloads, and its document carries the short form.
use vstd::prelude::*;

use crate::bases::collect_bases;
use crate::definition::{
    AnyDefinition, Class, Definition, Enum, Field, Function, Parameter, PoolIndex,
};
use crate::error::{misplaced, misplaced_spec, node_matches, nodes_match, EncodeError};
use crate::names::{pretty, pretty_name};
use crate::node::{list_view, Node, NodeView};
use crate::pool::{ConstantPool, PoolView};
use crate::reference::{reference_nodes, to_nodes};
use crate::schema::{
    class_layout, class_node, enum_layout, enum_node, enum_value_layout, enum_value_node,
    field_layout, field_node, function_layout, function_node, parameter_layout, parameter_node,
};
use crate::types::{encode_type, encode_type_at};

verus! {

/// What the indices of a list are expected to refer to.
#[derive(Clone, Copy, Debug, PartialEq, Eq, Structural)]
pub enum Child {
    /// A field of a class.
    Field,
    /// A parameter of a function.
    Parameter,
    /// A value of an enum.
    Member,
}

/// All the nodes of `items`, in order, or the first failure among them.
pub open spec fn collect(items: Seq<Result<NodeView, EncodeError>>) -> Result<
    Seq<NodeView>,
    EncodeError,
>
    decreases items.len(),
{
    if items.len() == 0 {
        Ok(Seq::empty())
    } else {
        match collect(items.drop_last()) {
            Err(e) => Err(e),
            Ok(nodes) => match items.last() {
                Err(e) => Err(e),
                Ok(node) => Ok(nodes.push(node)),
            },
        }
    }
}

/// `collect` succeeds where every item does, with the items' nodes in
/// order; otherwise it fails as the first failing item does.
pub proof fn lemma_collect(items: Seq<Result<NodeView, EncodeError>>)
    ensures
        match collect(items) {
            Ok(nodes) => nodes.len() == items.len() && forall|i: int|
                0 <= i < items.len() ==> items[i] == Ok::<NodeView, EncodeError>(nodes[i]),
            Err(e) => exists|at: int|
                0 <= at < items.len() && items[at] == Err::<NodeView, EncodeError>(e)
                    && forall|i: int| 0 <= i < at ==> (#[trigger] items[i]) is Ok,
        },
    decreases items.len(),
{
    if items.len() > 0 {
        let front = items.drop_last();
        lemma_collect(front);
        match collect(front) {
            Err(e) => {
                let at = choose|at: int|
                    0 <= at < front.len() && front[at] == Err::<NodeView, EncodeError>(e)
                        && forall|i: int| 0 <= i < at ==> (#[trigger] front[i]) is Ok;
                assert(items[at] == front[at]);
                assert forall|i: int| 0 <= i < at implies (#[trigger] items[i]) is Ok by {
                    assert(items[i] == front[i]);
                }
            },
            Ok(nodes) => {
                match items.last() {
                    Err(e) => {
                        let at = items.len() - 1;
                        assert forall|i: int| 0 <= i < at implies (#[trigger] items[i]) is Ok by {
                            assert(items[i] == front[i]);
                        }
                    },
                    Ok(node) => {
                        assert forall|i: int| 0 <= i < items.len() implies items[i] == Ok::<
                            NodeView,
                            EncodeError,
                        >(nodes.push(node)[i]) by {
                            if i < front.len() {
                                assert(items[i] == front[i]);
                            }
                        }
                    },
                }
            },
        }
    }
}

/// A failure among the first items is the failure of the whole.
proof fn lemma_collect_fails_early(
    items: Seq<Result<NodeView, EncodeError>>,
    upto: int,
    e: EncodeError,
)
    requires
        0 <= upto <= items.len(),
        collect(items.take(upto)) == Err::<Seq<NodeView>, EncodeError>(e),
    ensures
        collect(items) == Err::<Seq<NodeView>, EncodeError>(e),
    decreases items.len() - upto,
{
    if upto < items.len() {
        assert(items.take(upto + 1).drop_last() =~= items.take(upto));
        lemma_collect_fails_early(items, upto + 1, e);
    } else {
        assert(items.take(upto) =~= items);
    }
}

impl PoolView {
    /// The short form of the name at `name`.
    pub open spec fn short_name(self, name: PoolIndex) -> Result<Seq<char>, EncodeError> {
        match self.name(name) {
            Err(e) => Err(e),
            Ok(n) => Ok(pretty_name(n)),
        }
    }

    /// The document of a parameter that carries the name at `name`.
    pub open spec fn encoded_parameter(self, name: PoolIndex, parameter: Parameter) -> Result<
        NodeView,
        EncodeError,
    > {
        match self.name(name) {
            Err(e) => Err(e),
            Ok(n) => match self.type_at(parameter.type_) {
                Err(e) => Err(e),
                Ok(type_) => Ok(parameter_layout(n, type_, parameter.flags)),
            },
        }
    }

    /// The document of a field that carries the name at `name`.
    pub open spec fn encoded_field(self, name: PoolIndex, field: Field) -> Result<
        NodeView,
        EncodeError,
    > {
        match self.short_name(name) {
            Err(e) => Err(e),
            Ok(n) => match self.type_at(field.type_) {
                Err(e) => Err(e),
                Ok(type_) => Ok(field_layout(n, type_, field.flags)),
            },
        }
    }

    /// The document of an enum value that carries the name at `name`.
    pub open spec fn encoded_enum_value(self, name: PoolIndex, value: i64) -> Result<
        NodeView,
        EncodeError,
    > {
        match self.name(name) {
            Err(e) => Err(e),
            Ok(n) => Ok(enum_value_layout(n, value)),
        }
    }

    /// The document of the field, parameter or enum value at `index`.
    ///
    /// It fails where `index` does not resolve and where it resolves to a
    /// definition of another kind than `child` names.
    pub open spec fn child_at(self, index: PoolIndex, child: Child) -> Result<
        NodeView,
        EncodeError,
    > {
        match self.definition(index) {
            Err(e) => Err(e),
            Ok(definition) => match (child, definition.value) {
                (Child::Field, AnyDefinition::Field(field)) => self.encoded_field(
                    definition.name,
                    field,
                ),
                (Child::Parameter, AnyDefinition::Parameter(parameter)) => self.encoded_parameter(
                    definition.name,
                    parameter,
                ),
                (Child::Member, AnyDefinition::EnumValue(value)) => self.encoded_enum_value(
                    definition.name,
                    value,
                ),
                _ => Err(misplaced_spec(index, definition)),
            },
        }
    }

    /// The documents of the fields, parameters or enum values at
    /// `indices`, in order, or the first failure among them.
    pub open spec fn children(self, indices: Seq<PoolIndex>, child: Child) -> Result<
        Seq<NodeView>,
        EncodeError,
    > {
        collect(indices.map_values(|index: PoolIndex| self.child_at(index, child)))
    }

    /// The path of the source file at `index`, as a plain text node.
    pub open spec fn source_file_at(self, index: PoolIndex) -> Result<NodeView, EncodeError> {
        match self.definition(index) {
            Err(e) => Err(e),
            Ok(definition) => match definition.value {
                AnyDefinition::SourceFile(file) => Ok(NodeView::Text(file.path@)),
                _ => Err(misplaced_spec(index, definition)),
            },
        }
    }

    /// The document of the return type of a function: `None` where it
    /// returns nothing.
    pub open spec fn return_type(self, index: Option<PoolIndex>) -> Result<
        Option<NodeView>,
        EncodeError,
    > {
        match index {
            None => Ok(None),
            Some(index) => match self.type_at(index) {
                Err(e) => Err(e),
                Ok(node) => Ok(Some(node)),
            },
        }
    }

    /// The document of the source file of a function: `None` where no
    /// source is recorded.
    pub open spec fn source(self, file: Option<PoolIndex>) -> Result<
        Option<NodeView>,
        EncodeError,
    > {
        match file {
            None => Ok(None),
            Some(index) => match self.source_file_at(index) {
                Err(e) => Err(e),
                Ok(node) => Ok(Some(node)),
            },
        }
    }

    /// The document of a function that carries the name at `name`.
    pub open spec fn encoded_function(self, name: PoolIndex, function: Function) -> Result<
        NodeView,
        EncodeError,
    > {
        match self.name(name) {
            Err(e) => Err(e),
            Ok(n) => match self.children(function.parameters@, Child::Parameter) {
                Err(e) => Err(e),
                Ok(parameters) => match self.return_type(function.return_type) {
                    Err(e) => Err(e),
                    Ok(return_type) => match self.source(
                        match function.source {
                            Some(source) => Some(source.file),
                            None => None,
                        },
                    ) {
                        Err(e) => Err(e),
                        Ok(source) => Ok(
                            function_layout(
                                n,
                                parameters,
                                return_type,
                                function.visibility,
                                function.flags,
                                source,
                            ),
                        ),
                    },
                },
            },
        }
    }

    /// The document of the method at `index`.
    pub open spec fn method_at(self, index: PoolIndex) -> Result<NodeView, EncodeError> {
        match self.definition(index) {
            Err(e) => Err(e),
            Ok(definition) => match definition.value {
                AnyDefinition::Function(function) => self.encoded_function(
                    definition.name,
                    function,
                ),
                _ => Err(misplaced_spec(index, definition)),
            },
        }
    }

    /// The documents of the methods at `indices`, in order, or the first
    /// failure among them.
    pub open spec fn methods(self, indices: Seq<PoolIndex>) -> Result<Seq<NodeView>, EncodeError> {
        collect(indices.map_values(|index: PoolIndex| self.method_at(index)))
    }

    /// The document of a class that carries the name at `name`.
    pub open spec fn encoded_class(self, name: PoolIndex, class: Class) -> Result<
        NodeView,
        EncodeError,
    > {
        match self.name(name) {
            Err(e) => Err(e),
            Ok(n) => match self.bases(class.base) {
                Err(e) => Err(e),
                Ok(bases) => match self.children(class.fields@, Child::Field) {
                    Err(e) => Err(e),
                    Ok(fields) => match self.methods(class.functions@) {
                        Err(e) => Err(e),
                        Ok(methods) => Ok(
                            class_layout(
                                n,
                                class.visibility,
                                reference_nodes(bases),
                                fields,
                                methods,
                                class.flags,
                            ),
                        ),
                    },
                },
            },
        }
    }

    /// The document of an enum that carries the name at `name`.
    pub open spec fn encoded_enum(self, name: PoolIndex, enum_: Enum) -> Result<
        NodeView,
        EncodeError,
    > {
        match self.name(name) {
            Err(e) => Err(e),
            Ok(n) => match self.children(enum_.members@, Child::Member) {
                Err(e) => Err(e),
                Ok(members) => Ok(enum_layout(n, members)),
            },
        }
    }

    /// The document of `definition`, by its kind. A local variable has
    /// none.
    pub open spec fn encoded(self, definition: Definition) -> Result<NodeView, EncodeError> {
        match definition.value {
            AnyDefinition::Type(type_) => self.type_node(definition.name, type_),
            AnyDefinition::Class(class) => self.encoded_class(definition.name, class),
            AnyDefinition::EnumValue(value) => self.encoded_enum_value(definition.name, value),
            AnyDefinition::Enum(enum_) => self.encoded_enum(definition.name, enum_),
            AnyDefinition::Function(function) => self.encoded_function(definition.name, function),
            AnyDefinition::Parameter(parameter) => self.encoded_parameter(
                definition.name,
                parameter,
            ),
            AnyDefinition::Field(field) => self.encoded_field(definition.name, field),
            AnyDefinition::SourceFile(file) => Ok(NodeView::Text(file.path@)),
            AnyDefinition::Local(_) => Err(EncodeError::UnsupportedKind),
        }
    }
}

fn stored_name(name: PoolIndex, pool: &ConstantPool) -> (result: Result<String, EncodeError>)
    ensures
        match result {
            Ok(n) => pool@.name(name) == Ok::<Seq<char>, EncodeError>(n@),
            Err(e) => pool@.name(name) == Err::<Seq<char>, EncodeError>(e),
        },
{
    match pool.name(name) {
        Ok(n) => Ok(n.to_owned()),
        Err(e) => Err(e),
    }
}

fn short_name(name: PoolIndex, pool: &ConstantPool) -> (result: Result<String, EncodeError>)
    ensures
        match result {
            Ok(n) => pool@.short_name(name) == Ok::<Seq<char>, EncodeError>(n@),
            Err(e) => pool@.short_name(name) == Err::<Seq<char>, EncodeError>(e),
        },
{
    match pool.name(name) {
        Ok(n) => Ok(pretty(n)),
        Err(e) => Err(e),
    }
}

fn encode_parameter(name: PoolIndex, parameter: &Parameter, pool: &ConstantPool) -> (result:
    Result<Node, EncodeError>)
    ensures
        node_matches(result, pool@.encoded_parameter(name, *parameter)),
{
    let n = match stored_name(name, pool) {
        Ok(n) => n,
        Err(e) => {
            return Err(e);
        },
    };
    match encode_type_at(parameter.type_, pool) {
        Ok(type_) => Ok(parameter_node(n, type_, parameter.flags)),
        Err(e) => Err(e),
    }
}

fn encode_field(name: PoolIndex, field: &Field, pool: &ConstantPool) -> (result: Result<
    Node,
    EncodeError,
>)
    ensures
        node_matches(result, pool@.encoded_field(name, *field)),
{
    let n = match short_name(name, pool) {
        Ok(n) => n,
        Err(e) => {
            return Err(e);
        },
    };
    match encode_type_at(field.type_, pool) {
        Ok(type_) => Ok(field_node(n, type_, field.flags)),
        Err(e) => Err(e),
    }
}

fn encode_enum_value(name: PoolIndex, value: i64, pool: &ConstantPool) -> (result: Result<
    Node,
    EncodeError,
>)
    ensures
        node_matches(result, pool@.encoded_enum_value(name, value)),
{
    match stored_name(name, pool) {
        Ok(n) => Ok(enum_value_node(n, value)),
        Err(e) => Err(e),
    }
}

fn encode_child_at(index: PoolIndex, child: Child, pool: &ConstantPool) -> (result: Result<
    Node,
    EncodeError,
>)
    ensures
        node_matches(result, pool@.child_at(index, child)),
{
    let definition = match pool.definition(index) {
        Ok(definition) => definition,
        Err(e) => {
            return Err(e);
        },
    };
    match (child, &definition.value) {
        (Child::Field, AnyDefinition::Field(field)) => encode_field(definition.name, field, pool),
        (Child::Parameter, AnyDefinition::Parameter(parameter)) => encode_parameter(
            definition.name,
            parameter,
            pool,
        ),
        (Child::Member, AnyDefinition::EnumValue(value)) => encode_enum_value(
            definition.name,
            *value,
            pool,
        ),
        _ => Err(misplaced(index, definition)),
    }
}

/// Encodes what stands at each of `indices` with `encode_at`, in order,
/// and stops at the first failure. `expected` says what `encode_at` gives
/// for each index.
fn encode_each<F: Fn(PoolIndex) -> Result<Node, EncodeError>>(
    indices: &Vec<PoolIndex>,
    encode_at: F,
    Ghost(expected): Ghost<spec_fn(PoolIndex) -> Result<NodeView, EncodeError>>,
) -> (result: Result<Vec<Node>, EncodeError>)
    requires
        forall|index: PoolIndex| call_requires(encode_at, (index,)),
        forall|index: PoolIndex, r: Result<Node, EncodeError>|
            call_ensures(encode_at, (index,), r) ==> node_matches(r, expected(index)),
    ensures
        nodes_match(result, collect(indices@.map_values(expected))),
{
    let ghost items = indices@.map_values(expected);
    let mut nodes: Vec<Node> = Vec::new();
    let mut i: usize = 0;
    assert(items.take(0) =~= Seq::empty());
    assert(list_view(nodes@) =~= Seq::empty());
    while i < indices.len()
        invariant
            i <= indices.len(),
            items == indices@.map_values(expected),
            forall|index: PoolIndex| call_requires(encode_at, (index,)),
            forall|index: PoolIndex, r: Result<Node, EncodeError>|
                call_ensures(encode_at, (index,), r) ==> node_matches(r, expected(index)),
            collect(items.take(i as int)) == Ok::<Seq<NodeView>, EncodeError>(list_view(nodes@)),
        decreases indices.len() - i,
    {
        proof {
            assert(items.take(i + 1).drop_last() =~= items.take(i as int));
        }
        let ghost before = list_view(nodes@);
        match encode_at(indices[i]) {
            Ok(node) => {
                nodes.push(node);
                assert(list_view(nodes@) =~= before.push(node@));
            },
            Err(e) => {
                proof {
                    lemma_collect_fails_early(items, i + 1, e);
                }
                return Err(e);
            },
        }
        i += 1;
    }
    assert(items.take(i as int) =~= items);
    Ok(nodes)
}

fn encode_children(indices: &Vec<PoolIndex>, child: Child, pool: &ConstantPool) -> (result:
    Result<Vec<Node>, EncodeError>)
    ensures
        nodes_match(result, pool@.children(indices@, child)),
{
    let encode_at = |index: PoolIndex| -> (r: Result<Node, EncodeError>)
        ensures
            node_matches(r, pool@.child_at(index, child)),
        { encode_child_at(index, child, pool) };
    let ghost expected = |index: PoolIndex| pool@.child_at(index, child);
    encode_each(indices, encode_at, Ghost(expected))
}

fn encode_source_file_at(index: PoolIndex, pool: &ConstantPool) -> (result: Result<
    Node,
    EncodeError,
>)
    ensures
        node_matches(result, pool@.source_file_at(index)),
{
    let definition = match pool.definition(index) {
        Ok(definition) => definition,
        Err(e) => {
            return Err(e);
        },
    };
    match &definition.value {
        AnyDefinition::SourceFile(file) => Ok(Node::text(file.path.as_str())),
        _ => Err(misplaced(index, definition)),
    }
}

fn encode_function(name: PoolIndex, function: &Function, pool: &ConstantPool) -> (result: Result<
    Node,
    EncodeError,
>)
    ensures
        node_matches(result, pool@.encoded_function(name, *function)),
{
    let n = match stored_name(name, pool) {
        Ok(n) => n,
        Err(e) => {
            return Err(e);
        },
    };
    let parameters = match encode_children(&function.parameters, Child::Parameter, pool) {
        Ok(parameters) => parameters,
        Err(e) => {
            return Err(e);
        },
    };
    let return_type = match function.return_type {
        None => None,
        Some(index) => match encode_type_at(index, pool) {
            Ok(node) => Some(node),
            Err(e) => {
                return Err(e);
            },
        },
    };
    let source = match function.source {
        None => None,
        Some(source) => match encode_source_file_at(source.file, pool) {
            Ok(node) => Some(node),
            Err(e) => {
                return Err(e);
            },
        },
    };
    Ok(function_node(n, parameters, return_type, function.visibility, function.flags, source))
}

fn encode_method_at(index: PoolIndex, pool: &ConstantPool) -> (result: Result<Node, EncodeError>)
    ensures
        node_matches(result, pool@.method_at(index)),
{
    let definition = match pool.definition(index) {
        Ok(definition) => definition,
        Err(e) => {
            return Err(e);
        },
    };
    match &definition.value {
        AnyDefinition::Function(function) => encode_function(definition.name, function, pool),
        _ => Err(misplaced(index, definition)),
    }
}

fn encode_methods(indices: &Vec<PoolIndex>, pool: &ConstantPool) -> (result: Result<
    Vec<Node>,
    EncodeError,
>)
    ensures
        nodes_match(result, pool@.methods(indices@)),
{
    let encode_at = |index: PoolIndex| -> (r: Result<Node, EncodeError>)
        ensures
            node_matches(r, pool@.method_at(index)),
        { encode_method_at(index, pool) };
    let ghost expected = |index: PoolIndex| pool@.method_at(index);
    encode_each(indices, encode_at, Ghost(expected))
}

fn encode_class(name: PoolIndex, class: &Class, pool: &ConstantPool) -> (result: Result<
    Node,
    EncodeError,
>)
    ensures
        node_matches(result, pool@.encoded_class(name, *class)),
{
    let n = match stored_name(name, pool) {
        Ok(n) => n,
        Err(e) => {
            return Err(e);
        },
    };
    let bases = match collect_bases(class.base, pool) {
        Ok(bases) => bases,
        Err(e) => {
            return Err(e);
        },
    };
    let fields = match encode_children(&class.fields, Child::Field, pool) {
        Ok(fields) => fields,
        Err(e) => {
            return Err(e);
        },
    };
    let methods = match encode_methods(&class.functions, pool) {
        Ok(methods) => methods,
        Err(e) => {
            return Err(e);
        },
    };
    Ok(class_node(n, class.visibility, to_nodes(&bases), fields, methods, class.flags))
}

fn encode_enum(name: PoolIndex, enum_: &Enum, pool: &ConstantPool) -> (result: Result<
    Node,
    EncodeError,
>)
    ensures
        node_matches(result, pool@.encoded_enum(name, *enum_)),
{
    let n = match stored_name(name, pool) {
        Ok(n) => n,
        Err(e) => {
            return Err(e);
        },
    };
    match encode_children(&enum_.members, Child::Member, pool) {
        Ok(members) => Ok(enum_node(n, members)),
        Err(e) => Err(e),
    }
}

/// Encodes `definition` as a document, resolving in `pool` every index it
/// holds.
///
/// The result is the document that [`PoolView::encoded`] describes, or the
/// failure it describes: nothing else is ever returned, so that encoding
/// the same definition again from the same pool gives the same document.
pub fn encode_definition(definition: &Definition, pool: &ConstantPool) -> (result: Result<
    Node,
    EncodeError,
>)
    ensures
        node_matches(result, pool@.encoded(*definition)),
{
    match &definition.value {
        AnyDefinition::Type(type_) => encode_type(definition.name, *type_, pool),
        AnyDefinition::Class(class) => encode_class(definition.name, class, pool),
        AnyDefinition::EnumValue(value) => encode_enum_value(definition.name, *value, pool),
        AnyDefinition::Enum(enum_) => encode_enum(definition.name, enum_, pool),
        AnyDefinition::Function(function) => encode_function(definition.name, function, pool),
        AnyDefinition::Parameter(parameter) => encode_parameter(definition.name, parameter, pool),
        AnyDefinition::Field(field) => encode_field(definition.name, field, pool),
        AnyDefinition::SourceFile(file) => Ok(Node::text(file.path.as_str())),
        AnyDefinition::Local(_) => Err(EncodeError::UnsupportedKind),
    }
}

} // verus!

//! The layout of each kind of document node: which members a record has,
//! under which keys and in which order.
//!
//! Every layout is given twice: as a spec function over values, which the
//! contracts of the encoder speak of, and as an executable function that
//! builds the node.
use vstd::prelude::*;

use crate::definition::{ClassFlags, FieldFlags, FunctionFlags, ParameterFlags, Visibility};
use crate::node::{list_view, lookup, option_view, optional_view, put, Node, NodeView};

verus! {

/// The word under which a visibility appears in a document.
pub open spec fn visibility_label(visibility: Visibility) -> Seq<char> {
    match visibility {
        Visibility::Public => "public"@,
        Visibility::Protected => "protected"@,
        Visibility::Private => "private"@,
    }
}

/// The kinds of type wrapper that hold nothing but the wrapped type.
#[derive(Clone, Copy, Debug, PartialEq, Eq, Structural)]
pub enum Wrapper {
    Ref,
    WeakRef,
    ScriptRef,
    Array,
}

/// The word under which a wrapper's kind appears in a document.
pub open spec fn wrapper_label(wrapper: Wrapper) -> Seq<char> {
    match wrapper {
        Wrapper::Ref => "Ref"@,
        Wrapper::WeakRef => "WeakRef"@,
        Wrapper::ScriptRef => "ScriptRef"@,
        Wrapper::Array => "Array"@,
    }
}

pub open spec fn prim_type_layout(name: Seq<char>) -> NodeView {
    NodeView::Record(
        seq![
            ("tag"@, NodeView::Text("Type"@)),
            ("kind"@, NodeView::Text("Prim"@)),
            ("name"@, NodeView::Text(name)),
        ],
    )
}

pub open spec fn class_type_layout(name: Seq<char>, index: u32) -> NodeView {
    NodeView::Record(
        seq![
            ("tag"@, NodeView::Text("Type"@)),
            ("kind"@, NodeView::Text("Class"@)),
            ("name"@, NodeView::Text(name)),
            ("index"@, NodeView::Int(index as int)),
        ],
    )
}

pub open spec fn wrapper_layout(wrapper: Wrapper, inner: NodeView) -> NodeView {
    NodeView::Record(
        seq![
            ("tag"@, NodeView::Text("Type"@)),
            ("kind"@, NodeView::Text(wrapper_label(wrapper))),
            ("inner"@, inner),
        ],
    )
}

pub open spec fn static_array_layout(size: u32, inner: NodeView) -> NodeView {
    NodeView::Record(
        seq![
            ("tag"@, NodeView::Text("Type"@)),
            ("kind"@, NodeView::Text("StaticArray"@)),
            ("size"@, NodeView::Int(size as int)),
            ("inner"@, inner),
        ],
    )
}

pub open spec fn reference_layout(name: Seq<char>, index: u32, base: Option<u32>) -> NodeView {
    NodeView::Record(
        seq![
            ("name"@, NodeView::Text(name)),
            ("index"@, NodeView::Int(index as int)),
            (
                "base"@,
                match base {
                    Some(b) => NodeView::Int(b as int),
                    None => NodeView::Null,
                },
            ),
        ],
    )
}

pub open spec fn class_layout(
    name: Seq<char>,
    visibility: Visibility,
    bases: Seq<NodeView>,
    fields: Seq<NodeView>,
    methods: Seq<NodeView>,
    flags: ClassFlags,
) -> NodeView {
    NodeView::Record(
        seq![
            ("tag"@, NodeView::Text("Class"@)),
            ("name"@, NodeView::Text(name)),
            ("visibility"@, NodeView::Text(visibility_label(visibility))),
            ("bases"@, NodeView::List(bases)),
            ("fields"@, NodeView::List(fields)),
            ("methods"@, NodeView::List(methods)),
            ("isNative"@, NodeView::Bool(flags.is_native)),
            ("isAbstract"@, NodeView::Bool(flags.is_abstract)),
            ("isFinal"@, NodeView::Bool(flags.is_final)),
            ("isStruct"@, NodeView::Bool(flags.is_struct)),
        ],
    )
}

pub open spec fn enum_value_layout(name: Seq<char>, value: i64) -> NodeView {
    NodeView::Record(
        seq![
            ("tag"@, NodeView::Text("EnumValue"@)),
            ("name"@, NodeView::Text(name)),
            ("value"@, NodeView::Int(value as int)),
        ],
    )
}

pub open spec fn enum_layout(name: Seq<char>, members: Seq<NodeView>) -> NodeView {
    NodeView::Record(
        seq![
            ("tag"@, NodeView::Text("Enum"@)),
            ("name"@, NodeView::Text(name)),
            ("members"@, NodeView::List(members)),
        ],
    )
}

pub open spec fn function_layout(
    name: Seq<char>,
    parameters: Seq<NodeView>,
    return_type: Option<NodeView>,
    visibility: Visibility,
    flags: FunctionFlags,
    source: Option<NodeView>,
) -> NodeView {
    NodeView::Record(
        seq![
            ("tag"@, NodeView::Text("Function"@)),
            ("name"@, NodeView::Text(name)),
            ("parameters"@, NodeView::List(parameters)),
            ("returnType"@, optional_view(return_type)),
            ("visibility"@, NodeView::Text(visibility_label(visibility))),
            ("isStatic"@, NodeView::Bool(flags.is_static)),
            ("isFinal"@, NodeView::Bool(flags.is_final)),
            ("isExec"@, NodeView::Bool(flags.is_exec)),
            ("isCallback"@, NodeView::Bool(flags.is_callback)),
            ("isNative"@, NodeView::Bool(flags.is_native)),
            ("source"@, optional_view(source)),
        ],
    )
}

pub open spec fn parameter_layout(
    name: Seq<char>,
    type_: NodeView,
    flags: ParameterFlags,
) -> NodeView {
    NodeView::Record(
        seq![
            ("tag"@, NodeView::Text("Parameter"@)),
            ("name"@, NodeView::Text(name)),
            ("type"@, type_),
            ("isOut"@, NodeView::Bool(flags.is_out)),
            ("isOptional"@, NodeView::Bool(flags.is_optional)),
        ],
    )
}

pub open spec fn field_layout(name: Seq<char>, type_: NodeView, flags: FieldFlags) -> NodeView {
    NodeView::Record(
        seq![
            ("tag"@, NodeView::Text("Field"@)),
            ("name"@, NodeView::Text(name)),
            ("type"@, type_),
            ("isNative"@, NodeView::Bool(flags.is_native)),
            ("isEdit"@, NodeView::Bool(flags.is_editable)),
            ("isInline"@, NodeView::Bool(flags.is_inline)),
            ("isConst"@, NodeView::Bool(flags.is_const)),
            ("isRep"@, NodeView::Bool(flags.is_replicated)),
            ("isPersistent"@, NodeView::Bool(flags.is_persistent)),
        ],
    )
}

/// Every type document says so under `tag`; a wrapper holds the wrapped
/// type's document under `inner`, and a plain type has no such member.
pub proof fn lemma_type_layouts(
    name: Seq<char>,
    index: u32,
    wrapper: Wrapper,
    size: u32,
    inner: NodeView,
)
    ensures
        prim_type_layout(name).member("tag"@) == Some(NodeView::Text("Type"@)),
        prim_type_layout(name).member("inner"@) is None,
        class_type_layout(name, index).member("tag"@) == Some(NodeView::Text("Type"@)),
        class_type_layout(name, index).member("inner"@) is None,
        wrapper_layout(wrapper, inner).member("tag"@) == Some(NodeView::Text("Type"@)),
        wrapper_layout(wrapper, inner).member("inner"@) == Some(inner),
        static_array_layout(size, inner).member("tag"@) == Some(NodeView::Text("Type"@)),
        static_array_layout(size, inner).member("inner"@) == Some(inner),
        prim_type_layout(name).member("name"@) == Some(NodeView::Text(name)),
        class_type_layout(name, index).member("name"@) == Some(NodeView::Text(name)),
        class_type_layout(name, index).member("index"@) == Some(NodeView::Int(index as int)),
{
    reveal_strlit("tag");
    reveal_strlit("kind");
    reveal_strlit("name");
    reveal_strlit("index");
    reveal_strlit("size");
    reveal_strlit("inner");
    reveal_with_fuel(lookup, 5);
    assert("inner"@.len() == 5 && "inner"@[2] == 'n');
    assert("tag"@.len() == 3);
    assert("kind"@.len() == 4);
    assert("name"@.len() == 4);
    assert("size"@.len() == 4);
    assert("index"@.len() == 5 && "index"@[2] == 'd');
    assert("kind"@[0] == 'k' && "name"@[0] == 'n');
}

/// A class document says so under `tag` and holds its ancestors under
/// `bases`.
pub proof fn lemma_class_layout(
    name: Seq<char>,
    visibility: Visibility,
    bases: Seq<NodeView>,
    fields: Seq<NodeView>,
    methods: Seq<NodeView>,
    flags: ClassFlags,
)
    ensures
        class_layout(name, visibility, bases, fields, methods, flags).member("tag"@) == Some(
            NodeView::Text("Class"@),
        ),
        class_layout(name, visibility, bases, fields, methods, flags).member("bases"@) == Some(
            NodeView::List(bases),
        ),
{
    reveal_strlit("tag");
    reveal_strlit("name");
    reveal_strlit("visibility");
    reveal_strlit("bases");
    reveal_with_fuel(lookup, 5);
    assert("bases"@.len() == 5);
    assert("tag"@.len() == 3);
    assert("name"@.len() == 4);
    assert("visibility"@.len() == 10);
}

/// The document of a class, an enum value, an enum, a function, a
/// parameter or a field holds under `name` the name it was laid out with.
pub proof fn lemma_named_layouts(
    name: Seq<char>,
    visibility: Visibility,
    lists: (Seq<NodeView>, Seq<NodeView>, Seq<NodeView>),
    options: (Option<NodeView>, Option<NodeView>),
    flags: (ClassFlags, FunctionFlags, ParameterFlags, FieldFlags),
    value: i64,
    type_: NodeView,
)
    ensures
        class_layout(name, visibility, lists.0, lists.1, lists.2, flags.0).member("name"@)
            == Some(NodeView::Text(name)),
        enum_value_layout(name, value).member("name"@) == Some(NodeView::Text(name)),
        enum_layout(name, lists.0).member("name"@) == Some(NodeView::Text(name)),
        function_layout(name, lists.0, options.0, visibility, flags.1, options.1).member(
            "name"@,
        ) == Some(NodeView::Text(name)),
        parameter_layout(name, type_, flags.2).member("name"@) == Some(NodeView::Text(name)),
        field_layout(name, type_, flags.3).member("name"@) == Some(NodeView::Text(name)),
{
    reveal_strlit("tag");
    reveal_strlit("name");
    reveal_with_fuel(lookup, 3);
    assert("tag"@.len() == 3);
    assert("name"@.len() == 4);
}

pub fn visibility_node(visibility: Visibility) -> (n: Node)
    ensures
        n@ == NodeView::Text(visibility_label(visibility)),
{
    match visibility {
        Visibility::Public => Node::text("public"),
        Visibility::Protected => Node::text("protected"),
        Visibility::Private => Node::text("private"),
    }
}

pub fn prim_type_node(name: String) -> (n: Node)
    ensures
        n@ == prim_type_layout(name@),
{
    let mut members: Vec<(String, Node)> = Vec::new();
    put(&mut members, "tag", Node::text("Type"));
    put(&mut members, "kind", Node::text("Prim"));
    put(&mut members, "name", Node::Text(name));
    let n = Node::record(members);
    assert(n@->Record_0 =~= prim_type_layout(name@)->Record_0);
    n
}

pub fn class_type_node(name: String, index: u32) -> (n: Node)
    ensures
        n@ == class_type_layout(name@, index),
{
    let mut members: Vec<(String, Node)> = Vec::new();
    put(&mut members, "tag", Node::text("Type"));
    put(&mut members, "kind", Node::text("Class"));
    put(&mut members, "name", Node::Text(name));
    put(&mut members, "index", Node::number(index));
    let n = Node::record(members);
    assert(n@->Record_0 =~= class_type_layout(name@, index)->Record_0);
    n
}

pub fn wrapper_node(wrapper: Wrapper, inner: Node) -> (n: Node)
    ensures
        n@ == wrapper_layout(wrapper, inner@),
{
    let kind = match wrapper {
        Wrapper::Ref => Node::text("Ref"),
        Wrapper::WeakRef => Node::text("WeakRef"),
        Wrapper::ScriptRef => Node::text("ScriptRef"),
        Wrapper::Array => Node::text("Array"),
    };
    let ghost inner_view = inner@;
    let mut members: Vec<(String, Node)> = Vec::new();
    put(&mut members, "tag", Node::text("Type"));
    put(&mut members, "kind", kind);
    put(&mut members, "inner", inner);
    let n = Node::record(members);
    assert(n@->Record_0 =~= wrapper_layout(wrapper, inner_view)->Record_0);
    n
}

pub fn static_array_node(size: u32, inner: Node) -> (n: Node)
    ensures
        n@ == static_array_layout(size, inner@),
{
    let ghost inner_view = inner@;
    let mut members: Vec<(String, Node)> = Vec::new();
    put(&mut members, "tag", Node::text("Type"));
    put(&mut members, "kind", Node::text("StaticArray"));
    put(&mut members, "size", Node::number(size));
    put(&mut members, "inner", inner);
    let n = Node::record(members);
    assert(n@->Record_0 =~= static_array_layout(size, inner_view)->Record_0);
    n
}

pub fn reference_node(name: String, index: u32, base: Option<u32>) -> (n: Node)
    ensures
        n@ == reference_layout(name@, index, base),
{
    let base_node = match base {
        Some(b) => Node::number(b),
        None => Node::Null,
    };
    let mut members: Vec<(String, Node)> = Vec::new();
    put(&mut members, "name", Node::Text(name));
    put(&mut members, "index", Node::number(index));
    put(&mut members, "base", base_node);
    let n = Node::record(members);
    assert(n@->Record_0 =~= reference_layout(name@, index, base)->Record_0);
    n
}

pub fn class_node(
    name: String,
    visibility: Visibility,
    bases: Vec<Node>,
    fields: Vec<Node>,
    methods: Vec<Node>,
    flags: ClassFlags,
) -> (n: Node)
    ensures
        n@ == class_layout(
            name@,
            visibility,
            list_view(bases@),
            list_view(fields@),
            list_view(methods@),
            flags,
        ),
{
    let mut members: Vec<(String, Node)> = Vec::new();
    put(&mut members, "tag", Node::text("Class"));
    put(&mut members, "name", Node::Text(name));
    put(&mut members, "visibility", visibility_node(visibility));
    put(&mut members, "bases", Node::list(bases));
    put(&mut members, "fields", Node::list(fields));
    put(&mut members, "methods", Node::list(methods));
    put(&mut members, "isNative", Node::Bool(flags.is_native));
    put(&mut members, "isAbstract", Node::Bool(flags.is_abstract));
    put(&mut members, "isFinal", Node::Bool(flags.is_final));
    put(&mut members, "isStruct", Node::Bool(flags.is_struct));
    let n = Node::record(members);
    assert(n@->Record_0 =~= class_layout(
        name@,
        visibility,
        list_view(bases@),
        list_view(fields@),
        list_view(methods@),
        flags,
    )->Record_0);
    n
}

pub fn enum_value_node(name: String, value: i64) -> (n: Node)
    ensures
        n@ == enum_value_layout(name@, value),
{
    let mut members: Vec<(String, Node)> = Vec::new();
    put(&mut members, "tag", Node::text("EnumValue"));
    put(&mut members, "name", Node::Text(name));
    put(&mut members, "value", Node::Int(value));
    let n = Node::record(members);
    assert(n@->Record_0 =~= enum_value_layout(name@, value)->Record_0);
    n
}

pub fn enum_node(name: String, members_of_enum: Vec<Node>) -> (n: Node)
    ensures
        n@ == enum_layout(name@, list_view(members_of_enum@)),
{
    let mut members: Vec<(String, Node)> = Vec::new();
    put(&mut members, "tag", Node::text("Enum"));
    put(&mut members, "name", Node::Text(name));
    put(&mut members, "members", Node::list(members_of_enum));
    let n = Node::record(members);
    assert(n@->Record_0 =~= enum_layout(name@, list_view(members_of_enum@))->Record_0);
    n
}

pub fn function_node(
    name: String,
    parameters: Vec<Node>,
    return_type: Option<Node>,
    visibility: Visibility,
    flags: FunctionFlags,
    source: Option<Node>,
) -> (n: Node)
    ensures
        n@ == function_layout(
            name@,
            list_view(parameters@),
            option_view(return_type),
            visibility,
            flags,
            option_view(source),
        ),
{
    let ghost expected = function_layout(
        name@,
        list_view(parameters@),
        option_view(return_type),
        visibility,
        flags,
        option_view(source),
    );
    let mut members: Vec<(String, Node)> = Vec::new();
    put(&mut members, "tag", Node::text("Function"));
    put(&mut members, "name", Node::Text(name));
    put(&mut members, "parameters", Node::list(parameters));
    put(&mut members, "returnType", Node::optional(return_type));
    put(&mut members, "visibility", visibility_node(visibility));
    put(&mut members, "isStatic", Node::Bool(flags.is_static));
    put(&mut members, "isFinal", Node::Bool(flags.is_final));
    put(&mut members, "isExec", Node::Bool(flags.is_exec));
    put(&mut members, "isCallback", Node::Bool(flags.is_callback));
    put(&mut members, "isNative", Node::Bool(flags.is_native));
    put(&mut members, "source", Node::optional(source));
    let n = Node::record(members);
    assert(n@->Record_0 =~= expected->Record_0);
    n
}

pub fn parameter_node(name: String, type_: Node, flags: ParameterFlags) -> (n: Node)
    ensures
        n@ == parameter_layout(name@, type_@, flags),
{
    let ghost expected = parameter_layout(name@, type_@, flags);
    let mut members: Vec<(String, Node)> = Vec::new();
    put(&mut members, "tag", Node::text("Parameter"));
    put(&mut members, "name", Node::Text(name));
    put(&mut members, "type", type_);
    put(&mut members, "isOut", Node::Bool(flags.is_out));
    put(&mut members, "isOptional", Node::Bool(flags.is_optional));
    let n = Node::record(members);
    assert(n@->Record_0 =~= expected->Record_0);
    n
}

pub fn field_node(name: String, type_: Node, flags: FieldFlags) -> (n: Node)
    ensures
        n@ == field_layout(name@, type_@, flags),
{
    let ghost expected = field_layout(name@, type_@, flags);
    let mut members: Vec<(String, Node)> = Vec::new();
    put(&mut members, "tag", Node::text("Field"));
    put(&mut members, "name", Node::Text(name));
    put(&mut members, "type", type_);
    put(&mut members, "isNative", Node::Bool(flags.is_native));
    put(&mut members, "isEdit", Node::Bool(flags.is_editable));
    put(&mut members, "isInline", Node::Bool(flags.is_inline));
    put(&mut members, "isConst", Node::Bool(flags.is_const));
    put(&mut members, "isRep", Node::Bool(flags.is_replicated));
    put(&mut members, "isPersistent", Node::Bool(flags.is_persistent));
    let n = Node::record(members);
    assert(n@->Record_0 =~= expected->Record_0);
    n
}

} // verus!

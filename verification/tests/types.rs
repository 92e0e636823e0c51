use definition_graph::definition::{
    AnyDefinition, Class, ClassFlags, Definition, Enum, Local, PoolIndex, Type, Visibility,
};
use definition_graph::encode::encode_definition;
use definition_graph::error::{EncodeError, Unresolved};
use definition_graph::node::Node;
use definition_graph::pool::ConstantPool;
use definition_graph::types::{encode_type, encode_type_at, find_type};

fn text(s: &str) -> Node {
    Node::Text(s.to_string())
}

fn record(members: Vec<(&str, Node)>) -> Node {
    Node::Record(members.into_iter().map(|(key, value)| (key.to_string(), value)).collect())
}

fn type_definition(name: PoolIndex, type_: Type) -> Definition {
    Definition { name, parent: PoolIndex::undefined(), value: AnyDefinition::Type(type_) }
}

fn class_definition(name: PoolIndex) -> Definition {
    Definition {
        name,
        parent: PoolIndex::undefined(),
        value: AnyDefinition::Class(Class {
            visibility: Visibility::Public,
            flags: ClassFlags {
                is_native: false,
                is_abstract: false,
                is_final: false,
                is_struct: false,
            },
            base: PoolIndex::undefined(),
            functions: Vec::new(),
            fields: Vec::new(),
        }),
    }
}

fn depth(node: &Node) -> usize {
    match node.get("inner") {
        Some(inner) => 1 + depth(inner),
        None => 0,
    }
}

#[test]
fn primitive_type_carries_its_own_name() {
    let mut pool = ConstantPool::new();
    let name = pool.add_name("Float".to_string()).unwrap();
    let index = pool.add_definition(type_definition(name, Type::Prim)).unwrap();
    let expected =
        record(vec![("tag", text("Type")), ("kind", text("Prim")), ("name", text("Float"))]);
    assert_eq!(encode_type_at(index, &pool), Ok(expected));
}

#[test]
fn primitive_type_without_a_name_fails() {
    let pool = ConstantPool::new();
    assert_eq!(
        encode_type(PoolIndex::new(3), Type::Prim, &pool),
        Err(EncodeError::Resolution(Unresolved::Name(PoolIndex::new(3))))
    );
}

#[test]
fn class_type_carries_the_index_of_the_class_of_the_same_name() {
    let mut pool = ConstantPool::new();
    let name = pool.add_name("Vehicle".to_string()).unwrap();
    let type_index = pool.add_definition(type_definition(name, Type::Class)).unwrap();
    let class_index = pool.add_definition(class_definition(name)).unwrap();
    assert_eq!(class_index, PoolIndex::new(2));
    let expected = record(vec![
        ("tag", text("Type")),
        ("kind", text("Class")),
        ("name", text("Vehicle")),
        ("index", Node::Int(2)),
    ]);
    assert_eq!(encode_type_at(type_index, &pool), Ok(expected));
}

#[test]
fn class_type_may_stand_for_an_enum() {
    let mut pool = ConstantPool::new();
    let name = pool.add_name("Color".to_string()).unwrap();
    let enum_index = pool
        .add_definition(Definition {
            name,
            parent: PoolIndex::undefined(),
            value: AnyDefinition::Enum(Enum { members: Vec::new() }),
        })
        .unwrap();
    assert_eq!(find_type(name, &pool), Ok(enum_index));
}

#[test]
fn find_type_returns_the_first_match() {
    let mut pool = ConstantPool::new();
    let other = pool.add_name("Other".to_string()).unwrap();
    let name = pool.add_name("Twice".to_string()).unwrap();
    pool.add_definition(class_definition(other)).unwrap();
    pool.add_definition(type_definition(name, Type::Class)).unwrap();
    let first = pool.add_definition(class_definition(name)).unwrap();
    pool.add_definition(class_definition(name)).unwrap();
    assert_eq!(find_type(name, &pool), Ok(first));
    assert_eq!(first, PoolIndex::new(3));
}

#[test]
fn find_type_among_other_kinds_only_is_a_kind_mismatch() {
    let mut pool = ConstantPool::new();
    let name = pool.add_name("Ghost".to_string()).unwrap();
    let type_index = pool.add_definition(type_definition(name, Type::Class)).unwrap();
    assert_eq!(find_type(name, &pool), Err(EncodeError::KindMismatch { index: type_index }));
    assert_eq!(
        encode_type_at(type_index, &pool),
        Err(EncodeError::KindMismatch { index: type_index })
    );
}

#[test]
fn find_type_of_a_name_that_nothing_carries_is_a_resolution_error() {
    let mut pool = ConstantPool::new();
    let name = pool.add_name("Nobody".to_string()).unwrap();
    assert_eq!(find_type(name, &pool), Err(EncodeError::Resolution(Unresolved::Named(name))));
    assert_eq!(
        encode_definition(&type_definition(name, Type::Class), &pool),
        Err(EncodeError::Resolution(Unresolved::Named(name)))
    );
}

#[test]
fn class_type_lookup_comes_before_the_name() {
    let pool = ConstantPool::new();
    let name = PoolIndex::new(8);
    assert_eq!(
        encode_type(name, Type::Class, &pool),
        Err(EncodeError::Resolution(Unresolved::Named(name)))
    );
}

#[test]
fn each_wrapper_kind_has_its_own_label() {
    let mut pool = ConstantPool::new();
    let name = pool.add_name("Int32".to_string()).unwrap();
    let none = pool.add_name("".to_string()).unwrap();
    let prim = pool.add_definition(type_definition(name, Type::Prim)).unwrap();
    let inner =
        record(vec![("tag", text("Type")), ("kind", text("Prim")), ("name", text("Int32"))]);
    let cases = vec![
        (Type::Ref(prim), "Ref"),
        (Type::WeakRef(prim), "WeakRef"),
        (Type::ScriptRef(prim), "ScriptRef"),
        (Type::Array(prim), "Array"),
    ];
    for (type_, label) in cases {
        let expected = Node::Record(vec![
            ("tag".to_string(), text("Type")),
            ("kind".to_string(), text(label)),
            (
                "inner".to_string(),
                record(vec![
                    ("tag", text("Type")),
                    ("kind", text("Prim")),
                    ("name", text("Int32")),
                ]),
            ),
        ]);
        assert_eq!(encode_definition(&type_definition(none, type_), &pool), Ok(expected));
    }
    assert_eq!(encode_type_at(prim, &pool), Ok(inner));
}

#[test]
fn static_array_carries_its_size() {
    let mut pool = ConstantPool::new();
    let name = pool.add_name("Int32".to_string()).unwrap();
    let prim = pool.add_definition(type_definition(name, Type::Prim)).unwrap();
    let array =
        pool.add_definition(type_definition(name, Type::StaticArray(prim, 16))).unwrap();
    let expected = record(vec![
        ("tag", text("Type")),
        ("kind", text("StaticArray")),
        ("size", Node::Int(16)),
        (
            "inner",
            record(vec![("tag", text("Type")), ("kind", text("Prim")), ("name", text("Int32"))]),
        ),
    ]);
    assert_eq!(encode_type_at(array, &pool), Ok(expected));
}

#[test]
fn static_array_size_may_be_the_largest() {
    let mut pool = ConstantPool::new();
    let name = pool.add_name("Int32".to_string()).unwrap();
    let prim = pool.add_definition(type_definition(name, Type::Prim)).unwrap();
    let node = encode_type(name, Type::StaticArray(prim, u32::MAX), &pool).unwrap();
    assert_eq!(node.get("size"), Some(&Node::Int(4294967295)));
}

#[test]
fn nested_wrappers_nest_as_deep_as_the_source() {
    // ref<array<wref<Int32>>>
    let mut pool = ConstantPool::new();
    let name = pool.add_name("Int32".to_string()).unwrap();
    let prim = pool.add_definition(type_definition(name, Type::Prim)).unwrap();
    let weak = pool.add_definition(type_definition(name, Type::WeakRef(prim))).unwrap();
    let array = pool.add_definition(type_definition(name, Type::Array(weak))).unwrap();
    let outer = pool.add_definition(type_definition(name, Type::Ref(array))).unwrap();
    let node = encode_type_at(outer, &pool).unwrap();
    assert_eq!(depth(&node), 3);
    assert_eq!(node.get("tag"), Some(&text("Type")));
    assert_eq!(node.get("kind"), Some(&text("Ref")));
    let first = node.get("inner").unwrap();
    assert_eq!(first.get("tag"), Some(&text("Type")));
    assert_eq!(first.get("kind"), Some(&text("Array")));
    let second = first.get("inner").unwrap();
    assert_eq!(second.get("tag"), Some(&text("Type")));
    assert_eq!(second.get("kind"), Some(&text("WeakRef")));
    let third = second.get("inner").unwrap();
    assert_eq!(third.get("tag"), Some(&text("Type")));
    assert_eq!(third.get("kind"), Some(&text("Prim")));
    assert_eq!(third.get("inner"), None);
}

#[test]
fn wrapper_around_nothing_fails() {
    let mut pool = ConstantPool::new();
    let name = pool.add_name("x".to_string()).unwrap();
    assert_eq!(
        encode_type(name, Type::Ref(PoolIndex::undefined()), &pool),
        Err(EncodeError::Resolution(Unresolved::Definition(PoolIndex::undefined())))
    );
    assert_eq!(
        encode_type(name, Type::Array(PoolIndex::new(77)), &pool),
        Err(EncodeError::Resolution(Unresolved::Definition(PoolIndex::new(77))))
    );
}

#[test]
fn wrapper_around_a_class_is_a_kind_mismatch() {
    let mut pool = ConstantPool::new();
    let name = pool.add_name("Vehicle".to_string()).unwrap();
    let class_index = pool.add_definition(class_definition(name)).unwrap();
    assert_eq!(
        encode_type(name, Type::Ref(class_index), &pool),
        Err(EncodeError::KindMismatch { index: class_index })
    );
}

#[test]
fn wrapper_around_a_local_is_unsupported() {
    let mut pool = ConstantPool::new();
    let name = pool.add_name("x".to_string()).unwrap();
    let local = pool
        .add_definition(Definition {
            name,
            parent: PoolIndex::undefined(),
            value: AnyDefinition::Local(Local { type_: PoolIndex::undefined() }),
        })
        .unwrap();
    assert_eq!(encode_type(name, Type::Ref(local), &pool), Err(EncodeError::UnsupportedKind));
}

#[test]
fn wrappers_that_wrap_each_other_are_cyclic() {
    let mut pool = ConstantPool::new();
    let name = pool.add_name("x".to_string()).unwrap();
    let first = pool.add_definition(type_definition(name, Type::Ref(PoolIndex::new(2)))).unwrap();
    let second =
        pool.add_definition(type_definition(name, Type::Array(PoolIndex::new(1)))).unwrap();
    assert_eq!(
        encode_type_at(first, &pool),
        Err(EncodeError::CyclicTypeNesting { index: first })
    );
    assert_eq!(
        encode_type_at(second, &pool),
        Err(EncodeError::CyclicTypeNesting { index: second })
    );
}

#[test]
fn wrapper_that_wraps_itself_is_cyclic() {
    let mut pool = ConstantPool::new();
    let name = pool.add_name("x".to_string()).unwrap();
    let index = pool.add_definition(type_definition(name, Type::Ref(PoolIndex::new(1)))).unwrap();
    assert_eq!(
        encode_type_at(index, &pool),
        Err(EncodeError::CyclicTypeNesting { index })
    );
}

#[test]
fn type_names_are_kept_as_stored() {
    let mut pool = ConstantPool::new();
    let name = pool.add_name("Odd;Name".to_string()).unwrap();
    let prim = pool.add_definition(type_definition(name, Type::Prim)).unwrap();
    let expected =
        record(vec![("tag", text("Type")), ("kind", text("Prim")), ("name", text("Odd;Name"))]);
    assert_eq!(encode_type_at(prim, &pool), Ok(expected));

    let class_index = pool.add_definition(class_definition(name)).unwrap();
    let expected = record(vec![
        ("tag", text("Type")),
        ("kind", text("Class")),
        ("name", text("Odd;Name")),
        ("index", Node::Int(2)),
    ]);
    assert_eq!(class_index, PoolIndex::new(2));
    assert_eq!(encode_type(name, Type::Class, &pool), Ok(expected));
}

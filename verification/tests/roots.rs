use definition_graph::definition::{
    AnyDefinition, Class, ClassFlags, Definition, Enum, PoolIndex, Type, Visibility,
};
use definition_graph::encode::encode_definition;
use definition_graph::error::{EncodeError, Unresolved};
use definition_graph::flat_index::build_index;
use definition_graph::pool::ConstantPool;
use definition_graph::roots::encode_roots;

fn class(fields: Vec<PoolIndex>) -> AnyDefinition {
    AnyDefinition::Class(Class {
        visibility: Visibility::Public,
        flags: ClassFlags {
            is_native: false,
            is_abstract: false,
            is_final: false,
            is_struct: false,
        },
        base: PoolIndex::undefined(),
        functions: Vec::new(),
        fields,
    })
}

fn root(name: PoolIndex, value: AnyDefinition) -> Definition {
    Definition { name, parent: PoolIndex::undefined(), value }
}

#[test]
fn roots_of_an_empty_pool() {
    assert!(encode_roots(&ConstantPool::new()).is_empty());
}

#[test]
fn each_root_is_encoded_on_its_own() {
    let mut pool = ConstantPool::new();
    let good = pool.add_name("Good".to_string()).unwrap();
    let bad = pool.add_name("Bad".to_string()).unwrap();
    let color = pool.add_name("Color".to_string()).unwrap();
    pool.add_definition(root(good, AnyDefinition::Type(Type::Prim))).unwrap(); // 1, not listed
    pool.add_definition(root(good, class(vec![]))).unwrap(); // 2
    pool.add_definition(root(bad, class(vec![PoolIndex::new(500)]))).unwrap(); // 3
    pool.add_definition(root(color, AnyDefinition::Enum(Enum { members: vec![] }))).unwrap(); // 4
    let outcomes = encode_roots(&pool);
    assert_eq!(outcomes.len(), 3);
    assert_eq!(outcomes[0].index, PoolIndex::new(2));
    assert_eq!(
        outcomes[0].result,
        encode_definition(pool.definition(PoolIndex::new(2)).unwrap(), &pool)
    );
    assert!(outcomes[0].result.is_ok());
    assert_eq!(outcomes[1].index, PoolIndex::new(3));
    assert_eq!(
        outcomes[1].result,
        Err(EncodeError::Resolution(Unresolved::Definition(PoolIndex::new(500))))
    );
    assert_eq!(outcomes[2].index, PoolIndex::new(4));
    assert!(outcomes[2].result.is_ok());
}

#[test]
fn roots_and_index_entries_go_together() {
    let mut pool = ConstantPool::new();
    let a = pool.add_name("A".to_string()).unwrap();
    pool.add_definition(root(a, class(vec![]))).unwrap();
    pool.add_definition(root(a, AnyDefinition::EnumValue(0))).unwrap();
    pool.add_definition(root(a, AnyDefinition::Enum(Enum { members: vec![] }))).unwrap();
    let outcomes = encode_roots(&pool);
    let index = build_index(&pool).unwrap();
    assert_eq!(outcomes.len(), index.len());
    for (outcome, entry) in outcomes.iter().zip(index.iter()) {
        assert_eq!(outcome.index, entry.index);
    }
}

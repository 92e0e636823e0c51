use definition_graph::definition::{AnyDefinition, Definition, PoolIndex, Type};
use definition_graph::error::{EncodeError, Unresolved};
use definition_graph::pool::ConstantPool;

fn prim(name: PoolIndex) -> Definition {
    Definition { name, parent: PoolIndex::undefined(), value: AnyDefinition::Type(Type::Prim) }
}

#[test]
fn undefined_index_is_zero() {
    assert_eq!(PoolIndex::undefined(), PoolIndex::new(0));
    assert!(PoolIndex::undefined().is_undefined());
    assert!(!PoolIndex::new(1).is_undefined());
}

#[test]
fn new_pool_holds_only_the_reserved_position() {
    let pool = ConstantPool::new();
    assert_eq!(pool.definition_count(), 1);
    assert_eq!(
        pool.definition(PoolIndex::new(0)).err(),
        Some(EncodeError::Resolution(Unresolved::Definition(PoolIndex::new(0))))
    );
    assert_eq!(
        pool.name(PoolIndex::new(0)).err(),
        Some(EncodeError::Resolution(Unresolved::Name(PoolIndex::new(0))))
    );
}

#[test]
fn names_are_indexed_from_zero_in_order() {
    let mut pool = ConstantPool::new();
    assert_eq!(pool.add_name("a".to_string()), Some(PoolIndex::new(0)));
    assert_eq!(pool.add_name("b".to_string()), Some(PoolIndex::new(1)));
    assert_eq!(pool.name(PoolIndex::new(0)), Ok("a"));
    assert_eq!(pool.name(PoolIndex::new(1)), Ok("b"));
    assert_eq!(
        pool.name(PoolIndex::new(2)),
        Err(EncodeError::Resolution(Unresolved::Name(PoolIndex::new(2))))
    );
}

#[test]
fn definitions_are_indexed_from_one_in_order() {
    let mut pool = ConstantPool::new();
    let a = pool.add_name("a".to_string()).unwrap();
    let b = pool.add_name("b".to_string()).unwrap();
    assert_eq!(pool.add_definition(prim(a)), Some(PoolIndex::new(1)));
    assert_eq!(pool.add_definition(prim(b)), Some(PoolIndex::new(2)));
    assert_eq!(pool.definition_count(), 3);
    assert_eq!(pool.definition(PoolIndex::new(1)), Ok(&prim(a)));
    assert_eq!(pool.definition(PoolIndex::new(2)), Ok(&prim(b)));
    assert_eq!(
        pool.definition(PoolIndex::new(3)),
        Err(EncodeError::Resolution(Unresolved::Definition(PoolIndex::new(3))))
    );
}

#[test]
fn undefined_index_never_resolves_to_a_definition() {
    let mut pool = ConstantPool::new();
    let a = pool.add_name("a".to_string()).unwrap();
    pool.add_definition(prim(a)).unwrap();
    assert_eq!(
        pool.definition(PoolIndex::undefined()),
        Err(EncodeError::Resolution(Unresolved::Definition(PoolIndex::undefined())))
    );
}

#[test]
fn pool_from_parts_keeps_positions() {
    let names = vec!["zero".to_string(), "one".to_string()];
    let definitions = vec![prim(PoolIndex::new(0)), prim(PoolIndex::new(1))];
    let pool = ConstantPool::from_parts(names, definitions).unwrap();
    assert_eq!(pool.definition_count(), 2);
    assert_eq!(pool.name(PoolIndex::new(1)), Ok("one"));
    assert_eq!(pool.definition(PoolIndex::new(1)), Ok(&prim(PoolIndex::new(1))));
    assert!(pool.definition(PoolIndex::new(0)).is_err());
}

#[test]
fn pool_from_empty_parts_resolves_nothing() {
    let pool = ConstantPool::from_parts(Vec::new(), Vec::new()).unwrap();
    assert_eq!(pool.definition_count(), 0);
    assert!(pool.definition(PoolIndex::new(0)).is_err());
    assert!(pool.definition(PoolIndex::new(1)).is_err());
    assert!(pool.name(PoolIndex::new(0)).is_err());
}

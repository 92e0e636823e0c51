use definition_graph::node::{put, Node};

#[test]
fn get_finds_the_first_member_under_a_key() {
    let mut members: Vec<(String, Node)> = Vec::new();
    put(&mut members, "a", Node::Int(1));
    put(&mut members, "b", Node::Bool(true));
    put(&mut members, "a", Node::Int(2));
    let node = Node::record(members);
    assert_eq!(node.get("a"), Some(&Node::Int(1)));
    assert_eq!(node.get("b"), Some(&Node::Bool(true)));
    assert_eq!(node.get("c"), None);
}

#[test]
fn get_on_anything_but_a_record_finds_nothing() {
    assert_eq!(Node::Null.get("a"), None);
    assert_eq!(Node::text("a").get("a"), None);
    assert_eq!(Node::list(vec![Node::text("a")]).get("a"), None);
}

#[test]
fn plain_nodes_hold_what_they_were_given() {
    assert_eq!(Node::text("x"), Node::Text("x".to_string()));
    assert_eq!(Node::number(u32::MAX), Node::Int(4294967295));
    assert_eq!(Node::optional(None), Node::Null);
    assert_eq!(Node::optional(Some(Node::Bool(false))), Node::Bool(false));
}

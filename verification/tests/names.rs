use definition_graph::names::pretty;

#[test]
fn pretty_name_cuts_at_the_first_separator() {
    assert_eq!(pretty("Foo;Bar(Int32)Void"), "Foo");
}

#[test]
fn pretty_name_keeps_a_name_without_separator() {
    assert_eq!(pretty("Foo"), "Foo");
}

#[test]
fn pretty_name_of_an_empty_name_is_empty() {
    assert_eq!(pretty(""), "");
}

#[test]
fn pretty_name_with_an_empty_suffix() {
    assert_eq!(pretty("Foo;"), "Foo");
}

#[test]
fn pretty_name_stops_at_the_first_of_several_separators() {
    assert_eq!(pretty("GetName;;a;b"), "GetName");
}

#[test]
fn pretty_name_that_starts_with_a_separator_is_empty() {
    assert_eq!(pretty(";Void"), "");
}

#[test]
fn pretty_name_counts_characters_not_bytes() {
    assert_eq!(pretty("Größe→;Int32"), "Größe→");
}

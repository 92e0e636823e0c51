//! The output document: a tree of scalars, lists and records.
use vstd::prelude::*;

verus! {

/// One node of an output document.
///
/// A record keeps its members in the order in which they were put in.
#[derive(Debug, PartialEq, Eq)]
pub enum Node {
    Null,
    Bool(bool),
    Int(i64),
    Text(String),
    List(Vec<Node>),
    Record(Vec<(String, Node)>),
}

/// The mathematical value of a [`Node`].
pub enum NodeView {
    Null,
    Bool(bool),
    Int(int),
    Text(Seq<char>),
    List(Seq<NodeView>),
    Record(Seq<(Seq<char>, NodeView)>),
}

impl View for Node {
    type V = NodeView;

    open spec fn view(&self) -> NodeView {
        self.value()
    }
}

impl Node {
    /// The value of this node: the same tree over sequences.
    pub open spec fn value(&self) -> NodeView
        decreases self,
    {
        match self {
            Node::Null => NodeView::Null,
            Node::Bool(b) => NodeView::Bool(*b),
            Node::Int(i) => NodeView::Int(*i as int),
            Node::Text(s) => NodeView::Text(s@),
            Node::List(items) => NodeView::List(
                Seq::new(
                    items@.len(),
                    |i: int|
                        if 0 <= i < items@.len() {
                            items@[i].value()
                        } else {
                            NodeView::Null
                        },
                ),
            ),
            Node::Record(members) => NodeView::Record(
                Seq::new(
                    members@.len(),
                    |i: int|
                        if 0 <= i < members@.len() {
                            (members@[i].0@, members@[i].1.value())
                        } else {
                            (Seq::empty(), NodeView::Null)
                        },
                ),
            ),
        }
    }
}

/// The values of a sequence of nodes.
pub open spec fn list_view(items: Seq<Node>) -> Seq<NodeView> {
    items.map_values(|n: Node| n@)
}

/// The values of a sequence of record members.
pub open spec fn record_view(members: Seq<(String, Node)>) -> Seq<(Seq<char>, NodeView)> {
    members.map_values(|m: (String, Node)| (m.0@, m.1@))
}

/// The first value that `members` holds under `key`.
pub open spec fn lookup(members: Seq<(Seq<char>, NodeView)>, key: Seq<char>) -> Option<NodeView>
    decreases members.len(),
{
    if members.len() == 0 {
        None
    } else if members[0].0 == key {
        Some(members[0].1)
    } else {
        lookup(members.drop_first(), key)
    }
}

/// A value found by `lookup` is a part of the members it was found in.
pub proof fn lemma_lookup_is_part(members: Seq<(Seq<char>, NodeView)>, key: Seq<char>)
    ensures
        lookup(members, key) matches Some(value) ==> decreases_to!(members => value),
    decreases members.len(),
{
    if members.len() > 0 {
        if members[0].0 == key {
            assert(decreases_to!(members => members[0]));
            assert(decreases_to!(members[0] => members[0].1));
        } else {
            lemma_lookup_is_part(members.drop_first(), key);
            assert(decreases_to!(members => members.drop_first()));
        }
    }
}

impl NodeView {
    /// How many records are nested in this one through the member
    /// `inner`.
    pub open spec fn nesting_depth(self) -> nat
        decreases self,
    {
        match self {
            NodeView::Record(members) => match lookup(members, "inner"@) {
                Some(inner) => {
                    proof {
                        lemma_lookup_is_part(members, "inner"@);
                    }
                    1 + inner.nesting_depth()
                },
                None => 0,
            },
            _ => 0,
        }
    }

    /// The member of a record under `key`; `None` if there is none or if
    /// this is no record.
    pub open spec fn member(self, key: Seq<char>) -> Option<NodeView> {
        match self {
            NodeView::Record(members) => lookup(members, key),
            _ => None,
        }
    }
}

impl Node {
    /// A text node holding a copy of `s`.
    pub fn text(s: &str) -> (n: Node)
        ensures
            n@ == NodeView::Text(s@),
    {
        Node::Text(s.to_owned())
    }

    /// An integer node for an index or a size.
    pub fn number(value: u32) -> (n: Node)
        ensures
            n@ == NodeView::Int(value as int),
    {
        Node::Int(value as i64)
    }

    /// A list node of the given items, in order.
    pub fn list(items: Vec<Node>) -> (n: Node)
        ensures
            n@ == NodeView::List(list_view(items@)),
    {
        let n = Node::List(items);
        assert(n@->List_0 =~= list_view(items@));
        n
    }

    /// A record node of the given members, in order.
    pub fn record(members: Vec<(String, Node)>) -> (n: Node)
        ensures
            n@ == NodeView::Record(record_view(members@)),
    {
        let n = Node::Record(members);
        assert(n@->Record_0 =~= record_view(members@));
        n
    }

    /// The first member of a record under `key`; `None` if there is none
    /// or if this is no record.
    pub fn get(&self, key: &str) -> (found: Option<&Node>)
        ensures
            match found {
                Some(node) => self@.member(key@) == Some(node@),
                None => self@.member(key@) is None,
            },
    {
        match self {
            Node::Record(members) => {
                let wanted = key.to_owned();
                let ghost all = record_view(members@);
                assert(self@->Record_0 =~= all);
                let mut i: usize = 0;
                assert(all.skip(0) =~= all);
                while i < members.len()
                    invariant
                        i <= members.len(),
                        all == record_view(members@),
                        self@ == NodeView::Record(all),
                        wanted@ == key@,
                        lookup(all, key@) == lookup(all.skip(i as int), key@),
                    decreases members.len() - i,
                {
                    assert(all.skip(i as int).drop_first() =~= all.skip(i + 1));
                    assert(all.skip(i as int)[0] == (members@[i as int].0@, members@[i as int].1@));
                    if members[i].0 == wanted {
                        return Some(&members[i].1);
                    }
                    i += 1;
                }
                None
            },
            _ => None,
        }
    }

    /// A node for a value that may be absent: `Null` stands for `None`.
    pub fn optional(value: Option<Node>) -> (n: Node)
        ensures
            n@ == optional_view(option_view(value)),
    {
        match value {
            Some(v) => v,
            None => Node::Null,
        }
    }
}

/// The value of a node which may not be there.
pub open spec fn option_view(value: Option<Node>) -> Option<NodeView> {
    match value {
        Some(v) => Some(v@),
        None => None,
    }
}

/// The value of a node that may be absent.
pub open spec fn optional_view(value: Option<NodeView>) -> NodeView {
    match value {
        Some(v) => v,
        None => NodeView::Null,
    }
}

/// Appends the member `key: value` to the members of a record.
pub fn put(members: &mut Vec<(String, Node)>, key: &str, value: Node)
    ensures
        record_view(final(members)@) == record_view(old(members)@).push((key@, value@)),
{
    members.push((key.to_owned(), value));
    assert(record_view(members@) =~= record_view(old(members)@).push((key@, value@)));
}

} // verus!

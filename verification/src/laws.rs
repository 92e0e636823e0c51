//! What holds of the encoder on every pool: facts that relate several of
//! its functions, stated over the same spec functions as their contracts.
use vstd::prelude::*;

use crate::definition::{AnyDefinition, Class, Definition, PoolIndex, Type, Visibility};
use crate::encode::Child;
use crate::error::{node_matches, EncodeError};
use crate::flat_index::listed;
use crate::names::pretty_name;
use crate::node::{Node, NodeView};
use crate::pool::PoolView;
use crate::reference::{reference_nodes, ReferenceView};
use crate::schema::{lemma_class_layout, lemma_named_layouts, lemma_type_layouts, Wrapper};
use crate::trail::{lemma_step_leaves_less_room, room};
use crate::types::wrap;

verus! {

impl PoolView {
    /// A class without a base has no ancestors.
    pub proof fn lemma_no_base_no_ancestors(self)
        ensures
            self.bases(PoolIndex::undefined()) == Ok::<Seq<ReferenceView>, EncodeError>(
                Seq::empty(),
            ),
    {
    }

    /// A plain type's document is a type document without an inner one.
    proof fn lemma_plain_type_is_flat(self, name: PoolIndex, type_: Type)
        requires
            type_.inner() is None,
        ensures
            self.plain_type(name, type_) matches Ok(node) ==> node.member("tag"@) == Some(
                NodeView::Text("Type"@),
            ) && node.nesting_depth() == 0,
    {
        if let Ok(node) = self.plain_type(name, type_) {
            lemma_type_layouts(
                self.names[name.index as int],
                match self.find_type(name) {
                    Ok(index) => index.index,
                    Err(_) => 0,
                },
                Wrapper::Ref,
                0,
                NodeView::Null,
            );
        }
    }

    /// The document of a primitive or of a class type carries under `name`
    /// the type's own name as the pool stores it, and that of a class type
    /// carries under `index` the index of the class or enum that declares
    /// that name.
    pub proof fn lemma_plain_type_is_named_as_stored(self, name: PoolIndex, type_: Type)
        requires
            type_.inner() is None,
        ensures
            self.plain_type(name, type_) matches Ok(node) ==> {
                &&& self.has_name(name)
                &&& node.member("name"@) == Some(NodeView::Text(self.names[name.index as int]))
                &&& type_ is Class ==> (self.find_type(name) matches Ok(index) && node.member(
                    "index"@,
                ) == Some(NodeView::Int(index.index as int)))
            },
    {
        if let Ok(node) = self.plain_type(name, type_) {
            lemma_type_layouts(
                self.names[name.index as int],
                match self.find_type(name) {
                    Ok(index) => index.index,
                    Err(_) => 0,
                },
                Wrapper::Ref,
                0,
                NodeView::Null,
            );
        }
    }

    /// The name that the document of `definition` carries: the short form
    /// for a field, the name as the pool stores it for anything else.
    pub open spec fn document_name(self, definition: Definition) -> Seq<char> {
        let stored = self.names[definition.name.index as int];
        if definition.value is Field {
            pretty_name(stored)
        } else {
            stored
        }
    }

    /// The document of a class, a function, an enum, an enum value or a
    /// parameter carries under `name` the name as the pool stores it,
    /// signature suffix included; the document of a field carries the
    /// short form.
    pub proof fn lemma_document_carries_name(self, definition: Definition)
        requires
            definition.value is Class || definition.value is Function || definition.value is Enum
                || definition.value is EnumValue || definition.value is Parameter
                || definition.value is Field,
        ensures
            self.encoded(definition) matches Ok(node) ==> self.has_name(definition.name)
                && node.member("name"@) == Some(NodeView::Text(self.document_name(definition))),
    {
        if let Ok(node) = self.encoded(definition) {
            let name = self.document_name(definition);
            match definition.value {
                AnyDefinition::Class(class) => {
                    lemma_named_layouts(
                        name,
                        class.visibility,
                        (
                            reference_nodes(self.bases(class.base)->Ok_0),
                            self.children(class.fields@, Child::Field)->Ok_0,
                            self.methods(class.functions@)->Ok_0,
                        ),
                        (None, None),
                        (class.flags, arbitrary(), arbitrary(), arbitrary()),
                        0,
                        NodeView::Null,
                    );
                },
                AnyDefinition::Function(function) => {
                    lemma_named_layouts(
                        name,
                        function.visibility,
                        (
                            self.children(function.parameters@, Child::Parameter)->Ok_0,
                            Seq::empty(),
                            Seq::empty(),
                        ),
                        (
                            self.return_type(function.return_type)->Ok_0,
                            self.source(
                                match function.source {
                                    Some(source) => Some(source.file),
                                    None => None,
                                },
                            )->Ok_0,
                        ),
                        (arbitrary(), function.flags, arbitrary(), arbitrary()),
                        0,
                        NodeView::Null,
                    );
                },
                AnyDefinition::Enum(enum_) => {
                    lemma_named_layouts(
                        name,
                        Visibility::Public,
                        (
                            self.children(enum_.members@, Child::Member)->Ok_0,
                            Seq::empty(),
                            Seq::empty(),
                        ),
                        (None, None),
                        (arbitrary(), arbitrary(), arbitrary(), arbitrary()),
                        0,
                        NodeView::Null,
                    );
                },
                AnyDefinition::EnumValue(value) => {
                    lemma_named_layouts(
                        name,
                        Visibility::Public,
                        (Seq::empty(), Seq::empty(), Seq::empty()),
                        (None, None),
                        (arbitrary(), arbitrary(), arbitrary(), arbitrary()),
                        value,
                        NodeView::Null,
                    );
                },
                AnyDefinition::Parameter(parameter) => {
                    lemma_named_layouts(
                        name,
                        Visibility::Public,
                        (Seq::empty(), Seq::empty(), Seq::empty()),
                        (None, None),
                        (arbitrary(), arbitrary(), parameter.flags, arbitrary()),
                        0,
                        self.type_at(parameter.type_)->Ok_0,
                    );
                },
                AnyDefinition::Field(field) => {
                    lemma_named_layouts(
                        name,
                        Visibility::Public,
                        (Seq::empty(), Seq::empty(), Seq::empty()),
                        (None, None),
                        (arbitrary(), arbitrary(), arbitrary(), field.flags),
                        0,
                        self.type_at(field.type_)->Ok_0,
                    );
                },
                _ => {},
            }
        }
    }

    /// A wrapper's document is a type document one deeper than the
    /// document it holds under `inner`.
    proof fn lemma_wrap_is_one_deeper(type_: Type, inner: NodeView)
        requires
            type_.inner() is Some,
        ensures
            wrap(type_, inner).member("tag"@) == Some(NodeView::Text("Type"@)),
            wrap(type_, inner).member("inner"@) == Some(inner),
            wrap(type_, inner).nesting_depth() == 1 + inner.nesting_depth(),
    {
        let size = match type_ {
            Type::StaticArray(_, size) => size,
            _ => 0,
        };
        lemma_type_layouts(Seq::empty(), 0, Wrapper::Ref, size, inner);
        lemma_type_layouts(Seq::empty(), 0, Wrapper::WeakRef, size, inner);
        lemma_type_layouts(Seq::empty(), 0, Wrapper::ScriptRef, size, inner);
        lemma_type_layouts(Seq::empty(), 0, Wrapper::Array, size, inner);
    }

    /// The document of the type at an index says under `tag` that it is
    /// a type, and nests as deep as the type's wrappers do.
    pub proof fn lemma_type_at_is_a_type(self, index: PoolIndex, trail: Seq<PoolIndex>)
        ensures
            self.type_at_from(index, trail) matches Ok(node) ==> node.member("tag"@) == Some(
                NodeView::Text("Type"@),
            ) && node.nesting_depth() == self.wrappers_at_from(index, trail),
        decreases room(self.definitions.len(), trail),
    {
        if !trail.contains(index) {
            if let Ok(definition) = self.definition(index) {
                if let AnyDefinition::Type(type_) = definition.value {
                    match type_.inner() {
                        None => {
                            self.lemma_plain_type_is_flat(definition.name, type_);
                        },
                        Some(inner) => {
                            lemma_step_leaves_less_room(self.definitions.len(), trail, index);
                            self.lemma_type_at_is_a_type(inner, trail.push(index));
                            if let Ok(node) = self.type_at_from(inner, trail.push(index)) {
                                Self::lemma_wrap_is_one_deeper(type_, node);
                            }
                        },
                    }
                }
            }
        }
    }

    /// In the document of a wrapper type, whichever of the wrappers it
    /// is, the member `inner` is a type document, and the document nests
    /// exactly as deep as the type's wrappers do.
    pub proof fn lemma_inner_is_a_type(self, name: PoolIndex, type_: Type)
        requires
            type_.inner() is Some,
        ensures
            self.type_node(name, type_) matches Ok(node) ==> {
                &&& node.member("tag"@) == Some(NodeView::Text("Type"@))
                &&& node.member("inner"@) matches Some(inner) && inner.member("tag"@) == Some(
                    NodeView::Text("Type"@),
                )
                &&& node.nesting_depth() == self.wrappers(type_)
            },
    {
        let inner = type_.inner()->Some_0;
        self.lemma_type_at_is_a_type(inner, Seq::empty());
        if let Ok(node) = self.type_at(inner) {
            Self::lemma_wrap_is_one_deeper(type_, node);
        }
    }

    /// Whether `index` refers to a class whose name resolves.
    pub open spec fn is_named_class(self, index: PoolIndex) -> bool {
        &&& self.has_definition(index)
        &&& self.definitions[index.index as int].value is Class
        &&& self.has_name(self.definitions[index.index as int].name)
    }

    /// The direct base of the class at `index`.
    pub open spec fn base_of(self, index: PoolIndex) -> PoolIndex {
        self.definitions[index.index as int].value->Class_0.base
    }

    /// Whether `chain` lists a class's ancestors from its direct base up
    /// to a class without a base.
    pub open spec fn is_base_chain(self, chain: Seq<PoolIndex>) -> bool {
        &&& forall|i: int| 0 <= i < chain.len() ==> self.is_named_class(#[trigger] chain[i])
        &&& forall|i: int|
            0 <= i < chain.len() - 1 ==> self.base_of(#[trigger] chain[i]) == chain[i + 1]
        &&& chain.len() > 0 ==> self.base_of(chain.last()).is_undefined()
    }

    /// The reference that a base chain holds for the class at `index`.
    pub open spec fn ancestor(self, index: PoolIndex) -> ReferenceView {
        ReferenceView {
            name: pretty_name(self.names[self.definitions[index.index as int].name.index as int]),
            index,
            base: None,
        }
    }

    /// A chain that ends holds no class twice: were two of its positions
    /// to hold the same class, so would the positions after them, up to
    /// the last one, whose class has no base.
    proof fn lemma_base_chain_is_straight(self, chain: Seq<PoolIndex>, i: int, j: int)
        requires
            self.is_base_chain(chain),
            0 <= i < j < chain.len(),
        ensures
            chain[i] != chain[j],
        decreases chain.len() - j,
    {
        if chain[i] == chain[j] {
            if j == chain.len() - 1 {
                assert(self.base_of(chain[i]) == chain[i + 1]);
                assert(self.is_named_class(chain[i + 1]));
            } else {
                assert(self.base_of(chain[i]) == chain[i + 1]);
                assert(self.base_of(chain[j]) == chain[j + 1]);
                self.lemma_base_chain_is_straight(chain, i + 1, j + 1);
            }
        }
    }

    /// The walk that has passed the first `from` classes of a chain goes
    /// on through the others.
    proof fn lemma_bases_from_follow_chain(self, chain: Seq<PoolIndex>, from: int)
        requires
            self.is_base_chain(chain),
            0 <= from <= chain.len(),
        ensures
            self.bases_from(
                if from < chain.len() {
                    chain[from]
                } else {
                    PoolIndex::undefined()
                },
                chain.take(from),
            ) == Ok::<Seq<ReferenceView>, EncodeError>(
                chain.skip(from).map_values(|index: PoolIndex| self.ancestor(index)),
            ),
        decreases chain.len() - from,
    {
        let expected = chain.skip(from).map_values(|index: PoolIndex| self.ancestor(index));
        if from == chain.len() {
            assert(expected =~= Seq::empty());
        } else {
            let index = chain[from];
            let trail = chain.take(from);
            assert(self.is_named_class(index));
            if trail.contains(index) {
                let k = choose|k: int| 0 <= k < trail.len() && trail[k] == index;
                self.lemma_base_chain_is_straight(chain, k, from);
            }
            self.lemma_bases_from_follow_chain(chain, from + 1);
            assert(trail.push(index) =~= chain.take(from + 1));
            let next = if from + 1 < chain.len() {
                chain[from + 1]
            } else {
                PoolIndex::undefined()
            };
            assert(self.base_of(index) == next) by {
                if from + 1 == chain.len() {
                    assert(index == chain.last());
                }
            }
            let rest = chain.skip(from + 1).map_values(|index: PoolIndex| self.ancestor(index));
            assert(expected =~= seq![self.ancestor(index)] + rest);
        }
    }

    /// For a class whose ancestors are `chain`, from its direct base up to
    /// a class without a base, the base chain holds one reference for each
    /// of them, in that order, with its short name and its index.
    pub proof fn lemma_bases_follow_chain(self, chain: Seq<PoolIndex>)
        requires
            self.is_base_chain(chain),
        ensures
            self.bases(
                if chain.len() > 0 {
                    chain[0]
                } else {
                    PoolIndex::undefined()
                },
            ) == Ok::<Seq<ReferenceView>, EncodeError>(
                chain.map_values(|index: PoolIndex| self.ancestor(index)),
            ),
    {
        self.lemma_bases_from_follow_chain(chain, 0);
        assert(chain.take(0) =~= Seq::empty());
        assert(chain.skip(0) =~= chain);
    }

    /// The document of a class holds under `bases` the documents of its
    /// ancestors, nearest first: none for a class without a base.
    pub proof fn lemma_class_document_holds_bases(self, name: PoolIndex, class: Class)
        ensures
            self.encoded_class(name, class) matches Ok(node) ==> {
                &&& self.bases(class.base) matches Ok(bases) && node.member("bases"@) == Some(
                    NodeView::List(reference_nodes(bases)),
                )
                &&& class.base.is_undefined() ==> node.member("bases"@) == Some(
                    NodeView::List(Seq::empty()),
                )
            },
    {
        if let Ok(node) = self.encoded_class(name, class) {
            let bases = self.bases(class.base)->Ok_0;
            lemma_class_layout(
                self.name(name)->Ok_0,
                class.visibility,
                reference_nodes(bases),
                self.children(class.fields@, Child::Field)->Ok_0,
                self.methods(class.functions@)->Ok_0,
                class.flags,
            );
            if class.base.is_undefined() {
                assert(reference_nodes(bases) =~= Seq::empty());
            }
        }
    }

    /// Two classes that are each other's base have no base chain: the walk
    /// from either stops when it comes back to it.
    pub proof fn lemma_mutual_bases_are_rejected(self, x: PoolIndex, y: PoolIndex)
        requires
            self.is_named_class(x),
            self.is_named_class(y),
            self.base_of(x) == y,
            self.base_of(y) == x,
        ensures
            self.bases(y) == Err::<Seq<ReferenceView>, EncodeError>(
                EncodeError::CyclicBaseChain { index: y },
            ),
    {
        let first: Seq<PoolIndex> = Seq::empty().push(y);
        assert(first[0] == y);
        if x != y {
            assert(!first.contains(x));
            let second = first.push(x);
            assert(second[0] == y);
            assert(self.bases_from(y, second) == Err::<Seq<ReferenceView>, EncodeError>(
                EncodeError::CyclicBaseChain { index: y },
            ));
            assert(self.bases_from(x, first) == Err::<Seq<ReferenceView>, EncodeError>(
                EncodeError::CyclicBaseChain { index: y },
            ));
        }
    }

    /// Whether `entries` holds exactly one entry for each listed
    /// definition before position `end`, and no other: its entries are in
    /// the order of the pool, each is the entry of a listed definition,
    /// and each listed definition has its entry.
    pub open spec fn lists_each_root_once(self, entries: Seq<ReferenceView>, end: int) -> bool {
        &&& forall|k: int|
            0 <= k < entries.len() ==> {
                let at = (#[trigger] entries[k]).index.index as int;
                &&& 1 <= at < end
                &&& listed(self.definitions[at])
                &&& self.entry(at) == Ok::<ReferenceView, EncodeError>(entries[k])
            }
        &&& forall|j: int, k: int|
            0 <= j < k < entries.len() ==> (#[trigger] entries[j]).index.index < (
            #[trigger] entries[k]).index.index
        &&& forall|at: int|
            1 <= at < end && listed(#[trigger] self.definitions[at]) ==> exists|k: int|
                0 <= k < entries.len() && (#[trigger] entries[k]).index.index == at
    }

    /// Whether some listed definition before position `end` has a name
    /// that does not resolve.
    pub open spec fn has_unnamed_root(self, end: int) -> bool {
        exists|at: int|
            1 <= at < end && listed(#[trigger] self.definitions[at]) && !self.has_name(
                self.definitions[at].name,
            )
    }

    /// The index of the definitions before `end` lists each root among
    /// them once, and fails only on the name of one of them.
    proof fn lemma_index_upto(self, end: int)
        requires
            self.well_formed(),
            end <= self.definitions.len(),
        ensures
            match self.index_upto(end) {
                Ok(entries) => self.lists_each_root_once(entries, end) && !self.has_unnamed_root(
                    end,
                ),
                Err(_) => self.has_unnamed_root(end),
            },
        decreases end,
    {
        if end > 1 {
            self.lemma_index_upto(end - 1);
            let at = end - 1;
            match self.index_upto(end - 1) {
                Err(_) => {
                    let witness = choose|w: int|
                        1 <= w < end - 1 && listed(#[trigger] self.definitions[w])
                            && !self.has_name(self.definitions[w].name);
                    assert(1 <= witness < end && listed(self.definitions[witness]));
                },
                Ok(before) => {
                    if listed(self.definitions[at]) {
                        match self.entry(at) {
                            Err(_) => {
                                assert(1 <= at < end && listed(self.definitions[at]));
                            },
                            Ok(entry) => {
                                let entries = before.push(entry);
                                assert(entry.index.index == at);
                                assert forall|k: int| 0 <= k < entries.len() implies {
                                    let a = (#[trigger] entries[k]).index.index as int;
                                    &&& 1 <= a < end
                                    &&& listed(self.definitions[a])
                                    &&& self.entry(a) == Ok::<ReferenceView, EncodeError>(
                                        entries[k],
                                    )
                                } by {
                                    if k < before.len() {
                                        assert(entries[k] == before[k]);
                                    }
                                }
                                assert forall|j: int, k: int|
                                    0 <= j < k < entries.len() implies (
                                #[trigger] entries[j]).index.index < (
                                #[trigger] entries[k]).index.index by {
                                    assert(entries[j] == before[j]);
                                    if k < before.len() {
                                        assert(entries[k] == before[k]);
                                    }
                                }
                                assert forall|a: int|
                                    1 <= a < end && listed(
                                        #[trigger] self.definitions[a],
                                    ) implies exists|k: int|
                                    0 <= k < entries.len() && (
                                    #[trigger] entries[k]).index.index == a by {
                                    if a < at {
                                        let k = choose|k: int|
                                            0 <= k < before.len() && (
                                            #[trigger] before[k]).index.index == a;
                                        assert(entries[k] == before[k]);
                                    } else {
                                        assert(entries[before.len() as int] == entry);
                                    }
                                }
                                assert(!self.has_unnamed_root(end)) by {
                                    if self.has_unnamed_root(end) {
                                        let w = choose|w: int|
                                            1 <= w < end && listed(#[trigger] self.definitions[w])
                                                && !self.has_name(self.definitions[w].name);
                                        if w < at {
                                            assert(self.has_unnamed_root(end - 1));
                                        }
                                    }
                                }
                            },
                        }
                    } else {
                        assert(self.lists_each_root_once(before, end));
                        assert(!self.has_unnamed_root(end)) by {
                            if self.has_unnamed_root(end) {
                                let w = choose|w: int|
                                    1 <= w < end && listed(#[trigger] self.definitions[w])
                                        && !self.has_name(self.definitions[w].name);
                                assert(self.has_unnamed_root(end - 1));
                            }
                        }
                    }
                },
            }
        } else {
            assert(self.index_upto(end) == Ok::<Seq<ReferenceView>, EncodeError>(Seq::empty()));
        }
    }

    /// The flat index holds exactly one entry for each root class,
    /// function and enum of the pool, in the order of the pool, and none
    /// for any other definition. It fails only where the name of such a
    /// root does not resolve.
    pub proof fn lemma_index_lists_each_root_once(self)
        requires
            self.well_formed(),
        ensures
            match self.index() {
                Ok(entries) => self.lists_each_root_once(entries, self.definitions.len() as int)
                    && !self.has_unnamed_root(self.definitions.len() as int),
                Err(_) => self.has_unnamed_root(self.definitions.len() as int),
            },
    {
        self.lemma_index_upto(self.definitions.len() as int);
    }

    /// The entries for the definitions before `end` stand for the roots
    /// among them.
    proof fn lemma_index_upto_follows_roots(self, end: int)
        ensures
            self.index_upto(end) matches Ok(entries) ==> entries.map_values(
                |entry: ReferenceView| entry.index,
            ) == self.roots_upto(end),
        decreases end,
    {
        if end > 1 {
            self.lemma_index_upto_follows_roots(end - 1);
            if let Ok(entries) = self.index_upto(end) {
                let before = self.index_upto(end - 1)->Ok_0;
                assert(entries.map_values(|entry: ReferenceView| entry.index)
                    =~= self.roots_upto(end)) by {
                    if listed(self.definitions[end - 1]) {
                        assert(entries == before.push(self.entry(end - 1)->Ok_0));
                    }
                }
            }
        } else {
            assert(Seq::<ReferenceView>::empty().map_values(|entry: ReferenceView| entry.index)
                =~= Seq::<PoolIndex>::empty());
        }
    }

    /// The entries of the flat index stand for the roots that get a
    /// document, one for one and in the same order.
    pub proof fn lemma_index_follows_roots(self)
        ensures
            self.index() matches Ok(entries) ==> entries.map_values(
                |entry: ReferenceView| entry.index,
            ) == self.roots(),
    {
        self.lemma_index_upto_follows_roots(self.definitions.len() as int);
    }

    /// Encoding is a function of the pool and the definition: two runs on
    /// the same input end alike, with documents of the same value or with
    /// the same failure.
    pub proof fn lemma_encoding_is_repeatable(
        self,
        definition: Definition,
        first: Result<Node, EncodeError>,
        second: Result<Node, EncodeError>,
    )
        requires
            node_matches(first, self.encoded(definition)),
            node_matches(second, self.encoded(definition)),
        ensures
            match (first, second) {
                (Ok(a), Ok(b)) => a@ == b@,
                (Err(a), Err(b)) => a == b,
                _ => false,
            },
    {
    }
}

} // verus!

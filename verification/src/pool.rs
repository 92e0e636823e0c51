//! The constant pool: a table of definitions and a table of names, both
//! addressed by position.
use vstd::prelude::*;

use crate::definition::{AnyDefinition, Definition, PoolIndex, Type};
use crate::error::{EncodeError, Unresolved};

verus! {

/// The largest number of entries that either table may hold, so that every
/// position is an index.
pub const MAX_ENTRIES: usize = 0xffff_ffff;

/// An append-only table of definitions and a table of names.
///
/// Position 0 of the definitions belongs to the undefined index: whatever
/// stands there is never handed out.
pub struct ConstantPool {
    names: Vec<String>,
    definitions: Vec<Definition>,
}

/// The mathematical value of a [`ConstantPool`].
pub struct PoolView {
    pub names: Seq<Seq<char>>,
    pub definitions: Seq<Definition>,
}

impl PoolView {
    /// Every position of both tables fits in an index.
    pub open spec fn well_formed(self) -> bool {
        &&& self.names.len() <= MAX_ENTRIES
        &&& self.definitions.len() <= MAX_ENTRIES
    }

    /// Whether `index` refers to a definition of this pool.
    pub open spec fn has_definition(self, index: PoolIndex) -> bool {
        0 < index.index < self.definitions.len()
    }

    /// Whether `index` refers to a name of this pool.
    pub open spec fn has_name(self, index: PoolIndex) -> bool {
        index.index < self.names.len()
    }

    /// The definition that `index` refers to.
    pub open spec fn definition(self, index: PoolIndex) -> Result<Definition, EncodeError> {
        if self.has_definition(index) {
            Ok(self.definitions[index.index as int])
        } else {
            Err(EncodeError::Resolution(Unresolved::Definition(index)))
        }
    }

    /// The name that `index` refers to.
    pub open spec fn name(self, index: PoolIndex) -> Result<Seq<char>, EncodeError> {
        if self.has_name(index) {
            Ok(self.names[index.index as int])
        } else {
            Err(EncodeError::Resolution(Unresolved::Name(index)))
        }
    }
}

impl View for ConstantPool {
    type V = PoolView;

    closed spec fn view(&self) -> PoolView {
        PoolView {
            names: self.names@.map_values(|s: String| s@),
            definitions: self.definitions@,
        }
    }
}

impl ConstantPool {
    #[verifier::type_invariant]
    spec fn fits(&self) -> bool {
        &&& self.names.len() <= MAX_ENTRIES
        &&& self.definitions.len() <= MAX_ENTRIES
    }

    /// A pool with no names and no definitions but the reserved one.
    pub fn new() -> (pool: ConstantPool)
        ensures
            pool@.names.len() == 0,
            pool@.definitions.len() == 1,
            pool@.well_formed(),
    {
        let mut definitions: Vec<Definition> = Vec::new();
        definitions.push(
            Definition {
                name: PoolIndex::undefined(),
                parent: PoolIndex::undefined(),
                value: AnyDefinition::Type(Type::Prim),
            },
        );
        ConstantPool { names: Vec::new(), definitions }
    }

    /// A pool over the two tables as given, or `None` if one of them has
    /// more entries than there are indices.
    pub fn from_parts(names: Vec<String>, definitions: Vec<Definition>) -> (r: Option<
        ConstantPool,
    >)
        ensures
            r is Some <==> names.len() <= MAX_ENTRIES && definitions.len() <= MAX_ENTRIES,
            r matches Some(pool) ==> pool@.names == names@.map_values(|s: String| s@)
                && pool@.definitions == definitions@ && pool@.well_formed(),
    {
        if names.len() <= MAX_ENTRIES && definitions.len() <= MAX_ENTRIES {
            Some(ConstantPool { names, definitions })
        } else {
            None
        }
    }

    /// Appends a name and returns its index, or leaves the pool unchanged
    /// and returns `None` if the table of names is full.
    pub fn add_name(&mut self, name: String) -> (r: Option<PoolIndex>)
        ensures
            final(self)@.well_formed(),
            final(self)@.definitions == old(self)@.definitions,
            old(self)@.names.len() < MAX_ENTRIES ==> r == Some(
                PoolIndex { index: old(self)@.names.len() as u32 },
            ) && final(self)@.names == old(self)@.names.push(name@),
            old(self)@.names.len() >= MAX_ENTRIES ==> r is None && final(self)@ == old(self)@,
    {
        proof {
            use_type_invariant(&*self);
        }
        let n = self.names.len();
        if n < MAX_ENTRIES {
            // The tables are taken out and put back as a whole, so that the
            // pool is well formed at every step.
            let mut taken = ConstantPool { names: Vec::new(), definitions: Vec::new() };
            core::mem::swap(self, &mut taken);
            let ConstantPool { mut names, definitions } = taken;
            names.push(name);
            *self = ConstantPool { names, definitions };
            assert(self@.names =~= old(self)@.names.push(name@));
            Some(PoolIndex { index: n as u32 })
        } else {
            None
        }
    }

    /// Appends a definition and returns its index, or leaves the pool
    /// unchanged and returns `None` if the table of definitions is full.
    pub fn add_definition(&mut self, definition: Definition) -> (r: Option<PoolIndex>)
        ensures
            final(self)@.well_formed(),
            final(self)@.names == old(self)@.names,
            old(self)@.definitions.len() < MAX_ENTRIES ==> r == Some(
                PoolIndex { index: old(self)@.definitions.len() as u32 },
            ) && final(self)@.definitions == old(self)@.definitions.push(definition),
            old(self)@.definitions.len() >= MAX_ENTRIES ==> r is None && final(self)@ == old(
                self,
            )@,
    {
        proof {
            use_type_invariant(&*self);
        }
        let n = self.definitions.len();
        if n < MAX_ENTRIES {
            let mut taken = ConstantPool { names: Vec::new(), definitions: Vec::new() };
            core::mem::swap(self, &mut taken);
            let ConstantPool { names, mut definitions } = taken;
            definitions.push(definition);
            *self = ConstantPool { names, definitions };
            Some(PoolIndex { index: n as u32 })
        } else {
            None
        }
    }

    /// The number of positions in the table of definitions, the reserved
    /// one included.
    pub fn definition_count(&self) -> (n: u32)
        ensures
            n == self@.definitions.len(),
            self@.well_formed(),
    {
        proof {
            use_type_invariant(self);
        }
        self.definitions.len() as u32
    }

    /// Resolves a definition index.
    pub fn definition(&self, index: PoolIndex) -> (r: Result<&Definition, EncodeError>)
        ensures
            r matches Ok(d) ==> self@.definition(index) == Ok::<Definition, EncodeError>(*d),
            r matches Err(e) ==> self@.definition(index) == Err::<Definition, EncodeError>(e),
    {
        let i = index.index as usize;
        if 0 < i && i < self.definitions.len() {
            Ok(&self.definitions[i])
        } else {
            Err(EncodeError::Resolution(Unresolved::Definition(index)))
        }
    }

    /// Resolves a name index.
    pub fn name(&self, index: PoolIndex) -> (r: Result<&str, EncodeError>)
        ensures
            r matches Ok(s) ==> self@.name(index) == Ok::<Seq<char>, EncodeError>(s@),
            r matches Err(e) ==> self@.name(index) == Err::<Seq<char>, EncodeError>(e),
    {
        let i = index.index as usize;
        if i < self.names.len() {
            Ok(self.names[i].as_str())
        } else {
            Err(EncodeError::Resolution(Unresolved::Name(index)))
        }
    }
}

} // verus!

//! The definitions that a pool holds, as plain data.
use vstd::prelude::*;

verus! {

/// A reference into the pool: a position in its table of definitions or in
/// its table of names. Position 0 is reserved and means "no reference".
#[derive(Clone, Copy, Debug, PartialEq, Eq, Hash, Structural)]
pub struct PoolIndex {
    pub index: u32,
}

impl PoolIndex {
    /// The reserved index that refers to nothing.
    pub open spec fn undefined_spec() -> PoolIndex {
        PoolIndex { index: 0 }
    }

    pub open spec fn is_undefined_spec(self) -> bool {
        self.index == 0
    }

    pub fn new(index: u32) -> (r: PoolIndex)
        ensures
            r.index == index,
    {
        PoolIndex { index }
    }

    #[verifier::when_used_as_spec(undefined_spec)]
    pub fn undefined() -> (r: PoolIndex)
        ensures
            r == PoolIndex::undefined_spec(),
            r.is_undefined(),
    {
        PoolIndex { index: 0 }
    }

    #[verifier::when_used_as_spec(is_undefined_spec)]
    pub fn is_undefined(self) -> (r: bool)
        ensures
            r == self.is_undefined_spec(),
    {
        self.index == 0
    }
}

/// Who may see a class or a function.
#[derive(Clone, Copy, Debug, PartialEq, Eq, Structural)]
pub enum Visibility {
    Public,
    Protected,
    Private,
}

#[derive(Clone, Copy, Debug, PartialEq, Eq, Structural)]
pub struct ClassFlags {
    pub is_native: bool,
    pub is_abstract: bool,
    pub is_final: bool,
    pub is_struct: bool,
}

#[derive(Clone, Copy, Debug, PartialEq, Eq, Structural)]
pub struct FunctionFlags {
    pub is_static: bool,
    pub is_final: bool,
    pub is_exec: bool,
    pub is_callback: bool,
    pub is_native: bool,
}

#[derive(Clone, Copy, Debug, PartialEq, Eq, Structural)]
pub struct FieldFlags {
    pub is_native: bool,
    pub is_editable: bool,
    pub is_inline: bool,
    pub is_const: bool,
    pub is_replicated: bool,
    pub is_persistent: bool,
}

#[derive(Clone, Copy, Debug, PartialEq, Eq, Structural)]
pub struct ParameterFlags {
    pub is_out: bool,
    pub is_optional: bool,
}

/// A type descriptor. A wrapper holds the index of the type it wraps.
#[derive(Clone, Copy, Debug, PartialEq, Eq, Structural)]
pub enum Type {
    Prim,
    Class,
    Ref(PoolIndex),
    WeakRef(PoolIndex),
    ScriptRef(PoolIndex),
    Array(PoolIndex),
    StaticArray(PoolIndex, u32),
}

impl Type {
    /// The index of the wrapped type, if this is a wrapper.
    pub open spec fn inner_spec(self) -> Option<PoolIndex> {
        match self {
            Type::Prim => None,
            Type::Class => None,
            Type::Ref(inner) => Some(inner),
            Type::WeakRef(inner) => Some(inner),
            Type::ScriptRef(inner) => Some(inner),
            Type::Array(inner) => Some(inner),
            Type::StaticArray(inner, _) => Some(inner),
        }
    }

    #[verifier::when_used_as_spec(inner_spec)]
    pub fn inner(self) -> (r: Option<PoolIndex>)
        ensures
            r == self.inner_spec(),
    {
        match self {
            Type::Prim => None,
            Type::Class => None,
            Type::Ref(inner) => Some(inner),
            Type::WeakRef(inner) => Some(inner),
            Type::ScriptRef(inner) => Some(inner),
            Type::Array(inner) => Some(inner),
            Type::StaticArray(inner, _) => Some(inner),
        }
    }
}

/// A class: single inheritance, fields and methods in declaration order.
#[derive(Debug, PartialEq, Eq)]
pub struct Class {
    pub visibility: Visibility,
    pub flags: ClassFlags,
    /// The direct base class, or the undefined index.
    pub base: PoolIndex,
    pub functions: Vec<PoolIndex>,
    pub fields: Vec<PoolIndex>,
}

/// Where a function was declared.
#[derive(Clone, Copy, Debug, PartialEq, Eq, Structural)]
pub struct SourceReference {
    /// The index of a source file definition.
    pub file: PoolIndex,
    pub line: u32,
}

#[derive(Debug, PartialEq, Eq)]
pub struct Function {
    pub visibility: Visibility,
    pub flags: FunctionFlags,
    /// `None` for a function that returns nothing.
    pub return_type: Option<PoolIndex>,
    pub parameters: Vec<PoolIndex>,
    pub source: Option<SourceReference>,
}

#[derive(Clone, Copy, Debug, PartialEq, Eq, Structural)]
pub struct Field {
    pub type_: PoolIndex,
    pub flags: FieldFlags,
}

#[derive(Clone, Copy, Debug, PartialEq, Eq, Structural)]
pub struct Parameter {
    pub type_: PoolIndex,
    pub flags: ParameterFlags,
}

#[derive(Clone, Copy, Debug, PartialEq, Eq, Structural)]
pub struct Local {
    pub type_: PoolIndex,
}

#[derive(Debug, PartialEq, Eq)]
pub struct Enum {
    pub members: Vec<PoolIndex>,
}

#[derive(Debug, PartialEq, Eq)]
pub struct SourceFile {
    pub path: String,
}

/// What a definition is.
#[derive(Debug, PartialEq, Eq)]
pub enum AnyDefinition {
    Type(Type),
    Class(Class),
    EnumValue(i64),
    Enum(Enum),
    Function(Function),
    Parameter(Parameter),
    Local(Local),
    Field(Field),
    SourceFile(SourceFile),
}

/// One entry of the pool.
#[derive(Debug, PartialEq, Eq)]
pub struct Definition {
    /// Index of the definition's name in the table of names.
    pub name: PoolIndex,
    /// Index of the enclosing definition; undefined for a root.
    pub parent: PoolIndex,
    pub value: AnyDefinition,
}

impl Definition {
    /// A root is a definition that is not nested in another.
    pub open spec fn is_root_spec(&self) -> bool {
        self.parent.is_undefined()
    }

    #[verifier::when_used_as_spec(is_root_spec)]
    pub fn is_root(&self) -> (r: bool)
        ensures
            r == self.is_root_spec(),
    {
        self.parent.is_undefined()
    }
}

} // verus!

//! Encoding of an index-addressed pool of program definitions (classes,
//! functions, fields, enums, parameters, types, source files) as
//! self-describing document trees, together with a flat index of the
//! top-level definitions.
//!
//! Every cross-reference in the pool is an integer index; encoding a
//! definition resolves each index it meets and expands what it finds, so
//! that the resulting document stands on its own.
pub mod bases;
pub mod definition;
pub mod encode;
pub mod error;
pub mod flat_index;
pub mod laws;
pub mod names;
pub mod node;
pub mod pool;
pub mod reference;
pub mod roots;
pub mod schema;
pub mod trail;
pub mod types;

pub use crate::bases::collect_bases;
pub use crate::definition::{AnyDefinition, Definition, PoolIndex};
pub use crate::encode::encode_definition;
pub use crate::error::EncodeError;
pub use crate::flat_index::build_index;
pub use crate::node::Node;
pub use crate::pool::ConstantPool;
pub use crate::reference::Reference;
pub use crate::roots::encode_roots;

//! Runtime type-identity tokens.
//!
//! A [`token::TypeInfo`] is a small, copyable value that identifies the
//! runtime type it was constructed from: it carries the type's canonical
//! identifier (backing equality, ordering and hashing) and a human-readable
//! type name (for diagnostics only).

mod laws;
mod token;
mod type_map;

pub use token::AnyExt;
pub use token::TypeInfo;
pub use type_map::TypeMap;

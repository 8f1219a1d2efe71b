//! Predicates and transformations on the textual form and the components of
//! paths: substring containment, component membership, prefix and suffix
//! tests, extension stripping and conditional prefix removal.

pub mod ext;
pub mod path;
pub mod text;

pub use ext::PathExt;

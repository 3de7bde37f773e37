//! The services: schema rules over the schema repository, and the tree over the entry repository.

pub mod conformance;
pub mod entry;
pub mod linkage;
pub mod naming;
pub mod schema;

//! The directory's data: schema definitions, distinguished names and entries.

pub mod dn;
pub mod entry;
pub mod schema;

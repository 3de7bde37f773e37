//! An in-memory LDAP directory: schema-checked entries arranged in a tree,
//! distinguished-name parsing and resolution, and BER length framing.

pub mod text;
pub mod sets;
pub mod entity;
pub mod octets;
pub mod errors;
pub mod db;
pub mod service;
pub mod commands;
pub mod framing;
pub mod controller;
pub mod bootstrap;

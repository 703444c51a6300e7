//! A schema diff engine for relational databases.
//!
//! Given two structural snapshots of a database schema (tables, columns,
//! indexes, foreign keys, enumerated types) and a set of engine capabilities,
//! the library computes a deterministic, dependency-ordered sequence of
//! migration steps that transforms the first snapshot into the second.

pub mod column;
pub mod database;
pub mod datamodel;
pub mod differ;
pub mod enums;
pub mod flavour;
pub mod laws;
pub mod matching;
pub mod pair;
pub mod schema;
pub mod steps;
pub mod table;

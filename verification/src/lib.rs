//! Flattens tree-shaped documents into flat, relational tables.
//!
//! A document is a [`value::Value`] tree; a declarative mapping
//! ([`config::Config`]) says, per field, whether a value becomes a column or a
//! nested relation.  The engine ([`flatten`], driven per document by
//! [`parser::Parser`]) walks the tree and accumulates, per table, an ordered
//! column list and a sequence of rows ([`table::Registry`]), linking child
//! rows to their parents through synthetic columns.  What the engine computes
//! is defined by [`flatten::flatten_spec`] and proved in [`laws`] to only
//! ever accrete: tables keep their names, headers stay stable, and appended
//! rows are never changed.

pub mod config;
pub mod flatten;
pub mod json;
pub mod laws;
pub mod parser;
pub mod strings;
pub mod table;
pub mod value;

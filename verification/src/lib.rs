//! Derivation of C-style string constants from the variants of a sum type.
//!
//! The pipeline extracts a schema from a type definition, validates the
//! per-variant configuration attributes, resolves each variant to a
//! NUL-terminated byte name, and emits the forward (variant to name) and
//! reverse (name to variant) mappings as lookup tables.

pub mod attrs;
pub mod emit;
pub mod extract;
pub mod resolve;
pub mod schema;

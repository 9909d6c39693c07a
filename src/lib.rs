//! Staged, type-checked record builders: from the schema of a record type,
//! derive the declarations of a builder whose states track which fields have
//! been supplied, and run those declarations as a checked state machine.

pub mod attrs;
pub mod schema;
pub mod markers;
pub mod decls;
pub mod machine;
pub mod laws;

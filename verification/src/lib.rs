//! Transaction actions on Iceberg table snapshots and schemas.

pub mod append;
pub mod commit_guarantees;
pub mod error;
pub mod guarantees;
pub mod laws;
pub mod manifest;
pub mod rewrite;
pub mod schema;
pub mod snapshot;
pub mod table;
pub mod transaction;
pub mod update_schema;
pub mod walk;
pub mod walk_guarantees;
pub mod walk_laws;

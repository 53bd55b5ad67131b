//! Core logic of a personal-collection manager: vaults with custom field
//! schemas, schema-driven metadata validation and cleanup, full-text search
//! query construction with pagination, and cross-vault relation resolution.
//!
//! Every operation is a function over its inputs plus the data the
//! persistence collaborator handed back; the surrounding application
//! performs the store reads and writes around these decisions.

pub mod entries;
pub mod errors;
pub mod fields;
pub mod images;
pub mod meta;
pub mod metadata;
pub mod relations;
pub mod search;
pub mod text;
pub mod vaults;

//! An in-memory key-value store whose keys are slash-delimited paths.
//!
//! The store keeps typed values under hierarchical keys, supports per-key
//! expiry deadlines, and answers wildcard queries over path segments. Every
//! operation is specified over a mathematical map from keys to entry views.

pub mod clock;
pub mod entry;
pub mod error;
pub mod laws;
pub mod path;
pub mod scan;
pub mod snapshot;
pub mod stats;
pub mod store;
pub mod table;
pub mod value;

pub use crate::entry::Entry;
pub use crate::error::DbError;
pub use crate::snapshot::SerializableDb;
pub use crate::stats::{DbStats, DetailedDbStats};
pub use crate::store::Database;
pub use crate::value::Value;

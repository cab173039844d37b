//! The complete image of a store at one moment.

use crate::entry::Entry;
use vstd::prelude::*;

verus! {

/// A snapshot: every key with its entry, and the store's settings.
#[derive(Debug, Clone)]
pub struct SerializableDb {
    pub data: Vec<(String, Entry)>,
    pub created_at: i64,
    pub last_backup: Option<i64>,
    pub version: String,
}

} // verus!

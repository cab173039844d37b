//! Aggregate figures about a store.

use vstd::prelude::*;

verus! {

/// The short summary of a store.
#[derive(Debug, Clone)]
pub struct DbStats {
    pub total_keys: usize,
    pub expired_keys: usize,
    pub memory_usage: u64,
    pub created_at: i64,
    pub last_backup: Option<i64>,
}

/// The full summary of a store. The average path depth is
/// `total_path_depth` divided by `total_keys`, and zero for an empty store.
#[derive(Debug, Clone)]
pub struct DetailedDbStats {
    pub total_keys: usize,
    pub expired_keys: usize,
    pub active_keys: usize,
    pub keys_with_expiry: usize,
    pub string_values: usize,
    pub integer_values: usize,
    pub float_values: usize,
    pub bool_values: usize,
    pub array_values: usize,
    pub map_values: usize,
    pub null_values: usize,
    pub memory_usage: u64,
    pub created_at: i64,
    pub last_backup: Option<i64>,
    pub total_path_depth: u128,
}

} // verus!

//! The record stored under a key.

use crate::clock::utc_timestamp;
use crate::error::DbError;
use crate::path::{matches_pattern, segments_match, segments_of, split_path, texts, valid_path};
use crate::value::{copy_strings, Value, ValueView};
use vstd::prelude::*;
use vstd::string::*;

verus! {

/// A stored record: the value, the segments of its key, an optional expiry
/// deadline in seconds since the epoch, and the times of creation and of
/// the last update, also in seconds since the epoch.
#[derive(Debug, Clone)]
pub struct Entry {
    pub value: Value,
    pub path_components: Vec<String>,
    pub expiry: Option<u64>,
    pub created_at: i64,
    pub updated_at: i64,
}

/// The mathematical content of an [`Entry`].
pub ghost struct EntryView {
    pub value: ValueView,
    pub path: Seq<Seq<char>>,
    pub expiry: Option<u64>,
    pub created_at: i64,
    pub updated_at: i64,
}

impl View for Entry {
    type V = EntryView;

    open spec fn view(&self) -> EntryView {
        EntryView {
            value: self.value@,
            path: texts(self.path_components@),
            expiry: self.expiry,
            created_at: self.created_at,
            updated_at: self.updated_at,
        }
    }
}

impl EntryView {
    /// An entry is expired once its deadline is not in the future.
    pub open spec fn expired_at(self, now: u64) -> bool {
        self.expiry is Some && self.expiry->0 <= now
    }

    /// The entry a fresh `set` stores under `path` at time `stamp`.
    pub open spec fn fresh(value: ValueView, path: Seq<char>, stamp: i64) -> EntryView {
        EntryView {
            value,
            path: segments_of(path),
            expiry: None,
            created_at: stamp,
            updated_at: stamp,
        }
    }
}

impl Entry {
    /// Builds the entry for `path`, stamped with the current time.
    pub fn new(value: Value, path: &str) -> (r: Result<Entry, DbError>)
        ensures
            valid_path(path@) ==> r is Ok && exists|stamp: i64|
                r->Ok_0@ == EntryView::fresh(value@, path@, stamp),
            !valid_path(path@) ==> r == Err::<Entry, DbError>(DbError::InvalidPath),
    {
        let stamp = utc_timestamp();
        Entry::with_stamp(value, path, stamp)
    }

    /// Builds the entry for `path`, created and updated at `stamp`, with no
    /// expiry. Fails with `InvalidPath` exactly when the path is not valid.
    pub fn with_stamp(value: Value, path: &str, stamp: i64) -> (r: Result<Entry, DbError>)
        ensures
            valid_path(path@) ==> r is Ok && r->Ok_0@ == EntryView::fresh(value@, path@, stamp),
            !valid_path(path@) ==> r == Err::<Entry, DbError>(DbError::InvalidPath),
    {
        match Entry::parse_path(path) {
            Ok(path_components) => Ok(
                Entry {
                    value,
                    path_components,
                    expiry: None,
                    created_at: stamp,
                    updated_at: stamp,
                },
            ),
            Err(e) => Err(e),
        }
    }

    /// Splits a key into its segments. Fails with `InvalidPath` exactly when
    /// the key is empty or starts or ends with `/`; empty segments inside
    /// the key are kept.
    pub fn parse_path(path: &str) -> (r: Result<Vec<String>, DbError>)
        ensures
            valid_path(path@) ==> r is Ok && texts(r->Ok_0@) == segments_of(path@),
            !valid_path(path@) ==> r == Err::<Vec<String>, DbError>(DbError::InvalidPath),
    {
        let n = path.unicode_len();
        if n == 0 {
            return Err(DbError::InvalidPath);
        }
        if path.get_char(0) == '/' || path.get_char(n - 1) == '/' {
            return Err(DbError::InvalidPath);
        }
        Ok(split_path(path))
    }

    /// Tests this entry's segments against a wildcard pattern.
    pub fn matches_pattern(&self, pattern_components: &Vec<String>) -> (r: bool)
        ensures
            r == segments_match(texts(pattern_components@), self@.path),
    {
        matches_pattern(pattern_components, &self.path_components)
    }

    /// Tells whether the entry's deadline has passed at time `now`.
    pub fn is_expired_at(&self, now: u64) -> (r: bool)
        ensures
            r == self@.expired_at(now),
    {
        match self.expiry {
            Some(deadline) => deadline <= now,
            None => false,
        }
    }

    /// A copy with the same content.
    pub fn duplicate(&self) -> (out: Entry)
        ensures
            out@ == self@,
    {
        Entry {
            value: self.value.duplicate(),
            path_components: copy_strings(&self.path_components),
            expiry: self.expiry,
            created_at: self.created_at,
            updated_at: self.updated_at,
        }
    }
}

} // verus!

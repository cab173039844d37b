//! The store: a table of entries keyed by path, with lazy expiry.

use crate::clock::{seconds_of, unsigned_seconds, utc_timestamp};
use crate::entry::{Entry, EntryView};
use crate::error::DbError;
use crate::path::{segments_of, split_path, texts, valid_path};
use crate::scan::{
    child_names, children, count_upto, depth_upto, finds, found_view, hits, lemma_all_hits,
    lemma_children_named, lemma_count_hits, lemma_hits_step, lemma_selected_finds,
    lemma_total_depth, loaded, members, names_children, select_matching, selected, total_depth,
    Query,
};
use crate::snapshot::SerializableDb;
use crate::stats::{DbStats, DetailedDbStats};
use crate::table::{
    empty_contents, key_at, lemma_listed_is_finite, lists, table_clear, table_contents,
    table_entries, table_footprint, table_get, table_insert, table_len, table_new, table_remove,
};
use crate::value::{numeric_reading, step_counter, stepped, Value, ValueView};
use dashmap::DashMap;
use vstd::prelude::*;

verus! {

/// A store of entries keyed by path.
pub struct Database {
    pub(crate) data: DashMap<String, Entry>,
    pub(crate) storage_path: String,
    pub(crate) created_at: i64,
    pub(crate) last_backup: Option<i64>,
    pub(crate) version: String,
}

/// The invariant of a store: every key is a valid path, and every entry
/// holds the segments of the key it is stored under.
pub open spec fn consistent(m: Map<Seq<char>, EntryView>) -> bool {
    forall|k: Seq<char>| #[trigger]
        m.contains_key(k) ==> valid_path(k) && m[k].path == segments_of(k)
}

/// The same of a listing: every pair has a valid path as its key and an
/// entry that holds the segments of that key.
pub open spec fn consistent_listing(items: Seq<(String, Entry)>) -> bool {
    forall|i: int|
        0 <= i < items.len() ==> valid_path(#[trigger] key_at(items, i)) && items[i].1@.path
            == segments_of(key_at(items, i))
}

/// The deadline `seconds` after `now`, held at the largest representable
/// time where the sum would pass it.
pub open spec fn deadline(now: u64, seconds: u64) -> u64 {
    if now + seconds > u64::MAX {
        u64::MAX
    } else {
        (now + seconds) as u64
    }
}

/// What a read of `key` at time `now` does: an absent key is not found; an
/// expired one is not found and leaves the store; a live one yields its
/// value and leaves the store as it was.
pub open spec fn read_outcome(
    before: Map<Seq<char>, EntryView>,
    key: Seq<char>,
    now: u64,
    after: Map<Seq<char>, EntryView>,
    r: Result<Value, DbError>,
) -> bool {
    if !before.contains_key(key) {
        r is Err && r->Err_0 == DbError::KeyNotFound && after == before
    } else if before[key].expired_at(now) {
        r is Err && r->Err_0 == DbError::KeyNotFound && after == before.remove(key)
    } else {
        r is Ok && r->Ok_0@ == before[key].value && after == before
    }
}

/// The store as a read of `key` at time `now` leaves it.
pub open spec fn after_read(before: Map<Seq<char>, EntryView>, key: Seq<char>, now: u64) -> Map<
    Seq<char>,
    EntryView,
> {
    if before.contains_key(key) && before[key].expired_at(now) {
        before.remove(key)
    } else {
        before
    }
}

/// The number a counter under `key` stands at: zero where the key is
/// absent, else the numeric reading of its value.
pub open spec fn counter_at(m: Map<Seq<char>, EntryView>, key: Seq<char>) -> Option<i64> {
    if m.contains_key(key) {
        numeric_reading(m[key].value)
    } else {
        Some(0i64)
    }
}

/// What incrementing `path` at time `now` does, where a stored entry is
/// stamped `stamp`. The key is first read, which evicts it if expired. A
/// value that is no number, or a step out of range, fails with
/// `InvalidType`; a malformed path fails with `InvalidPath`; both leave the
/// store as the read left it. Otherwise the key is set to the new integer.
pub open spec fn increment_outcome(
    before: Map<Seq<char>, EntryView>,
    path: Seq<char>,
    now: u64,
    stamp: i64,
    after: Map<Seq<char>, EntryView>,
    r: Result<i64, DbError>,
) -> bool {
    let mid = after_read(before, path, now);
    let next = stepped(counter_at(mid, path));
    if next is None {
        r is Err && r->Err_0 == DbError::InvalidType && after == mid
    } else if !valid_path(path) {
        r is Err && r->Err_0 == DbError::InvalidPath && after == mid
    } else {
        r == Ok::<i64, DbError>(next->0) && after == mid.insert(
            path,
            EntryView::fresh(ValueView::Integer(next->0), path, stamp),
        )
    }
}

/// The time left until the deadline of the entry under `key`, as seen at
/// `now`: none where there is no deadline or it has passed.
pub open spec fn remaining(e: EntryView, now: u64) -> Option<u64> {
    if e.expiry is Some && e.expiry->0 > now {
        Some((e.expiry->0 - now) as u64)
    } else {
        None
    }
}

impl View for Database {
    type V = Map<Seq<char>, EntryView>;

    closed spec fn view(&self) -> Map<Seq<char>, EntryView> {
        table_contents(self.data)
    }
}

impl Database {
    /// The settings of the store: where it is kept, when it was created,
    /// when it was last backed up, and its format version.
    pub closed spec fn settings(&self) -> (Seq<char>, i64, Option<i64>, Seq<char>) {
        (self.storage_path@, self.created_at, self.last_backup, self.version@)
    }

    /// The path of the file the store is kept in.
    pub fn storage_path(&self) -> (r: &str)
        ensures
            r@ == self.settings().0,
    {
        self.storage_path.as_str()
    }

    /// The time the store was created, in seconds since the epoch.
    pub fn created_at(&self) -> (r: i64)
        ensures
            r == self.settings().1,
    {
        self.created_at
    }

    /// The time of the last backup, if there was one.
    pub fn last_backup(&self) -> (r: Option<i64>)
        ensures
            r == self.settings().2,
    {
        self.last_backup
    }

    /// The format version of the store.
    pub fn version(&self) -> (r: &str)
        ensures
            r@ == self.settings().3,
    {
        self.version.as_str()
    }

    /// The format version written into snapshots.
    pub open spec fn format_version() -> Seq<char> {
        "0.1.0"@
    }

    /// An empty store bound to `storage_path`, created now.
    pub fn new(storage_path: &str) -> (db: Database)
        ensures
            db@ == empty_contents(),
            consistent(db@),
            db.settings().0 == storage_path@,
            db.settings().2 is None,
            db.settings().3 == Self::format_version(),
    {
        let stamp = utc_timestamp();
        Database::new_at(storage_path, stamp)
    }

    /// An empty store bound to `storage_path`, created at `stamp`.
    pub fn new_at(storage_path: &str, stamp: i64) -> (db: Database)
        ensures
            db@ == empty_contents(),
            consistent(db@),
            db.settings() == (storage_path@, stamp, None::<i64>, Self::format_version()),
    {
        Database {
            data: table_new(),
            storage_path: storage_path.to_owned(),
            created_at: stamp,
            last_backup: None,
            version: "0.1.0".to_owned(),
        }
    }

    /// Stores `value` under `path`, replacing any entry already there, with
    /// no expiry and the current time as its stamp. A malformed path fails
    /// with `InvalidPath` and changes nothing.
    pub fn set(&mut self, path: &str, value: Value) -> (r: Result<(), DbError>)
        ensures
            valid_path(path@) ==> r is Ok && exists|stamp: i64|
                final(self)@ == old(self)@.insert(
                    path@,
                    EntryView::fresh(value@, path@, stamp),
                ),
            !valid_path(path@) ==> r == Err::<(), DbError>(DbError::InvalidPath) && final(self)@
                == old(self)@,
            final(self).settings() == old(self).settings(),
            consistent(old(self)@) ==> consistent(final(self)@),
    {
        let stamp = utc_timestamp();
        self.set_at(path, value, stamp)
    }

    /// Stores `value` under `path` as [`Database::set`] does, stamped
    /// `stamp`.
    pub fn set_at(&mut self, path: &str, value: Value, stamp: i64) -> (r: Result<(), DbError>)
        ensures
            valid_path(path@) ==> r is Ok && final(self)@ == old(self)@.insert(
                path@,
                EntryView::fresh(value@, path@, stamp),
            ),
            !valid_path(path@) ==> r == Err::<(), DbError>(DbError::InvalidPath) && final(self)@
                == old(self)@,
            final(self).settings() == old(self).settings(),
            consistent(old(self)@) ==> consistent(final(self)@),
    {
        match Entry::with_stamp(value, path, stamp) {
            Ok(entry) => {
                table_insert(&mut self.data, path.to_owned(), entry);
                Ok(())
            },
            Err(e) => Err(e),
        }
    }

    /// Reads the value under `key` at the current time; see
    /// [`read_outcome`].
    pub fn get(&mut self, key: &str) -> (r: Result<Value, DbError>)
        ensures
            exists|now: u64| read_outcome(old(self)@, key@, now, final(self)@, r),
            final(self).settings() == old(self).settings(),
            consistent(old(self)@) ==> consistent(final(self)@),
    {
        let now = unsigned_seconds(utc_timestamp());
        self.get_at(key, now)
    }

    /// Reads the value under `key` at time `now`, evicting the entry if its
    /// deadline has passed.
    pub fn get_at(&mut self, key: &str, now: u64) -> (r: Result<Value, DbError>)
        ensures
            read_outcome(old(self)@, key@, now, final(self)@, r),
            final(self)@ == after_read(old(self)@, key@, now),
            final(self).settings() == old(self).settings(),
            consistent(old(self)@) ==> consistent(final(self)@),
    {
        match table_get(&self.data, key) {
            Some(entry) => {
                if entry.is_expired_at(now) {
                    table_remove(&mut self.data, key);
                    Err(DbError::KeyNotFound)
                } else {
                    Ok(entry.value)
                }
            },
            None => Err(DbError::KeyNotFound),
        }
    }

    /// Removes the entry under `key`. Fails with `KeyNotFound` exactly when
    /// the key holds nothing.
    pub fn delete(&mut self, key: &str) -> (r: Result<(), DbError>)
        ensures
            old(self)@.contains_key(key@) ==> r is Ok,
            !old(self)@.contains_key(key@) ==> r == Err::<(), DbError>(DbError::KeyNotFound),
            final(self)@ == old(self)@.remove(key@),
            final(self).settings() == old(self).settings(),
            consistent(old(self)@) ==> consistent(final(self)@),
    {
        if table_remove(&mut self.data, key) {
            Ok(())
        } else {
            Err(DbError::KeyNotFound)
        }
    }

    /// Adds one to the counter under `path` at the current time; see
    /// [`increment_outcome`].
    pub fn increment(&mut self, path: &str) -> (r: Result<i64, DbError>)
        ensures
            exists|stamp: i64|
                increment_outcome(
                    old(self)@,
                    path@,
                    seconds_of(stamp),
                    stamp,
                    final(self)@,
                    r,
                ),
            final(self).settings() == old(self).settings(),
            consistent(old(self)@) ==> consistent(final(self)@),
    {
        let stamp = utc_timestamp();
        let now = unsigned_seconds(stamp);
        self.increment_at(path, now, stamp)
    }

    /// Adds one to the counter under `path`, read at time `now` and stored
    /// with stamp `stamp`.
    pub fn increment_at(&mut self, path: &str, now: u64, stamp: i64) -> (r: Result<i64, DbError>)
        ensures
            increment_outcome(old(self)@, path@, now, stamp, final(self)@, r),
            final(self).settings() == old(self).settings(),
            consistent(old(self)@) ==> consistent(final(self)@),
    {
        let reading = match self.get_at(path, now) {
            Ok(value) => value.counter_reading(),
            Err(_) => Some(0i64),
        };
        match step_counter(reading) {
            Some(next) => match self.set_at(path, Value::Integer(next), stamp) {
                Ok(()) => Ok(next),
                Err(e) => Err(e),
            },
            None => Err(DbError::InvalidType),
        }
    }

    /// Gives the entry under `path` a deadline `seconds` from the current
    /// time. Fails with `KeyNotFound` exactly when the key holds nothing.
    pub fn set_expiry(&mut self, path: &str, seconds: u64) -> (r: Result<(), DbError>)
        ensures
            old(self)@.contains_key(path@) ==> r is Ok && exists|now: u64|
                final(self)@ == old(self)@.insert(
                    path@,
                    (EntryView {
                        expiry: Some(#[trigger] deadline(now, seconds)),
                        ..old(self)@[path@]
                    }),
                ),
            !old(self)@.contains_key(path@) ==> r == Err::<(), DbError>(DbError::KeyNotFound)
                && final(self)@ == old(self)@,
            final(self).settings() == old(self).settings(),
            consistent(old(self)@) ==> consistent(final(self)@),
    {
        let now = unsigned_seconds(utc_timestamp());
        self.set_expiry_at(path, seconds, now)
    }

    /// Gives the entry under `path` the deadline `seconds` after `now`.
    pub fn set_expiry_at(&mut self, path: &str, seconds: u64, now: u64) -> (r: Result<
        (),
        DbError,
    >)
        ensures
            old(self)@.contains_key(path@) ==> r is Ok && final(self)@ == old(self)@.insert(
                path@,
                (EntryView { expiry: Some(deadline(now, seconds)), ..old(self)@[path@] }),
            ),
            !old(self)@.contains_key(path@) ==> r == Err::<(), DbError>(DbError::KeyNotFound)
                && final(self)@ == old(self)@,
            final(self).settings() == old(self).settings(),
            consistent(old(self)@) ==> consistent(final(self)@),
    {
        let when = if seconds > u64::MAX - now {
            u64::MAX
        } else {
            now + seconds
        };
        self.put_expiry(path, Some(when))
    }

    /// Takes the deadline off the entry under `path`. Fails with
    /// `KeyNotFound` exactly when the key holds nothing.
    pub fn remove_expiry(&mut self, path: &str) -> (r: Result<(), DbError>)
        ensures
            old(self)@.contains_key(path@) ==> r is Ok && final(self)@ == old(self)@.insert(
                path@,
                (EntryView { expiry: None, ..old(self)@[path@] }),
            ),
            !old(self)@.contains_key(path@) ==> r == Err::<(), DbError>(DbError::KeyNotFound)
                && final(self)@ == old(self)@,
            final(self).settings() == old(self).settings(),
            consistent(old(self)@) ==> consistent(final(self)@),
    {
        self.put_expiry(path, None)
    }

    /// Replaces the expiry of the entry under `path`, leaving the rest of
    /// the entry as it is.
    fn put_expiry(&mut self, path: &str, expiry: Option<u64>) -> (r: Result<(), DbError>)
        ensures
            old(self)@.contains_key(path@) ==> r is Ok && final(self)@ == old(self)@.insert(
                path@,
                (EntryView { expiry: expiry, ..old(self)@[path@] }),
            ),
            !old(self)@.contains_key(path@) ==> r == Err::<(), DbError>(DbError::KeyNotFound)
                && final(self)@ == old(self)@,
            final(self).settings() == old(self).settings(),
            consistent(old(self)@) ==> consistent(final(self)@),
    {
        match table_get(&self.data, path) {
            Some(found) => {
                let entry = Entry {
                    value: found.value,
                    path_components: found.path_components,
                    expiry,
                    created_at: found.created_at,
                    updated_at: found.updated_at,
                };
                table_insert(&mut self.data, path.to_owned(), entry);
                Ok(())
            },
            None => Err(DbError::KeyNotFound),
        }
    }

    /// The seconds left before the entry under `path` expires, at the
    /// current time.
    pub fn ttl(&self, path: &str) -> (r: Result<Option<u64>, DbError>)
        ensures
            self@.contains_key(path@) ==> r is Ok && exists|now: u64|
                r->Ok_0 == remaining(self@[path@], now),
            !self@.contains_key(path@) ==> r == Err::<Option<u64>, DbError>(DbError::KeyNotFound),
    {
        let now = unsigned_seconds(utc_timestamp());
        self.ttl_at(path, now)
    }

    /// The seconds left at time `now` before the entry under `path`
    /// expires: none where it has no deadline or the deadline has passed.
    /// Fails with `KeyNotFound` exactly when the key holds nothing.
    pub fn ttl_at(&self, path: &str, now: u64) -> (r: Result<Option<u64>, DbError>)
        ensures
            self@.contains_key(path@) ==> r == Ok::<Option<u64>, DbError>(
                remaining(self@[path@], now),
            ),
            !self@.contains_key(path@) ==> r == Err::<Option<u64>, DbError>(DbError::KeyNotFound),
    {
        match table_get(&self.data, path) {
            Some(entry) => {
                match entry.expiry {
                    Some(when) => if when > now {
                        Ok(Some(when - now))
                    } else {
                        Ok(None)
                    },
                    None => Ok(None),
                }
            },
            None => Err(DbError::KeyNotFound),
        }
    }

    /// Tells whether `path` holds a live entry at the current time.
    pub fn key_exists(&self, path: &str) -> (r: bool)
        ensures
            exists|now: u64| r == Self::live_at(self@, path@, now),
    {
        let now = unsigned_seconds(utc_timestamp());
        self.key_exists_at(path, now)
    }

    /// A key is live at `now` when it holds an entry that has not expired.
    pub open spec fn live_at(m: Map<Seq<char>, EntryView>, key: Seq<char>, now: u64) -> bool {
        m.contains_key(key) && !m[key].expired_at(now)
    }

    /// Tells whether `path` holds a live entry at time `now`.
    pub fn key_exists_at(&self, path: &str, now: u64) -> (r: bool)
        ensures
            r == Self::live_at(self@, path@, now),
    {
        match table_get(&self.data, path) {
            Some(entry) => !entry.is_expired_at(now),
            None => false,
        }
    }

    /// Removes every entry.
    pub fn clear(&mut self)
        ensures
            final(self)@ == empty_contents(),
            final(self).settings() == old(self).settings(),
            consistent(old(self)@) ==> consistent(final(self)@),
    {
        table_clear(&mut self.data);
    }
}

/// The figures of `stats` are those of the map `m` at time `now`: the
/// number of keys, for each condition the number of keys whose entries
/// meet it, and the total depth.
pub open spec fn summarizes(
    stats: DetailedDbStats,
    m: Map<Seq<char>, EntryView>,
    now: u64,
) -> bool {
    &&& stats.total_keys == m.len()
    &&& stats.expired_keys == members(m, Query::Expired(now)).len()
    &&& stats.active_keys == members(m, Query::Active(now)).len()
    &&& stats.keys_with_expiry == members(m, Query::WithExpiry).len()
    &&& stats.string_values == members(m, Query::Strings).len()
    &&& stats.integer_values == members(m, Query::Integers).len()
    &&& stats.float_values == members(m, Query::Floats).len()
    &&& stats.bool_values == members(m, Query::Bools).len()
    &&& stats.array_values == members(m, Query::Arrays).len()
    &&& stats.map_values == members(m, Query::Mappings).len()
    &&& stats.null_values == members(m, Query::Nulls).len()
    &&& stats.total_path_depth == total_depth(m)
}

impl Database {
    /// The entries whose segments match `pattern`, each key once with its
    /// value, in the order of a walk over the store. Expired entries that
    /// were not yet evicted are included.
    pub fn find_by_path(&self, pattern: &str) -> (r: Result<Vec<(String, Value)>, DbError>)
        ensures
            r is Ok,
            finds(found_view(r->Ok_0@), self@, segments_of(pattern@)),
            exists|items: Seq<(String, Entry)>| #[trigger]
                lists(items, self@) && found_view(r->Ok_0@) == selected(
                    items,
                    segments_of(pattern@),
                    items.len(),
                ),
    {
        let pattern_components = split_path(pattern);
        let items = table_entries(&self.data);
        let found = select_matching(&items, &pattern_components);
        proof {
            lemma_selected_finds(items@, self@, texts(pattern_components@));
        }
        Ok(found)
    }

    /// The distinct names directly below `prefix`, each once, in the order
    /// in which a walk over the store first sees them.
    pub fn list_directory(&self, prefix: &str) -> (r: Result<Vec<String>, DbError>)
        ensures
            r is Ok,
            names_children(texts(r->Ok_0@), self@, segments_of(prefix@)),
            exists|items: Seq<(String, Entry)>| #[trigger]
                lists(items, self@) && texts(r->Ok_0@) == children(
                    items,
                    segments_of(prefix@),
                    items.len(),
                ),
    {
        let prefix_components = split_path(prefix);
        let items = table_entries(&self.data);
        let names = child_names(&items, &prefix_components);
        proof {
            lemma_children_named(items@, self@, texts(prefix_components@));
        }
        Ok(names)
    }

    /// Removes every entry whose segments match `pattern` and returns how
    /// many there were.
    pub fn delete_by_pattern(&mut self, pattern: &str) -> (r: Result<usize, DbError>)
        ensures
            r is Ok,
            r->Ok_0 == members(old(self)@, Query::Matching(segments_of(pattern@))).len(),
            final(self)@ == old(self)@.remove_keys(
                members(old(self)@, Query::Matching(segments_of(pattern@))),
            ),
            final(self).settings() == old(self).settings(),
            consistent(old(self)@) ==> consistent(final(self)@),
    {
        let pattern_components = split_path(pattern);
        let items = table_entries(&self.data);
        let ghost q = Query::Matching(texts(pattern_components@));
        let ghost m = self@;
        let mut deleted: usize = 0;
        let mut i: usize = 0;
        proof {
            assert(hits(items@, q, 0) =~= Set::<Seq<char>>::empty());
            assert(m.remove_keys(hits(items@, q, 0)) =~= m);
        }
        while i < items.len()
            invariant
                lists(items@, m),
                i <= items.len(),
                q == Query::Matching(texts(pattern_components@)),
                self@ == m.remove_keys(hits(items@, q, i as nat)),
                deleted == count_upto(items@, q, i as nat),
                self.settings() == old(self).settings(),
            decreases items.len() - i,
        {
            proof {
                lemma_count_hits(items@, m, q, (i + 1) as nat);
                lemma_hits_step(items@, q, i as nat);
            }
            if items[i].1.matches_pattern(&pattern_components) {
                table_remove(&mut self.data, items[i].0.as_str());
                deleted += 1;
                proof {
                    assert(m.remove_keys(hits(items@, q, i as nat)).remove(key_at(items@, i as int))
                        =~= m.remove_keys(hits(items@, q, (i + 1) as nat)));
                }
            }
            i += 1;
        }
        proof {
            lemma_all_hits(items@, m, q);
        }
        Ok(deleted)
    }

    /// The full summary of the store at the current time.
    pub fn get_detailed_stats(&self) -> (stats: DetailedDbStats)
        ensures
            exists|now: u64| summarizes(stats, self@, now),
            stats.created_at == self.settings().1,
            stats.last_backup == self.settings().2,
    {
        let now = unsigned_seconds(utc_timestamp());
        self.get_detailed_stats_at(now)
    }

    /// The full summary of the store at time `now`.
    pub fn get_detailed_stats_at(&self, now: u64) -> (stats: DetailedDbStats)
        ensures
            summarizes(stats, self@, now),
            stats.created_at == self.settings().1,
            stats.last_backup == self.settings().2,
    {
        let items = table_entries(&self.data);
        let total_keys = table_len(&self.data);
        let mut stats = DetailedDbStats {
            total_keys,
            expired_keys: 0,
            active_keys: 0,
            keys_with_expiry: 0,
            string_values: 0,
            integer_values: 0,
            float_values: 0,
            bool_values: 0,
            array_values: 0,
            map_values: 0,
            null_values: 0,
            memory_usage: table_footprint(&self.data),
            created_at: self.created_at,
            last_backup: self.last_backup,
            total_path_depth: 0,
        };
        let ghost m = self@;
        let mut i: usize = 0;
        while i < items.len()
            invariant
                lists(items@, m),
                i <= items.len(),
                stats.total_keys == total_keys,
                stats.created_at == self.created_at,
                stats.last_backup == self.last_backup,
                stats.expired_keys == count_upto(items@, Query::Expired(now), i as nat),
                stats.active_keys == count_upto(items@, Query::Active(now), i as nat),
                stats.keys_with_expiry == count_upto(items@, Query::WithExpiry, i as nat),
                stats.string_values == count_upto(items@, Query::Strings, i as nat),
                stats.integer_values == count_upto(items@, Query::Integers, i as nat),
                stats.float_values == count_upto(items@, Query::Floats, i as nat),
                stats.bool_values == count_upto(items@, Query::Bools, i as nat),
                stats.array_values == count_upto(items@, Query::Arrays, i as nat),
                stats.map_values == count_upto(items@, Query::Mappings, i as nat),
                stats.null_values == count_upto(items@, Query::Nulls, i as nat),
                stats.total_path_depth == depth_upto(items@, i as nat),
                stats.total_path_depth <= i * 0x1_0000_0000_0000_0000,
            decreases items.len() - i,
        {
            let entry = &items[i].1;
            proof {
                let n = (i + 1) as nat;
                lemma_count_hits(items@, m, Query::Expired(now), n);
                lemma_count_hits(items@, m, Query::Active(now), n);
                lemma_count_hits(items@, m, Query::WithExpiry, n);
                lemma_count_hits(items@, m, Query::Strings, n);
                lemma_count_hits(items@, m, Query::Integers, n);
                lemma_count_hits(items@, m, Query::Floats, n);
                lemma_count_hits(items@, m, Query::Bools, n);
                lemma_count_hits(items@, m, Query::Arrays, n);
                lemma_count_hits(items@, m, Query::Mappings, n);
                lemma_count_hits(items@, m, Query::Nulls, n);
                assert(entry@.path.len() == entry.path_components@.len());
            }
            if entry.is_expired_at(now) {
                stats.expired_keys += 1;
            } else {
                stats.active_keys += 1;
            }
            if entry.expiry.is_some() {
                stats.keys_with_expiry += 1;
            }
            match entry.value {
                Value::String(_) => stats.string_values += 1,
                Value::Integer(_) => stats.integer_values += 1,
                Value::Float(_) => stats.float_values += 1,
                Value::Bool(_) => stats.bool_values += 1,
                Value::Array(_) => stats.array_values += 1,
                Value::Mapping(_) => stats.map_values += 1,
                Value::Null => stats.null_values += 1,
            }
            stats.total_path_depth += entry.path_components.len() as u128;
            i += 1;
        }
        proof {
            lemma_all_hits(items@, m, Query::Expired(now));
            lemma_all_hits(items@, m, Query::Active(now));
            lemma_all_hits(items@, m, Query::WithExpiry);
            lemma_all_hits(items@, m, Query::Strings);
            lemma_all_hits(items@, m, Query::Integers);
            lemma_all_hits(items@, m, Query::Floats);
            lemma_all_hits(items@, m, Query::Bools);
            lemma_all_hits(items@, m, Query::Arrays);
            lemma_all_hits(items@, m, Query::Mappings);
            lemma_all_hits(items@, m, Query::Nulls);
            lemma_total_depth(items@, m);
        }
        stats
    }

    /// The short summary of the store at the current time.
    pub fn get_stats(&self) -> (stats: DbStats)
        ensures
            stats.total_keys == self@.len(),
            exists|now: u64|
                stats.expired_keys == (#[trigger] members(self@, Query::Expired(now))).len(),
            stats.created_at == self.settings().1,
            stats.last_backup == self.settings().2,
    {
        let now = unsigned_seconds(utc_timestamp());
        self.get_stats_at(now)
    }

    /// The short summary of the store at time `now`.
    pub fn get_stats_at(&self, now: u64) -> (stats: DbStats)
        ensures
            stats.total_keys == self@.len(),
            stats.expired_keys == members(self@, Query::Expired(now)).len(),
            stats.created_at == self.settings().1,
            stats.last_backup == self.settings().2,
    {
        let items = table_entries(&self.data);
        let ghost m = self@;
        let mut expired: usize = 0;
        let mut i: usize = 0;
        while i < items.len()
            invariant
                lists(items@, m),
                i <= items.len(),
                expired == count_upto(items@, Query::Expired(now), i as nat),
            decreases items.len() - i,
        {
            proof {
                lemma_count_hits(items@, m, Query::Expired(now), (i + 1) as nat);
            }
            if items[i].1.is_expired_at(now) {
                expired += 1;
            }
            i += 1;
        }
        proof {
            lemma_all_hits(items@, m, Query::Expired(now));
        }
        DbStats {
            total_keys: table_len(&self.data),
            expired_keys: expired,
            memory_usage: table_footprint(&self.data),
            created_at: self.created_at,
            last_backup: self.last_backup,
        }
    }

    /// The snapshot of the store: a listing of its entries and its
    /// settings.
    pub fn to_serializable(&self) -> (snapshot: SerializableDb)
        ensures
            lists(snapshot.data@, self@),
            snapshot.data@.len() == self@.len(),
            consistent(self@) ==> consistent_listing(snapshot.data@),
            snapshot.created_at == self.settings().1,
            snapshot.last_backup == self.settings().2,
            snapshot.version@ == self.settings().3,
    {
        let data = table_entries(&self.data);
        proof {
            lemma_listed_is_finite(data@, self@);
        }
        SerializableDb {
            data,
            created_at: self.created_at,
            last_backup: self.last_backup,
            version: self.version.clone(),
        }
    }

    /// Records that a backup was taken at `stamp`.
    pub fn record_backup(&mut self, stamp: i64)
        ensures
            final(self)@ == old(self)@,
            final(self).settings() == (
                old(self).settings().0,
                old(self).settings().1,
                Some(stamp),
                old(self).settings().3,
            ),
    {
        self.last_backup = Some(stamp);
    }

    /// Replaces the entries of the store by those of `saved`, inserted in
    /// order, and leaves the settings as they are.
    pub fn import_json(&mut self, saved: &SerializableDb)
        ensures
            final(self)@ == loaded(saved.data@, saved.data@.len()),
            final(self).settings() == old(self).settings(),
            consistent_listing(saved.data@) ==> consistent(final(self)@),
    {
        table_clear(&mut self.data);
        let mut i: usize = 0;
        while i < saved.data.len()
            invariant
                i <= saved.data.len(),
                self@ == loaded(saved.data@, i as nat),
                consistent_listing(saved.data@) ==> consistent(self@),
                self.settings() == old(self).settings(),
            decreases saved.data.len() - i,
        {
            let key = saved.data[i].0.clone();
            let entry = saved.data[i].1.duplicate();
            assert(key@ == key_at(saved.data@, i as int));
            table_insert(&mut self.data, key, entry);
            i += 1;
        }
    }

    /// Replaces the entries of the store by those of `saved`, and takes the
    /// creation time and the time of the last backup from it.
    pub fn restore_from_backup(&mut self, saved: &SerializableDb)
        ensures
            final(self)@ == loaded(saved.data@, saved.data@.len()),
            consistent_listing(saved.data@) ==> consistent(final(self)@),
            final(self).settings() == (
                old(self).settings().0,
                saved.created_at,
                saved.last_backup,
                old(self).settings().3,
            ),
    {
        self.import_json(saved);
        self.created_at = saved.created_at;
        self.last_backup = saved.last_backup;
    }
}

} // verus!

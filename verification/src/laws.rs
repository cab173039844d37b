//! Laws that relate the operations of the store to one another.

use crate::entry::EntryView;
use crate::error::DbError;
use crate::path::{segments_match, valid_path, wildcard};
use crate::scan::{depth_step, members, Query};
use crate::stats::DetailedDbStats;
use crate::store::{deadline, read_outcome, summarizes, Database};
use crate::table::empty_contents;
use crate::value::{Value, ValueView};
use vstd::prelude::*;

verus! {

/// A value stored under a key is read back unchanged: after a `set` of
/// `value` under `path`, a read of `path` at any time succeeds with that
/// value and leaves the store as the `set` left it.
pub proof fn law_set_then_get(
    m: Map<Seq<char>, EntryView>,
    path: Seq<char>,
    value: ValueView,
    stamp: i64,
    now: u64,
    after: Map<Seq<char>, EntryView>,
    r: Result<Value, DbError>,
)
    requires
        read_outcome(m.insert(path, EntryView::fresh(value, path, stamp)), path, now, after, r),
    ensures
        r is Ok,
        r->Ok_0@ == value,
        after == m.insert(path, EntryView::fresh(value, path, stamp)),
{
}

/// After a stored key is deleted, a read of it finds nothing.
pub proof fn law_delete_then_get(
    m: Map<Seq<char>, EntryView>,
    path: Seq<char>,
    now: u64,
    after: Map<Seq<char>, EntryView>,
    r: Result<Value, DbError>,
)
    requires
        read_outcome(m.remove(path), path, now, after, r),
    ensures
        r is Err,
        r->Err_0 == DbError::KeyNotFound,
        after == m.remove(path),
{
}

/// A deadline of zero seconds expires at once: after the entry under
/// `path` is given the deadline `set_at + 0`, a read at any time from
/// `set_at` on finds nothing and removes the key.
pub proof fn law_zero_expiry_evicts(
    m: Map<Seq<char>, EntryView>,
    path: Seq<char>,
    set_at: u64,
    now: u64,
    after: Map<Seq<char>, EntryView>,
    r: Result<Value, DbError>,
)
    requires
        m.contains_key(path),
        set_at <= now,
        read_outcome(
            m.insert(path, (EntryView { expiry: Some(deadline(set_at, 0)), ..m[path] })),
            path,
            now,
            after,
            r,
        ),
    ensures
        r is Err,
        r->Err_0 == DbError::KeyNotFound,
        !after.contains_key(path),
        after == m.remove(path),
{
    assert(after =~= m.remove(path));
}

/// A key stops being live the moment its deadline is reached, whether or
/// not it was read in between: liveness depends on the stored deadline and
/// the time alone.
pub proof fn law_expired_is_not_live(m: Map<Seq<char>, EntryView>, path: Seq<char>, now: u64)
    requires
        m.contains_key(path),
        m[path].expiry is Some,
        m[path].expiry->0 <= now,
    ensures
        !Database::live_at(m, path, now),
{
}

/// Deleting by a pattern leaves no entry that matches it, so that deleting
/// by the same pattern again removes nothing and counts zero.
pub proof fn law_delete_by_pattern_twice(m: Map<Seq<char>, EntryView>, pattern: Seq<Seq<char>>)
    ensures
        members(m.remove_keys(members(m, Query::Matching(pattern))), Query::Matching(pattern))
            == Set::<Seq<char>>::empty(),
        members(m.remove_keys(members(m, Query::Matching(pattern))), Query::Matching(pattern)).len()
            == 0,
        m.remove_keys(members(m, Query::Matching(pattern))).remove_keys(
            members(m.remove_keys(members(m, Query::Matching(pattern))), Query::Matching(pattern)),
        ) == m.remove_keys(members(m, Query::Matching(pattern))),
{
    let q = Query::Matching(pattern);
    let rest = m.remove_keys(members(m, q));
    assert(members(rest, q) =~= Set::<Seq<char>>::empty());
    assert(rest.remove_keys(members(rest, q)) =~= rest);
}

/// Deleting by a pattern removes exactly the matching entries: a key stays
/// exactly when it was there and its entry does not match, and it keeps its
/// entry.
pub proof fn law_delete_by_pattern_exact(
    m: Map<Seq<char>, EntryView>,
    pattern: Seq<Seq<char>>,
    k: Seq<char>,
)
    ensures
        m.remove_keys(members(m, Query::Matching(pattern))).contains_key(k) <==> m.contains_key(k)
            && !segments_match(pattern, m[k].path),
        m.remove_keys(members(m, Query::Matching(pattern))).contains_key(k) ==> m.remove_keys(
            members(m, Query::Matching(pattern)),
        )[k] == m[k],
{
}

/// A pattern of a plain first segment followed by the wildcard matches
/// exactly the paths of at least two segments that start with that
/// segment.
pub proof fn law_segment_then_wildcard(first: Seq<char>, path: Seq<Seq<char>>)
    requires
        first != wildcard(),
    ensures
        segments_match(seq![first, wildcard()], path) <==> path.len() >= 2 && path[0] == first,
{
    let pattern = seq![first, wildcard()];
    assert(pattern[0] == first);
    assert(pattern[1] == wildcard());
    if path.len() >= 2 && path[0] == first {
        assert forall|i: int| 0 <= i < pattern.len() implies (#[trigger] pattern[i] == wildcard()
            || pattern[i] == path[i]) by {}
    }
}

/// Matching is a prefix match: a pattern that matches a path also matches
/// every extension of that path.
pub proof fn law_match_extends(
    pattern: Seq<Seq<char>>,
    path: Seq<Seq<char>>,
    more: Seq<Seq<char>>,
)
    requires
        segments_match(pattern, path),
    ensures
        segments_match(pattern, path + more),
{
    assert forall|i: int| 0 <= i < pattern.len() implies (#[trigger] pattern[i] == wildcard()
        || pattern[i] == (path + more)[i]) by {
        assert((path + more)[i] == path[i]);
    }
}

/// The summary of an empty store is all zeros.
pub proof fn law_empty_summary(stats: DetailedDbStats, now: u64)
    requires
        summarizes(stats, empty_contents(), now),
    ensures
        stats.total_keys == 0,
        stats.expired_keys == 0,
        stats.active_keys == 0,
        stats.keys_with_expiry == 0,
        stats.string_values == 0,
        stats.integer_values == 0,
        stats.float_values == 0,
        stats.bool_values == 0,
        stats.array_values == 0,
        stats.map_values == 0,
        stats.null_values == 0,
        stats.total_path_depth == 0,
{
    let m = empty_contents();
    let none = Set::<Seq<char>>::empty();
    assert(members(m, Query::Expired(now)) =~= none);
    assert(members(m, Query::Active(now)) =~= none);
    assert(members(m, Query::WithExpiry) =~= none);
    assert(members(m, Query::Strings) =~= none);
    assert(members(m, Query::Integers) =~= none);
    assert(members(m, Query::Floats) =~= none);
    assert(members(m, Query::Bools) =~= none);
    assert(members(m, Query::Arrays) =~= none);
    assert(members(m, Query::Mappings) =~= none);
    assert(members(m, Query::Nulls) =~= none);
    assert(m.dom() =~= none);
    vstd::set::fold::lemma_fold_empty::<Seq<char>, nat>(0nat, depth_step(m));
}

/// A store that holds a single entry has the number of that entry's path
/// segments as its total depth, so its average depth is that number.
pub proof fn law_single_entry_depth(stats: DetailedDbStats, key: Seq<char>, e: EntryView, now: u64)
    requires
        summarizes(stats, empty_contents().insert(key, e), now),
    ensures
        stats.total_keys == 1,
        stats.total_path_depth == e.path.len(),
{
    let m = empty_contents().insert(key, e);
    let none = Set::<Seq<char>>::empty();
    assert(m.dom() =~= none.insert(key));
    assert(vstd::set::fold::is_fun_commutative(depth_step(m)));
    vstd::set::fold::lemma_fold_empty::<Seq<char>, nat>(0nat, depth_step(m));
    vstd::set::fold::lemma_fold_insert(none, 0nat, depth_step(m), key);
}

/// A path is valid exactly when it is not empty and has no slash at either
/// end; in particular the empty path, a path with a leading slash and a
/// path with a trailing slash are not valid.
pub proof fn law_invalid_paths(path: Seq<char>)
    ensures
        path.len() == 0 ==> !valid_path(path),
        path.len() > 0 && path[0] == '/' ==> !valid_path(path),
        path.len() > 0 && path.last() == '/' ==> !valid_path(path),
{
}

} // verus!

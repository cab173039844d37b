use pathdb::path::{is_strictly_below, is_wildcard, matches_pattern, split_path};
use pathdb::scan::{child_names, contains_text, select_matching};
use pathdb::value::step_counter;
use pathdb::{Database, DbError, Entry, SerializableDb, Value};
use std::collections::HashMap;

fn text(s: &str) -> Value {
    Value::String(s.to_string())
}

fn strings(items: &[&str]) -> Vec<String> {
    items.iter().map(|s| s.to_string()).collect()
}

fn same_value(a: &Value, b: &Value) -> bool {
    match (a, b) {
        (Value::String(x), Value::String(y)) => x == y,
        (Value::Integer(x), Value::Integer(y)) => x == y,
        (Value::Float(x), Value::Float(y)) => x == y,
        (Value::Bool(x), Value::Bool(y)) => x == y,
        (Value::Array(x), Value::Array(y)) => x == y,
        (Value::Mapping(x), Value::Mapping(y)) => x == y,
        (Value::Null, Value::Null) => true,
        _ => false,
    }
}

fn sorted_keys(found: &[(String, Value)]) -> Vec<String> {
    let mut keys: Vec<String> = found.iter().map(|pair| pair.0.clone()).collect();
    keys.sort();
    keys
}

fn entry(path: &str, value: Value) -> (String, Entry) {
    (path.to_string(), Entry::with_stamp(value, path, 7).unwrap())
}

#[test]
fn set_then_get_returns_the_value() {
    let mut db = Database::new("unused.json");
    let mut mapping = HashMap::new();
    mapping.insert("k".to_string(), "v".to_string());
    let values = vec![
        text("Alice"),
        Value::Integer(-42),
        Value::Float(1.5f64.to_bits()),
        Value::Bool(true),
        Value::Array(strings(&["a", "b"])),
        Value::Mapping(mapping),
        Value::Null,
    ];
    for (i, v) in values.iter().enumerate() {
        let key = format!("kinds/{}", i);
        assert_eq!(db.set(&key, v.clone()), Ok(()));
        let got = db.get(&key).unwrap();
        assert!(same_value(&got, v));
    }
    assert_eq!(db.get_stats().total_keys, 7);
}

#[test]
fn set_replaces_the_whole_entry() {
    let mut db = Database::new_at("unused.json", 1);
    db.set_at("a/b", text("old"), 10).unwrap();
    db.set_expiry_at("a/b", 50, 100).unwrap();
    db.set_at("a/b", Value::Integer(3), 20).unwrap();
    assert_eq!(db.ttl_at("a/b", 100), Ok(None));
    assert!(same_value(&db.get_at("a/b", 1000).unwrap(), &Value::Integer(3)));
    let snapshot = db.to_serializable();
    assert_eq!(snapshot.data.len(), 1);
    assert_eq!(snapshot.data[0].0, "a/b");
    assert_eq!(snapshot.data[0].1.created_at, 20);
    assert_eq!(snapshot.data[0].1.updated_at, 20);
    assert_eq!(snapshot.data[0].1.path_components, strings(&["a", "b"]));
}

#[test]
fn malformed_paths_are_rejected() {
    let mut db = Database::new("unused.json");
    assert_eq!(db.set("", Value::Null), Err(DbError::InvalidPath));
    assert_eq!(db.set("/a", Value::Null), Err(DbError::InvalidPath));
    assert_eq!(db.set("a/", Value::Null), Err(DbError::InvalidPath));
    assert_eq!(db.set("/", Value::Null), Err(DbError::InvalidPath));
    assert_eq!(db.get_stats().total_keys, 0);
    assert_eq!(Entry::parse_path(""), Err(DbError::InvalidPath));
    assert_eq!(Entry::parse_path("a/b/"), Err(DbError::InvalidPath));
}

#[test]
fn interior_empty_segments_are_kept() {
    assert_eq!(Entry::parse_path("a//b"), Ok(strings(&["a", "", "b"])));
    assert_eq!(Entry::parse_path("users/42/name"), Ok(strings(&["users", "42", "name"])));
    assert_eq!(Entry::parse_path("single"), Ok(strings(&["single"])));
}

#[test]
fn split_path_splits_at_every_slash() {
    assert_eq!(split_path(""), strings(&[""]));
    assert_eq!(split_path("/"), strings(&["", ""]));
    assert_eq!(split_path("a/*"), strings(&["a", "*"]));
    assert_eq!(split_path("/a/"), strings(&["", "a", ""]));
    assert_eq!(split_path("h\u{e9}llo/w\u{f6}rld"), strings(&["h\u{e9}llo", "w\u{f6}rld"]));
}

#[test]
fn wildcard_is_the_single_star() {
    assert!(is_wildcard(&"*".to_string()));
    assert!(!is_wildcard(&"**".to_string()));
    assert!(!is_wildcard(&"".to_string()));
    assert!(!is_wildcard(&"a".to_string()));
}

#[test]
fn patterns_match_by_prefix_with_wildcards() {
    let path = strings(&["users", "1", "name"]);
    assert!(matches_pattern(&strings(&["users"]), &path));
    assert!(matches_pattern(&strings(&["users", "*"]), &path));
    assert!(matches_pattern(&strings(&["users", "*", "name"]), &path));
    assert!(matches_pattern(&strings(&["*", "*", "*"]), &path));
    assert!(matches_pattern(&strings(&[]), &path));
    assert!(!matches_pattern(&strings(&["users", "2"]), &path));
    assert!(!matches_pattern(&strings(&["users", "*", "age"]), &path));
    assert!(!matches_pattern(&strings(&["users", "1", "name", "x"]), &path));
    assert!(!matches_pattern(&strings(&["*", "*", "*", "*"]), &path));
}

#[test]
fn strictly_below_needs_one_more_segment() {
    let path = strings(&["a", "x", "1"]);
    assert!(is_strictly_below(&strings(&["a"]), &path));
    assert!(is_strictly_below(&strings(&["a", "x"]), &path));
    assert!(!is_strictly_below(&strings(&["a", "x", "1"]), &path));
    assert!(!is_strictly_below(&strings(&["b"]), &path));
    assert!(!is_strictly_below(&strings(&["*"]), &path));
}

#[test]
fn increment_creates_and_steps_counters() {
    let mut db = Database::new("unused.json");
    assert_eq!(db.increment("hits"), Ok(1));
    assert_eq!(db.increment("hits"), Ok(2));
    db.set("five", Value::Integer(5)).unwrap();
    assert_eq!(db.increment("five"), Ok(6));
    assert!(same_value(&db.get("five").unwrap(), &Value::Integer(6)));
}

#[test]
fn increment_reads_numbers_written_in_strings() {
    let mut db = Database::new("unused.json");
    db.set("s", text("5")).unwrap();
    assert_eq!(db.increment("s"), Ok(6));
    assert!(same_value(&db.get("s").unwrap(), &Value::Integer(6)));
    db.set("neg", text("-3")).unwrap();
    assert_eq!(db.increment("neg"), Ok(-2));
    db.set("big", text("41000000000")).unwrap();
    assert_eq!(db.increment("big"), Ok(41000000001));
}

#[test]
fn increment_rejects_what_is_no_number() {
    let mut db = Database::new("unused.json");
    db.set("x", text("x")).unwrap();
    assert_eq!(db.increment("x"), Err(DbError::InvalidType));
    assert!(same_value(&db.get("x").unwrap(), &text("x")));
    db.set("flag", Value::Bool(true)).unwrap();
    assert_eq!(db.increment("flag"), Err(DbError::InvalidType));
    db.set("none", Value::Null).unwrap();
    assert_eq!(db.increment("none"), Err(DbError::InvalidType));
    db.set("spaced", text(" 5")).unwrap();
    assert_eq!(db.increment("spaced"), Err(DbError::InvalidType));
    db.set("empty", text("")).unwrap();
    assert_eq!(db.increment("empty"), Err(DbError::InvalidType));
}

#[test]
fn increment_stops_at_the_largest_integer() {
    let mut db = Database::new("unused.json");
    db.set("top", Value::Integer(i64::MAX)).unwrap();
    assert_eq!(db.increment("top"), Err(DbError::InvalidType));
    assert!(same_value(&db.get("top").unwrap(), &Value::Integer(i64::MAX)));
    db.set("near", Value::Integer(i64::MAX - 1)).unwrap();
    assert_eq!(db.increment("near"), Ok(i64::MAX));
    assert_eq!(step_counter(Some(i64::MAX)), None);
    assert_eq!(step_counter(Some(-1)), Some(0));
    assert_eq!(step_counter(None), None);
}

#[test]
fn increment_on_a_malformed_absent_path_fails() {
    let mut db = Database::new("unused.json");
    assert_eq!(db.increment("/bad"), Err(DbError::InvalidPath));
    assert_eq!(db.increment(""), Err(DbError::InvalidPath));
    assert_eq!(db.get_stats().total_keys, 0);
}

#[test]
fn increment_restarts_an_expired_counter() {
    let mut db = Database::new_at("unused.json", 0);
    db.set_at("c", Value::Integer(9), 0).unwrap();
    db.set_expiry_at("c", 10, 100).unwrap();
    assert_eq!(db.increment_at("c", 110, 110), Ok(1));
    assert_eq!(db.ttl_at("c", 110), Ok(None));
    assert!(db.key_exists_at("c", 1_000_000));
}

#[test]
fn zero_expiry_makes_the_key_unreadable_and_evicts_it() {
    let mut db = Database::new("unused.json");
    db.set("p", text("v")).unwrap();
    assert_eq!(db.set_expiry("p", 0), Ok(()));
    assert!(matches!(db.get("p"), Err(DbError::KeyNotFound)));
    assert_eq!(db.get_stats().total_keys, 0);
    assert_eq!(db.ttl("p"), Err(DbError::KeyNotFound));
    assert_eq!(db.delete("p"), Err(DbError::KeyNotFound));
}

#[test]
fn zero_expiry_at_a_given_time_evicts_on_read() {
    let mut db = Database::new_at("unused.json", 0);
    db.set_at("p", text("v"), 0).unwrap();
    db.set_expiry_at("p", 0, 500).unwrap();
    assert_eq!(db.get_stats_at(500).total_keys, 1);
    assert!(matches!(db.get_at("p", 500), Err(DbError::KeyNotFound)));
    assert_eq!(db.get_stats_at(500).total_keys, 0);
}

#[test]
fn key_stops_existing_when_the_deadline_passes() {
    let mut db = Database::new_at("unused.json", 0);
    db.set_at("p", text("v"), 0).unwrap();
    assert!(db.key_exists_at("p", 0));
    db.set_expiry_at("p", 10, 100).unwrap();
    assert!(db.key_exists_at("p", 100));
    assert!(db.key_exists_at("p", 109));
    assert!(!db.key_exists_at("p", 110));
    assert!(!db.key_exists_at("p", 111));
    assert!(!db.key_exists_at("q", 0));
    assert_eq!(db.get_stats_at(111).total_keys, 1);
}

#[test]
fn ttl_counts_down_to_the_deadline() {
    let mut db = Database::new_at("unused.json", 0);
    db.set_at("p", text("v"), 0).unwrap();
    assert_eq!(db.ttl_at("p", 5), Ok(None));
    db.set_expiry_at("p", 10, 100).unwrap();
    assert_eq!(db.ttl_at("p", 100), Ok(Some(10)));
    assert_eq!(db.ttl_at("p", 105), Ok(Some(5)));
    assert_eq!(db.ttl_at("p", 109), Ok(Some(1)));
    assert_eq!(db.ttl_at("p", 110), Ok(None));
    assert_eq!(db.ttl_at("p", 200), Ok(None));
    assert_eq!(db.get_stats_at(200).total_keys, 1);
    assert_eq!(db.ttl_at("missing", 0), Err(DbError::KeyNotFound));
}

#[test]
fn ttl_with_the_wall_clock_is_close_to_what_was_set() {
    let mut db = Database::new("unused.json");
    db.set("p", text("v")).unwrap();
    db.set_expiry("p", 1000).unwrap();
    let left = db.ttl("p").unwrap().unwrap();
    assert!(left <= 1000 && left >= 990);
    assert!(db.key_exists("p"));
    assert!(same_value(&db.get("p").unwrap(), &text("v")));
}

#[test]
fn deadline_is_held_at_the_largest_time() {
    let mut db = Database::new_at("unused.json", 0);
    db.set_at("p", text("v"), 0).unwrap();
    db.set_expiry_at("p", u64::MAX, 5).unwrap();
    assert_eq!(db.ttl_at("p", 5), Ok(Some(u64::MAX - 5)));
    db.set_expiry_at("p", 7, 5).unwrap();
    assert_eq!(db.ttl_at("p", 5), Ok(Some(7)));
}

#[test]
fn expiry_changes_fail_on_absent_keys() {
    let mut db = Database::new("unused.json");
    assert_eq!(db.set_expiry("nope", 5), Err(DbError::KeyNotFound));
    assert_eq!(db.remove_expiry("nope"), Err(DbError::KeyNotFound));
    assert_eq!(db.get_stats().total_keys, 0);
}

#[test]
fn remove_expiry_makes_the_key_permanent() {
    let mut db = Database::new_at("unused.json", 0);
    db.set_at("p", Value::Integer(1), 3).unwrap();
    db.set_expiry_at("p", 10, 100).unwrap();
    assert_eq!(db.remove_expiry("p"), Ok(()));
    assert_eq!(db.ttl_at("p", 100), Ok(None));
    assert!(db.key_exists_at("p", u64::MAX));
    assert!(same_value(&db.get_at("p", u64::MAX).unwrap(), &Value::Integer(1)));
    let snapshot = db.to_serializable();
    assert_eq!(snapshot.data[0].1.created_at, 3);
    assert_eq!(snapshot.data[0].1.expiry, None);
}

#[test]
fn delete_removes_only_the_given_key() {
    let mut db = Database::new("unused.json");
    db.set("a", Value::Integer(1)).unwrap();
    db.set("b", Value::Integer(2)).unwrap();
    assert_eq!(db.delete("a"), Ok(()));
    assert_eq!(db.delete("a"), Err(DbError::KeyNotFound));
    assert!(matches!(db.get("a"), Err(DbError::KeyNotFound)));
    assert!(same_value(&db.get("b").unwrap(), &Value::Integer(2)));
}

#[test]
fn get_of_an_absent_key_is_not_found() {
    let mut db = Database::new("unused.json");
    assert!(matches!(db.get("nothing/here"), Err(DbError::KeyNotFound)));
    assert!(!db.key_exists("nothing/here"));
}

#[test]
fn delete_by_pattern_removes_exactly_the_matches() {
    let mut db = Database::new("unused.json");
    for key in ["a", "a/x", "a/y/z", "b/c", "ab/c"] {
        db.set(key, text(key)).unwrap();
    }
    assert_eq!(db.delete_by_pattern("a/*"), Ok(2));
    assert_eq!(db.delete_by_pattern("a/*"), Ok(0));
    let mut left: Vec<String> = db.to_serializable().data.into_iter().map(|p| p.0).collect();
    left.sort();
    assert_eq!(left, strings(&["a", "ab/c", "b/c"]));
    assert_eq!(db.delete_by_pattern("*"), Ok(3));
    assert_eq!(db.get_stats().total_keys, 0);
}

#[test]
fn list_directory_gives_the_distinct_children() {
    let mut db = Database::new("unused.json");
    db.set("a/x/1", Value::Null).unwrap();
    db.set("a/x/2", Value::Null).unwrap();
    db.set("a/y", Value::Null).unwrap();
    db.set("b/z", Value::Null).unwrap();
    db.set("a", Value::Null).unwrap();
    let mut names = db.list_directory("a").unwrap();
    names.sort();
    assert_eq!(names, strings(&["x", "y"]));
    let mut deeper = db.list_directory("a/x").unwrap();
    deeper.sort();
    assert_eq!(deeper, strings(&["1", "2"]));
    assert_eq!(db.list_directory("c").unwrap(), Vec::<String>::new());
    assert_eq!(db.list_directory("a/y").unwrap(), Vec::<String>::new());
}

#[test]
fn child_names_keep_first_seen_order() {
    let items = vec![
        entry("a/x/1", Value::Null),
        entry("a/y", Value::Null),
        entry("b/z", Value::Null),
        entry("a/x/2", Value::Null),
        entry("a/w", Value::Null),
    ];
    assert_eq!(child_names(&items, &strings(&["a"])), strings(&["x", "y", "w"]));
    assert_eq!(child_names(&items, &strings(&["a", "x"])), strings(&["1", "2"]));
    assert_eq!(child_names(&items, &strings(&["z"])), Vec::<String>::new());
    assert!(contains_text(&strings(&["x", "y"]), &"y".to_string()));
    assert!(!contains_text(&strings(&["x", "y"]), &"z".to_string()));
}

#[test]
fn find_by_path_matches_wildcards() {
    let mut db = Database::new("unused.json");
    db.set("users/1/name", text("Alice")).unwrap();
    db.set("users/2/name", text("Bob")).unwrap();
    db.set("users/1/age", Value::Integer(30)).unwrap();
    db.set("groups/1/name", text("Admins")).unwrap();
    let names = db.find_by_path("users/*/name").unwrap();
    assert_eq!(sorted_keys(&names), strings(&["users/1/name", "users/2/name"]));
    for (key, value) in names.iter() {
        if key == "users/1/name" {
            assert!(same_value(value, &text("Alice")));
        } else {
            assert!(same_value(value, &text("Bob")));
        }
    }
    let first = db.find_by_path("users/1/*").unwrap();
    assert_eq!(sorted_keys(&first), strings(&["users/1/age", "users/1/name"]));
    let only_alice = db.find_by_path("users/1/name").unwrap();
    assert_eq!(only_alice.len(), 1);
    assert!(same_value(&only_alice[0].1, &text("Alice")));
    assert_eq!(db.find_by_path("users/*/name/more").unwrap().len(), 0);
    assert_eq!(db.find_by_path("*").unwrap().len(), 4);
}

#[test]
fn find_by_path_includes_expired_entries_not_yet_evicted() {
    let mut db = Database::new_at("unused.json", 0);
    db.set_at("t/1", text("v"), 0).unwrap();
    db.set_expiry_at("t/1", 0, 0).unwrap();
    assert_eq!(db.find_by_path("t/*").unwrap().len(), 1);
}

#[test]
fn select_matching_keeps_the_listing_order() {
    let items = vec![
        entry("u/2/n", text("B")),
        entry("g/1/n", text("G")),
        entry("u/1/n", text("A")),
    ];
    let found = select_matching(&items, &strings(&["u", "*"]));
    assert_eq!(found.len(), 2);
    assert_eq!(found[0].0, "u/2/n");
    assert!(same_value(&found[0].1, &text("B")));
    assert_eq!(found[1].0, "u/1/n");
    assert!(same_value(&found[1].1, &text("A")));
}

#[test]
fn snapshot_round_trip_reproduces_the_store() {
    let mut db = Database::new_at("one.json", 11);
    db.set_at("users/1/name", text("Alice"), 12).unwrap();
    db.set_at("users/1/tags", Value::Array(strings(&["x", "y"])), 13).unwrap();
    db.set_at("count", Value::Integer(7), 14).unwrap();
    db.set_expiry_at("count", 100, 1000).unwrap();
    let snapshot = db.to_serializable();
    assert_eq!(snapshot.created_at, 11);
    assert_eq!(snapshot.version, "0.1.0");

    let mut fresh = Database::new_at("two.json", 99);
    fresh.import_json(&snapshot);
    assert_eq!(fresh.created_at(), 99);
    assert_eq!(fresh.get_stats_at(0).total_keys, 3);
    assert!(same_value(&fresh.get_at("users/1/name", 0).unwrap(), &text("Alice")));
    assert!(same_value(
        &fresh.get_at("users/1/tags", 0).unwrap(),
        &Value::Array(strings(&["x", "y"]))
    ));
    assert!(same_value(&fresh.get_at("count", 0).unwrap(), &Value::Integer(7)));
    assert_eq!(fresh.ttl_at("count", 1000), Ok(Some(100)));
    let mut keys: Vec<String> = fresh.to_serializable().data.into_iter().map(|p| p.0).collect();
    keys.sort();
    assert_eq!(keys, strings(&["count", "users/1/name", "users/1/tags"]));
}

#[test]
fn import_replaces_entries_and_later_pairs_win() {
    let mut db = Database::new_at("one.json", 1);
    db.set_at("old", Value::Null, 1).unwrap();
    let saved = SerializableDb {
        data: vec![entry("k", Value::Integer(1)), entry("k", Value::Integer(2))],
        created_at: 5,
        last_backup: Some(6),
        version: "9".to_string(),
    };
    db.import_json(&saved);
    assert_eq!(db.get_stats_at(0).total_keys, 1);
    assert!(same_value(&db.get_at("k", 0).unwrap(), &Value::Integer(2)));
    assert_eq!(db.created_at(), 1);
    assert_eq!(db.last_backup(), None);
    assert_eq!(db.version(), "0.1.0");
}

#[test]
fn restore_takes_the_times_of_the_snapshot() {
    let mut db = Database::new_at("one.json", 1);
    db.set_at("old", Value::Null, 1).unwrap();
    let saved = SerializableDb {
        data: vec![entry("k", Value::Integer(1))],
        created_at: 5,
        last_backup: Some(6),
        version: "9".to_string(),
    };
    db.restore_from_backup(&saved);
    assert!(!db.key_exists_at("old", 0));
    assert!(db.key_exists_at("k", 0));
    assert_eq!(db.created_at(), 5);
    assert_eq!(db.last_backup(), Some(6));
    assert_eq!(db.storage_path(), "one.json");
    assert_eq!(db.version(), "0.1.0");
}

#[test]
fn record_backup_sets_the_time_of_the_last_backup() {
    let mut db = Database::new_at("one.json", 1);
    assert_eq!(db.last_backup(), None);
    db.record_backup(44);
    assert_eq!(db.last_backup(), Some(44));
    assert_eq!(db.get_stats().last_backup, Some(44));
    assert_eq!(db.get_detailed_stats().created_at, 1);
}

#[test]
fn new_store_is_empty() {
    let db = Database::new("some/file.json");
    assert_eq!(db.storage_path(), "some/file.json");
    assert_eq!(db.version(), "0.1.0");
    assert_eq!(db.last_backup(), None);
    assert!(db.created_at() > 1_600_000_000);
    assert_eq!(db.to_serializable().data.len(), 0);
}

#[test]
fn stats_of_an_empty_store_are_zero() {
    let db = Database::new("unused.json");
    let stats = db.get_detailed_stats();
    assert_eq!(stats.total_keys, 0);
    assert_eq!(stats.expired_keys, 0);
    assert_eq!(stats.active_keys, 0);
    assert_eq!(stats.keys_with_expiry, 0);
    assert_eq!(stats.string_values, 0);
    assert_eq!(stats.integer_values, 0);
    assert_eq!(stats.float_values, 0);
    assert_eq!(stats.bool_values, 0);
    assert_eq!(stats.array_values, 0);
    assert_eq!(stats.map_values, 0);
    assert_eq!(stats.null_values, 0);
    assert_eq!(stats.total_path_depth, 0);
}

#[test]
fn stats_of_one_key_of_three_segments() {
    let mut db = Database::new("unused.json");
    db.set("a/b/c", Value::Bool(false)).unwrap();
    let stats = db.get_detailed_stats();
    assert_eq!(stats.total_keys, 1);
    assert_eq!(stats.total_path_depth, 3);
    assert_eq!(stats.total_path_depth as f64 / stats.total_keys as f64, 3.0);
    assert_eq!(stats.bool_values, 1);
    assert_eq!(stats.active_keys, 1);
    assert!(stats.memory_usage > 0);
}

#[test]
fn stats_count_kinds_and_expiry() {
    let mut db = Database::new_at("unused.json", 0);
    let mut mapping = HashMap::new();
    mapping.insert("k".to_string(), "v".to_string());
    db.set_at("s/1", text("a"), 0).unwrap();
    db.set_at("s/2", text("b"), 0).unwrap();
    db.set_at("i", Value::Integer(1), 0).unwrap();
    db.set_at("f", Value::Float(2.5f64.to_bits()), 0).unwrap();
    db.set_at("b", Value::Bool(true), 0).unwrap();
    db.set_at("arr/x/y", Value::Array(strings(&["q"])), 0).unwrap();
    db.set_at("m", Value::Mapping(mapping), 0).unwrap();
    db.set_at("n", Value::Null, 0).unwrap();
    db.set_expiry_at("s/1", 10, 100).unwrap();
    db.set_expiry_at("i", 50, 100).unwrap();
    db.set_expiry_at("n", 20, 100).unwrap();
    let stats = db.get_detailed_stats_at(120);
    assert_eq!(stats.total_keys, 8);
    assert_eq!(stats.expired_keys, 2);
    assert_eq!(stats.active_keys, 6);
    assert_eq!(stats.keys_with_expiry, 3);
    assert_eq!(stats.string_values, 2);
    assert_eq!(stats.integer_values, 1);
    assert_eq!(stats.float_values, 1);
    assert_eq!(stats.bool_values, 1);
    assert_eq!(stats.array_values, 1);
    assert_eq!(stats.map_values, 1);
    assert_eq!(stats.null_values, 1);
    assert_eq!(stats.total_path_depth, 12);
    let short = db.get_stats_at(120);
    assert_eq!(short.total_keys, 8);
    assert_eq!(short.expired_keys, 2);
    assert_eq!(db.get_stats_at(99).expired_keys, 0);
    assert_eq!(db.get_stats_at(150).expired_keys, 3);
}

#[test]
fn clear_removes_everything() {
    let mut db = Database::new("unused.json");
    db.set("a", Value::Null).unwrap();
    db.set("b/c", Value::Null).unwrap();
    db.clear();
    assert_eq!(db.get_stats().total_keys, 0);
    assert!(matches!(db.get("a"), Err(DbError::KeyNotFound)));
}

#[test]
fn entries_match_patterns_and_expire() {
    let e = Entry::with_stamp(text("v"), "a/b/c", 9).unwrap();
    assert_eq!(e.created_at, 9);
    assert_eq!(e.updated_at, 9);
    assert_eq!(e.expiry, None);
    assert!(e.matches_pattern(&strings(&["a", "*"])));
    assert!(!e.matches_pattern(&strings(&["b"])));
    assert!(!e.is_expired_at(u64::MAX));
    let mut timed = e.duplicate();
    timed.expiry = Some(10);
    assert!(!timed.is_expired_at(9));
    assert!(timed.is_expired_at(10));
    assert!(timed.is_expired_at(11));
    assert!(matches!(Entry::with_stamp(text("v"), "a/", 9), Err(DbError::InvalidPath)));
    let now = Entry::new(text("v"), "a").unwrap();
    assert_eq!(now.created_at, now.updated_at);
    assert!(now.created_at > 1_600_000_000);
}

#[test]
fn values_read_as_counters() {
    assert_eq!(Value::Integer(4).counter_reading(), Some(4));
    assert_eq!(text("12").counter_reading(), Some(12));
    assert_eq!(text("+12").counter_reading(), Some(12));
    assert_eq!(text("twelve").counter_reading(), None);
    assert_eq!(text("9223372036854775808").counter_reading(), None);
    assert_eq!(Value::Null.counter_reading(), None);
    assert_eq!(Value::Float(1.0f64.to_bits()).counter_reading(), None);
    assert!(same_value(&Value::Array(strings(&["a"])).duplicate(), &Value::Array(strings(&["a"]))));
}

#[test]
fn timestamps_before_the_epoch_count_as_zero() {
    assert_eq!(pathdb::clock::unsigned_seconds(-5), 0);
    assert_eq!(pathdb::clock::unsigned_seconds(0), 0);
    assert_eq!(pathdb::clock::unsigned_seconds(1234), 1234);
}

#[test]
fn signs_and_zeros_in_written_numbers() {
    assert_eq!(text("-").counter_reading(), None);
    assert_eq!(text("+").counter_reading(), None);
    assert_eq!(text("+-5").counter_reading(), None);
    assert_eq!(text("5-").counter_reading(), None);
    assert_eq!(text("1_000").counter_reading(), None);
    assert_eq!(text("5 ").counter_reading(), None);
    assert_eq!(text("1.0").counter_reading(), None);
    assert_eq!(text("\u{663}").counter_reading(), None);
    assert_eq!(text("007").counter_reading(), Some(7));
    assert_eq!(text("-0").counter_reading(), Some(0));
    assert_eq!(text("0000000000000000000000000012").counter_reading(), Some(12));
    assert_eq!(text("9223372036854775807").counter_reading(), Some(i64::MAX));
    assert_eq!(text("-9223372036854775808").counter_reading(), Some(i64::MIN));
    assert_eq!(text("-9223372036854775809").counter_reading(), None);
    let mut db = Database::new("unused.json");
    db.set("low", text("-9223372036854775808")).unwrap();
    assert_eq!(db.increment("low"), Ok(i64::MIN + 1));
    db.set("top", text("9223372036854775807")).unwrap();
    assert_eq!(db.increment("top"), Err(DbError::InvalidType));
}

#[test]
fn errors_say_what_went_wrong() {
    assert_eq!(DbError::KeyNotFound.message(), "Key not found");
    assert_eq!(DbError::InvalidType.message(), "Invalid value type");
    assert_eq!(DbError::InvalidPath.message(), "Invalid path format");
    assert_eq!(DbError::Io("disk full".to_string()).message(), "IO error: disk full");
    assert_eq!(
        DbError::Serialization("bad token".to_string()).message(),
        "Serialization error: bad token"
    );
    assert_eq!(DbError::System("dd failed".to_string()).message(), "System error: dd failed");
    assert_eq!(DbError::Mount("EPERM".to_string()).message(), "Mount error: EPERM");
}

#[test]
fn snapshot_lists_every_key_once() {
    let mut db = Database::new("unused.json");
    for i in 0..50 {
        db.set(&format!("k/{}", i % 25), Value::Integer(i)).unwrap();
    }
    let snapshot = db.to_serializable();
    assert_eq!(snapshot.data.len(), 25);
    assert_eq!(db.get_stats().total_keys, 25);
    let mut keys: Vec<String> = snapshot.data.iter().map(|p| p.0.clone()).collect();
    keys.sort();
    keys.dedup();
    assert_eq!(keys.len(), 25);
    for (key, entry) in snapshot.data.iter() {
        assert_eq!(entry.path_components, split_path(key));
        assert!(same_value(&db.get(key).unwrap(), &entry.value));
    }
}

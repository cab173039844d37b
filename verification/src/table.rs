//! The concurrent hash table that holds the entries, and what is taken on
//! trust about it.

use crate::entry::{Entry, EntryView};
use dashmap::DashMap;
use vstd::prelude::*;

verus! {

/// `dashmap::DashMap`, taken as an opaque type: nothing inside a table is
/// visible to the verifier.
#[verifier::external_type_specification]
#[verifier::external_body]
#[verifier::reject_recursive_types(K)]
#[verifier::reject_recursive_types(V)]
#[verifier::reject_recursive_types(S)]
pub struct ExDashMap<K, V, S>(dashmap::DashMap<K, V, S>);

/// What a table holds: the content of the entry stored under each key.
pub uninterp spec fn table_contents(t: DashMap<String, Entry>) -> Map<Seq<char>, EntryView>;

/// The content of a table that holds nothing.
pub open spec fn empty_contents() -> Map<Seq<char>, EntryView> {
    Map::empty()
}

/// The key of the `i`-th listed pair.
pub open spec fn key_at(items: Seq<(String, Entry)>, i: int) -> Seq<char> {
    items[i].0@
}

/// `items` lists `m`: each pair is a key of `m` with the entry stored under
/// it, no key is listed twice, and every key of `m` is listed.
pub open spec fn lists(items: Seq<(String, Entry)>, m: Map<Seq<char>, EntryView>) -> bool {
    &&& forall|i: int|
        0 <= i < items.len() ==> m.contains_key(#[trigger] key_at(items, i)) && m[key_at(items, i)]
            == items[i].1@
    &&& forall|i: int, j: int|
        0 <= i < j < items.len() ==> #[trigger] key_at(items, i) != #[trigger] key_at(items, j)
    &&& forall|k: Seq<char>| #[trigger]
        m.contains_key(k) ==> exists|i: int| 0 <= i < items.len() && key_at(items, i) == k
}

/// `m` has finitely many keys, `n` of them.
pub open spec fn counts(m: Map<Seq<char>, EntryView>, n: usize) -> bool {
    m.dom().finite() && m.len() == n
}

/// The keys of a listing, in its order.
pub open spec fn keys_of(items: Seq<(String, Entry)>) -> Seq<Seq<char>> {
    Seq::new(items.len(), |i: int| key_at(items, i))
}

/// A map that can be listed is finite and has as many keys as the listing
/// has pairs.
pub proof fn lemma_listed_is_finite(items: Seq<(String, Entry)>, m: Map<Seq<char>, EntryView>)
    requires
        lists(items, m),
    ensures
        m.dom().finite(),
        m.len() == items.len(),
        m.dom() == keys_of(items).to_set(),
{
    let keys = keys_of(items);
    assert(keys.no_duplicates()) by {
        assert forall|i: int, j: int|
            0 <= i < keys.len() && 0 <= j < keys.len() && i != j implies keys[i] != keys[j] by {
            if i < j {
                assert(key_at(items, i) != key_at(items, j));
            } else {
                assert(key_at(items, j) != key_at(items, i));
            }
        }
    }
    assert(keys.to_set() =~= m.dom()) by {
        assert forall|k: Seq<char>| keys.to_set().contains(k) <==> m.dom().contains(k) by {
            if keys.to_set().contains(k) {
                let i = choose|i: int| 0 <= i < keys.len() && keys[i] == k;
                assert(m.contains_key(key_at(items, i)));
            }
            if m.contains_key(k) {
                let i = choose|i: int| 0 <= i < items.len() && key_at(items, i) == k;
                assert(keys[i] == k);
            }
        }
    }
    keys.unique_seq_to_set();
    vstd::seq_lib::seq_to_set_is_finite(keys);
}

/// `DashMap::new`: a table that holds nothing.
#[verifier::external_body]
pub(crate) fn table_new() -> (t: DashMap<String, Entry>)
    ensures
        table_contents(t) == empty_contents(),
{
    DashMap::new()
}

/// `DashMap::insert`: afterwards the key holds the given entry, replacing
/// what it held before, and every other key is as it was.
#[verifier::external_body]
pub(crate) fn table_insert(t: &mut DashMap<String, Entry>, key: String, entry: Entry)
    ensures
        table_contents(*final(t)) == table_contents(*old(t)).insert(key@, entry@),
{
    t.insert(key, entry);
}

/// `DashMap::get`: a copy of the entry stored under the key, if there is
/// one.
#[verifier::external_body]
pub(crate) fn table_get(t: &DashMap<String, Entry>, key: &str) -> (r: Option<Entry>)
    ensures
        r is Some <==> table_contents(*t).contains_key(key@),
        r is Some ==> r->0@ == table_contents(*t)[key@],
{
    match t.get(key) {
        Some(found) => Some(found.value().duplicate()),
        None => None,
    }
}

/// `DashMap::remove`: afterwards the key holds nothing and every other key
/// is as it was; the result tells whether the key held an entry.
#[verifier::external_body]
pub(crate) fn table_remove(t: &mut DashMap<String, Entry>, key: &str) -> (r: bool)
    ensures
        r == table_contents(*old(t)).contains_key(key@),
        table_contents(*final(t)) == table_contents(*old(t)).remove(key@),
{
    t.remove(key).is_some()
}

/// `DashMap::len`: the number of keys, of which there are finitely many.
#[verifier::external_body]
pub(crate) fn table_len(t: &DashMap<String, Entry>) -> (n: usize)
    ensures
        counts(table_contents(*t), n),
{
    t.len()
}

/// `DashMap::clear`: afterwards the table holds nothing.
#[verifier::external_body]
pub(crate) fn table_clear(t: &mut DashMap<String, Entry>)
    ensures
        table_contents(*final(t)) == empty_contents(),
{
    t.clear();
}

/// `DashMap::iter`: copies of all pairs, each key once, in the order in
/// which the table yields them, which is not specified.
#[verifier::external_body]
pub(crate) fn table_entries(t: &DashMap<String, Entry>) -> (items: Vec<(String, Entry)>)
    ensures
        lists(items@, table_contents(*t)),
{
    t.iter().map(|pair| (pair.key().clone(), pair.value().duplicate())).collect()
}

/// `std::mem::size_of_val` of the table: the bytes of the container itself,
/// which depend on the target and not on what the table holds.
#[verifier::external_body]
pub(crate) fn table_footprint(t: &DashMap<String, Entry>) -> u64 {
    std::mem::size_of_val(t) as u64
}

} // verus!

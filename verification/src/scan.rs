//! Scans over a listing of the store: counting, selecting by pattern, and
//! collecting child names, each tied back to the map the listing came from.

use crate::entry::{Entry, EntryView};
use crate::path::{
    is_strictly_below, matches_pattern, segments_match, strictly_below, texts,
};
use crate::table::{key_at, lists};
use crate::value::{Value, ValueView};
use vstd::prelude::*;

verus! {

/// A condition on an entry that a scan can ask for.
pub ghost enum Query {
    /// The deadline has passed at the given time.
    Expired(u64),
    /// The deadline, if any, has not passed at the given time.
    Active(u64),
    /// The entry has a deadline.
    WithExpiry,
    Strings,
    Integers,
    Floats,
    Bools,
    Arrays,
    Mappings,
    Nulls,
    /// The entry's segments match the given pattern.
    Matching(Seq<Seq<char>>),
    /// Any entry at all.
    Any,
}

/// Whether an entry meets the condition.
pub open spec fn satisfies(e: EntryView, q: Query) -> bool {
    match q {
        Query::Expired(now) => e.expired_at(now),
        Query::Active(now) => !e.expired_at(now),
        Query::WithExpiry => e.expiry is Some,
        Query::Strings => e.value is String,
        Query::Integers => e.value is Integer,
        Query::Floats => e.value is Float,
        Query::Bools => e.value is Bool,
        Query::Arrays => e.value is Array,
        Query::Mappings => e.value is Mapping,
        Query::Nulls => e.value is Null,
        Query::Matching(pattern) => segments_match(pattern, e.path),
        Query::Any => true,
    }
}

/// The keys of `m` whose entries meet the condition.
pub open spec fn members(m: Map<Seq<char>, EntryView>, q: Query) -> Set<Seq<char>> {
    Set::new(|k: Seq<char>| m.contains_key(k) && satisfies(m[k], q))
}

/// How many of the first `n` listed entries meet the condition.
pub open spec fn count_upto(items: Seq<(String, Entry)>, q: Query, n: nat) -> nat
    decreases n,
{
    if n == 0 || n > items.len() {
        0
    } else if satisfies(items[n - 1].1@, q) {
        count_upto(items, q, (n - 1) as nat) + 1
    } else {
        count_upto(items, q, (n - 1) as nat)
    }
}

/// The keys among the first `n` listed pairs whose entries meet the
/// condition.
pub open spec fn hits(items: Seq<(String, Entry)>, q: Query, n: nat) -> Set<Seq<char>> {
    Set::new(
        |k: Seq<char>|
            exists|j: int|
                0 <= j < n && #[trigger] key_at(items, j) == k && satisfies(items[j].1@, q),
    )
}

/// One more listed pair adds its key to the hits exactly when its entry
/// meets the condition.
pub proof fn lemma_hits_step(items: Seq<(String, Entry)>, q: Query, p: nat)
    requires
        p < items.len(),
    ensures
        satisfies(items[p as int].1@, q) ==> hits(items, q, p + 1) == hits(items, q, p).insert(
            key_at(items, p as int),
        ),
        !satisfies(items[p as int].1@, q) ==> hits(items, q, p + 1) == hits(items, q, p),
{
    let n = p + 1;
    let k = key_at(items, p as int);
    let grown = if satisfies(items[p as int].1@, q) {
        hits(items, q, p).insert(k)
    } else {
        hits(items, q, p)
    };
    assert forall|x: Seq<char>| hits(items, q, n).contains(x) implies grown.contains(x) by {
        let j = choose|j: int|
            0 <= j < n && #[trigger] key_at(items, j) == x && satisfies(items[j].1@, q);
        if j < p {
            assert(hits(items, q, p).contains(x));
        }
    }
    assert forall|x: Seq<char>| grown.contains(x) implies hits(items, q, n).contains(x) by {
        if hits(items, q, p).contains(x) {
            let j = choose|j: int|
                0 <= j < p && #[trigger] key_at(items, j) == x && satisfies(items[j].1@, q);
            assert(0 <= j < n && key_at(items, j) == x);
        } else {
            assert(key_at(items, p as int) == x);
        }
    }
    assert(hits(items, q, n) =~= grown);
}

/// A key listed at position `p` is not among the hits of the pairs before
/// it.
pub proof fn lemma_key_is_new(
    items: Seq<(String, Entry)>,
    m: Map<Seq<char>, EntryView>,
    q: Query,
    p: nat,
)
    requires
        lists(items, m),
        p < items.len(),
    ensures
        !hits(items, q, p).contains(key_at(items, p as int)),
{
    let k = key_at(items, p as int);
    if hits(items, q, p).contains(k) {
        let j = choose|j: int|
            0 <= j < p && #[trigger] key_at(items, j) == k && satisfies(items[j].1@, q);
        assert(key_at(items, j) != key_at(items, p as int));
    }
}

/// Counting along a listing counts keys: the first `n` pairs hold as many
/// hits as the count says, and never more than `n`.
pub proof fn lemma_count_hits(
    items: Seq<(String, Entry)>,
    m: Map<Seq<char>, EntryView>,
    q: Query,
    n: nat,
)
    requires
        lists(items, m),
        n <= items.len(),
    ensures
        hits(items, q, n).finite(),
        hits(items, q, n).len() == count_upto(items, q, n),
        count_upto(items, q, n) <= n,
    decreases n,
{
    if n == 0 {
        assert(hits(items, q, n) =~= Set::<Seq<char>>::empty());
    } else {
        let p = (n - 1) as nat;
        lemma_count_hits(items, m, q, p);
        lemma_hits_step(items, q, p);
        lemma_key_is_new(items, m, q, p);
    }
}

/// The hits of a whole listing are the members of the map it lists.
pub proof fn lemma_all_hits(items: Seq<(String, Entry)>, m: Map<Seq<char>, EntryView>, q: Query)
    requires
        lists(items, m),
    ensures
        hits(items, q, items.len()) == members(m, q),
        members(m, q).finite(),
        members(m, q).len() == count_upto(items, q, items.len()),
{
    lemma_count_hits(items, m, q, items.len());
    assert(hits(items, q, items.len()) =~= members(m, q)) by {
        assert forall|x: Seq<char>| hits(items, q, items.len()).contains(x) implies members(
            m,
            q,
        ).contains(x) by {
            let j = choose|j: int|
                0 <= j < items.len() && #[trigger] key_at(items, j) == x && satisfies(
                    items[j].1@,
                    q,
                );
            assert(m.contains_key(key_at(items, j)));
        }
        assert forall|x: Seq<char>| members(m, q).contains(x) implies hits(
            items,
            q,
            items.len(),
        ).contains(x) by {
            let j = choose|j: int| 0 <= j < items.len() && key_at(items, j) == x;
            assert(m.contains_key(key_at(items, j)));
        }
    }
}

/// The keys and value contents of a vector of found pairs.
pub open spec fn found_view(out: Seq<(String, Value)>) -> Seq<(Seq<char>, ValueView)> {
    Seq::new(out.len(), |i: int| (out[i].0@, out[i].1@))
}

/// The key and value of the `j`-th listed pair.
pub open spec fn pair_at(items: Seq<(String, Entry)>, j: int) -> (Seq<char>, ValueView) {
    (key_at(items, j), items[j].1@.value)
}

/// Among the first `n` listed pairs, those whose segments match the
/// pattern, in listing order, each as its key and value.
pub open spec fn selected(items: Seq<(String, Entry)>, pattern: Seq<Seq<char>>, n: nat) -> Seq<
    (Seq<char>, ValueView),
>
    decreases n,
{
    if n == 0 || n > items.len() {
        Seq::empty()
    } else if segments_match(pattern, items[n - 1].1@.path) {
        selected(items, pattern, (n - 1) as nat).push(pair_at(items, n - 1))
    } else {
        selected(items, pattern, (n - 1) as nat)
    }
}

/// `found` answers the pattern over `m`: every pair is a matching key of
/// `m` with its value, no key comes twice, and no matching key is missing.
pub open spec fn finds(
    found: Seq<(Seq<char>, ValueView)>,
    m: Map<Seq<char>, EntryView>,
    pattern: Seq<Seq<char>>,
) -> bool {
    &&& forall|i: int|
        0 <= i < found.len() ==> {
            let k = (#[trigger] found[i]).0;
            m.contains_key(k) && segments_match(pattern, m[k].path) && found[i].1 == m[k].value
        }
    &&& forall|i: int, j: int|
        0 <= i < j < found.len() ==> (#[trigger] found[i]).0 != (#[trigger] found[j]).0
    &&& forall|k: Seq<char>|
        #[trigger] m.contains_key(k) && segments_match(pattern, m[k].path) ==> exists|i: int|
            0 <= i < found.len() && (#[trigger] found[i]).0 == k
}

/// The `i`-th found pair is a matching pair among the first `n` listed.
pub open spec fn has_origin(
    items: Seq<(String, Entry)>,
    pattern: Seq<Seq<char>>,
    found: Seq<(Seq<char>, ValueView)>,
    i: int,
    n: nat,
) -> bool {
    exists|j: int|
        0 <= j < n && segments_match(pattern, items[j].1@.path) && #[trigger] pair_at(items, j)
            == found[i]
}

/// The `i`-th and `i2`-th found pairs are listed in that order among the
/// first `n` pairs.
pub open spec fn in_listing_order(
    items: Seq<(String, Entry)>,
    found: Seq<(Seq<char>, ValueView)>,
    i: int,
    i2: int,
    n: nat,
) -> bool {
    exists|j: int, j2: int|
        0 <= j < j2 < n && #[trigger] pair_at(items, j) == found[i] && #[trigger] pair_at(
            items,
            j2,
        ) == found[i2]
}

/// The `j`-th listed pair is among the found ones.
pub open spec fn is_found(
    items: Seq<(String, Entry)>,
    found: Seq<(Seq<char>, ValueView)>,
    j: int,
) -> bool {
    exists|i: int| 0 <= i < found.len() && #[trigger] found[i] == pair_at(items, j)
}

/// Each selected pair comes from a matching listed pair, selected pairs
/// keep the listing order, and each matching listed pair is selected.
pub proof fn lemma_selected_origin(items: Seq<(String, Entry)>, pattern: Seq<Seq<char>>, n: nat)
    requires
        n <= items.len(),
    ensures
        forall|i: int|
            0 <= i < selected(items, pattern, n).len() ==> #[trigger] has_origin(
                items,
                pattern,
                selected(items, pattern, n),
                i,
                n,
            ),
        forall|i: int, i2: int|
            0 <= i < i2 < selected(items, pattern, n).len() ==> #[trigger] in_listing_order(
                items,
                selected(items, pattern, n),
                i,
                i2,
                n,
            ),
        forall|j: int|
            0 <= j < n && segments_match(pattern, items[j].1@.path) ==> #[trigger] is_found(
                items,
                selected(items, pattern, n),
                j,
            ),
    decreases n,
{
    if n > 0 {
        let p = (n - 1) as nat;
        lemma_selected_origin(items, pattern, p);
        let before = selected(items, pattern, p);
        let now = selected(items, pattern, n);
        let grew = segments_match(pattern, items[p as int].1@.path);
        assert(grew ==> now == before.push(pair_at(items, p as int)));
        assert(!grew ==> now == before);
        assert forall|i: int| 0 <= i < now.len() implies #[trigger] has_origin(
            items,
            pattern,
            now,
            i,
            n,
        ) by {
            if i < before.len() {
                assert(has_origin(items, pattern, before, i, p));
                let j = choose|j: int|
                    0 <= j < p && segments_match(pattern, items[j].1@.path) && #[trigger] pair_at(
                        items,
                        j,
                    ) == before[i];
                assert(pair_at(items, j) == now[i]);
            } else {
                assert(pair_at(items, p as int) == now[i]);
            }
        }
        assert forall|i: int, i2: int| 0 <= i < i2 < now.len() implies #[trigger] in_listing_order(
            items,
            now,
            i,
            i2,
            n,
        ) by {
            if i2 < before.len() {
                assert(in_listing_order(items, before, i, i2, p));
                let (j, j2) = choose|j: int, j2: int|
                    0 <= j < j2 < p && #[trigger] pair_at(items, j) == before[i]
                        && #[trigger] pair_at(items, j2) == before[i2];
                assert(pair_at(items, j) == now[i] && pair_at(items, j2) == now[i2]);
            } else {
                assert(has_origin(items, pattern, before, i, p));
                let j = choose|j: int|
                    0 <= j < p && segments_match(pattern, items[j].1@.path) && #[trigger] pair_at(
                        items,
                        j,
                    ) == before[i];
                assert(pair_at(items, j) == now[i] && pair_at(items, p as int) == now[i2]);
            }
        }
        assert forall|j: int|
            0 <= j < n && segments_match(pattern, items[j].1@.path) implies #[trigger] is_found(
            items,
            now,
            j,
        ) by {
            if j < p {
                assert(is_found(items, before, j));
                let i = choose|i: int|
                    0 <= i < before.len() && #[trigger] before[i] == pair_at(items, j);
                assert(now[i] == pair_at(items, j));
            } else {
                assert(now[before.len() as int] == pair_at(items, j));
            }
        }
    }
}

/// Selecting along a listing of `m` answers the pattern over `m`.
pub proof fn lemma_selected_finds(
    items: Seq<(String, Entry)>,
    m: Map<Seq<char>, EntryView>,
    pattern: Seq<Seq<char>>,
)
    requires
        lists(items, m),
    ensures
        finds(selected(items, pattern, items.len()), m, pattern),
{
    let found = selected(items, pattern, items.len());
    lemma_selected_origin(items, pattern, items.len());
    assert forall|i: int| 0 <= i < found.len() implies {
        let k = (#[trigger] found[i]).0;
        m.contains_key(k) && segments_match(pattern, m[k].path) && found[i].1 == m[k].value
    } by {
        assert(has_origin(items, pattern, found, i, items.len()));
        let j = choose|j: int|
            0 <= j < items.len() && segments_match(pattern, items[j].1@.path)
                && #[trigger] pair_at(items, j) == found[i];
        assert(m.contains_key(key_at(items, j)));
    }
    assert forall|i: int, i2: int| 0 <= i < i2 < found.len() implies (#[trigger] found[i]).0 != (
    #[trigger] found[i2]).0 by {
        assert(in_listing_order(items, found, i, i2, items.len()));
        let (j, j2) = choose|j: int, j2: int|
            0 <= j < j2 < items.len() && #[trigger] pair_at(items, j) == found[i]
                && #[trigger] pair_at(items, j2) == found[i2];
        assert(key_at(items, j) != key_at(items, j2));
    }
    assert forall|k: Seq<char>| #[trigger]
        m.contains_key(k) && segments_match(pattern, m[k].path) implies exists|i: int|
        0 <= i < found.len() && (#[trigger] found[i]).0 == k by {
        let j = choose|j: int| 0 <= j < items.len() && key_at(items, j) == k;
        assert(m.contains_key(key_at(items, j)));
        assert(is_found(items, found, j));
        let i = choose|i: int| 0 <= i < found.len() && #[trigger] found[i] == pair_at(items, j);
        assert(found[i].0 == k);
    }
}

/// Picks from a listing the pairs whose segments match the pattern, in
/// listing order, each with a copy of its value.
pub fn select_matching(items: &Vec<(String, Entry)>, pattern: &Vec<String>) -> (out: Vec<
    (String, Value),
>)
    ensures
        found_view(out@) == selected(items@, texts(pattern@), items@.len()),
{
    let mut out: Vec<(String, Value)> = Vec::new();
    let mut i: usize = 0;
    assert(found_view(out@) =~= selected(items@, texts(pattern@), 0));
    while i < items.len()
        invariant
            i <= items.len(),
            found_view(out@) == selected(items@, texts(pattern@), i as nat),
        decreases items.len() - i,
    {
        if items[i].1.matches_pattern(pattern) {
            let key = items[i].0.clone();
            let value = items[i].1.value.duplicate();
            let ghost before = out@;
            out.push((key, value));
            assert(found_view(out@) =~= found_view(before).push(pair_at(items@, i as int)));
        }
        i += 1;
    }
    out
}

/// The name directly below `prefix` on the path of the `j`-th listed
/// entry, where that path lies strictly below `prefix`.
pub open spec fn child_at(items: Seq<(String, Entry)>, prefix: Seq<Seq<char>>, j: int) -> Option<
    Seq<char>,
> {
    let path = items[j].1@.path;
    if strictly_below(prefix, path) {
        Some(path[prefix.len() as int])
    } else {
        None
    }
}

/// The distinct child names below `prefix` among the first `n` listed
/// entries, in the order in which they are first seen.
pub open spec fn children(items: Seq<(String, Entry)>, prefix: Seq<Seq<char>>, n: nat) -> Seq<
    Seq<char>,
>
    decreases n,
{
    if n == 0 || n > items.len() {
        Seq::empty()
    } else {
        let before = children(items, prefix, (n - 1) as nat);
        match child_at(items, prefix, n - 1) {
            Some(name) => if before.contains(name) {
                before
            } else {
                before.push(name)
            },
            None => before,
        }
    }
}

/// `name` is the segment directly below `prefix` on the path of some entry
/// of `m`.
pub open spec fn is_child(
    m: Map<Seq<char>, EntryView>,
    prefix: Seq<Seq<char>>,
    name: Seq<char>,
) -> bool {
    exists|k: Seq<char>|
        #[trigger] m.contains_key(k) && strictly_below(prefix, m[k].path)
            && m[k].path[prefix.len() as int] == name
}

/// `names` holds each child name below `prefix` in `m` exactly once.
pub open spec fn names_children(
    names: Seq<Seq<char>>,
    m: Map<Seq<char>, EntryView>,
    prefix: Seq<Seq<char>>,
) -> bool {
    &&& names.no_duplicates()
    &&& forall|name: Seq<char>| #[trigger] names.contains(name) <==> is_child(m, prefix, name)
}

/// `name` is a child name of one of the first `n` listed entries.
pub open spec fn seen_child(
    items: Seq<(String, Entry)>,
    prefix: Seq<Seq<char>>,
    name: Seq<char>,
    n: nat,
) -> bool {
    exists|j: int| 0 <= j < n && #[trigger] child_at(items, prefix, j) == Some(name)
}

/// The collected names are distinct and are exactly the child names seen.
pub proof fn lemma_children_seen(items: Seq<(String, Entry)>, prefix: Seq<Seq<char>>, n: nat)
    requires
        n <= items.len(),
    ensures
        children(items, prefix, n).no_duplicates(),
        forall|name: Seq<char>| #[trigger]
            children(items, prefix, n).contains(name) <==> seen_child(items, prefix, name, n),
    decreases n,
{
    if n > 0 {
        let p = (n - 1) as nat;
        lemma_children_seen(items, prefix, p);
        let before = children(items, prefix, p);
        let now = children(items, prefix, n);
        let c = child_at(items, prefix, p as int);
        if c is Some && !before.contains(c->0) {
            assert(now == before.push(c->0));
            assert forall|i: int, j: int|
                0 <= i < now.len() && 0 <= j < now.len() && i != j implies now[i] != now[j] by {
                if i < before.len() {
                    assert(before.contains(before[i]));
                }
                if j < before.len() {
                    assert(before.contains(before[j]));
                }
            }
        } else {
            assert(now == before);
        }
        assert forall|name: Seq<char>| #[trigger]
            now.contains(name) <==> seen_child(items, prefix, name, n) by {
            if now.contains(name) {
                let i = choose|i: int| 0 <= i < now.len() && now[i] == name;
                if i < before.len() && before[i] == name {
                    assert(before.contains(name));
                    assert(seen_child(items, prefix, name, p));
                    let j = choose|j: int|
                        0 <= j < p && #[trigger] child_at(items, prefix, j) == Some(name);
                    assert(0 <= j < n && child_at(items, prefix, j) == Some(name));
                } else {
                    assert(child_at(items, prefix, p as int) == Some(name));
                }
            }
            if seen_child(items, prefix, name, n) {
                let j = choose|j: int|
                    0 <= j < n && #[trigger] child_at(items, prefix, j) == Some(name);
                if j < p {
                    assert(seen_child(items, prefix, name, p));
                    assert(before.contains(name));
                    let i = choose|i: int| 0 <= i < before.len() && before[i] == name;
                    assert(now[i] == name);
                } else {
                    if before.contains(name) {
                        let i = choose|i: int| 0 <= i < before.len() && before[i] == name;
                        assert(now[i] == name);
                    } else {
                        assert(now[before.len() as int] == name);
                    }
                }
            }
        }
    }
}

/// Collecting along a listing of `m` yields the child names of `m`.
pub proof fn lemma_children_named(
    items: Seq<(String, Entry)>,
    m: Map<Seq<char>, EntryView>,
    prefix: Seq<Seq<char>>,
)
    requires
        lists(items, m),
    ensures
        names_children(children(items, prefix, items.len()), m, prefix),
{
    let names = children(items, prefix, items.len());
    lemma_children_seen(items, prefix, items.len());
    assert forall|name: Seq<char>| #[trigger]
        names.contains(name) <==> is_child(m, prefix, name) by {
        if names.contains(name) {
            assert(seen_child(items, prefix, name, items.len()));
            let j = choose|j: int|
                0 <= j < items.len() && #[trigger] child_at(items, prefix, j) == Some(name);
            assert(m.contains_key(key_at(items, j)));
        }
        if is_child(m, prefix, name) {
            let k = choose|k: Seq<char>|
                #[trigger] m.contains_key(k) && strictly_below(prefix, m[k].path)
                    && m[k].path[prefix.len() as int] == name;
            let j = choose|j: int| 0 <= j < items.len() && key_at(items, j) == k;
            assert(m.contains_key(key_at(items, j)));
            assert(child_at(items, prefix, j) == Some(name));
            assert(seen_child(items, prefix, name, items.len()));
        }
    }
}

/// Tells whether a vector of strings holds the given text.
pub fn contains_text(v: &Vec<String>, s: &String) -> (r: bool)
    ensures
        r == texts(v@).contains(s@),
{
    let mut i: usize = 0;
    while i < v.len()
        invariant
            i <= v.len(),
            forall|j: int| 0 <= j < i ==> texts(v@)[j] != s@,
        decreases v.len() - i,
    {
        assert(texts(v@)[i as int] == v@[i as int]@);
        if v[i] == *s {
            return true;
        }
        i += 1;
    }
    false
}

/// Collects from a listing the distinct names directly below `prefix`, in
/// the order in which they are first seen.
pub fn child_names(items: &Vec<(String, Entry)>, prefix: &Vec<String>) -> (out: Vec<String>)
    ensures
        texts(out@) == children(items@, texts(prefix@), items@.len()),
{
    let mut out: Vec<String> = Vec::new();
    let mut i: usize = 0;
    assert(texts(out@) =~= children(items@, texts(prefix@), 0));
    while i < items.len()
        invariant
            i <= items.len(),
            texts(out@) == children(items@, texts(prefix@), i as nat),
        decreases items.len() - i,
    {
        let path = &items[i].1.path_components;
        if is_strictly_below(prefix, path) {
            let name = &path[prefix.len()];
            assert(texts(path@)[prefix@.len() as int] == name@);
            assert(texts(prefix@).len() == prefix@.len());
            if !contains_text(&out, name) {
                let ghost before = out@;
                out.push(name.clone());
                assert(texts(out@) =~= texts(before).push(name@));
            }
        }
        i += 1;
    }
    out
}

/// The number of path segments of the first `n` listed entries together.
pub open spec fn depth_upto(items: Seq<(String, Entry)>, n: nat) -> nat
    decreases n,
{
    if n == 0 || n > items.len() {
        0
    } else {
        depth_upto(items, (n - 1) as nat) + items[n - 1].1@.path.len()
    }
}

/// The step of the depth sum over `m`: adds the number of path segments of
/// the entry under `k`.
pub open spec fn depth_step(m: Map<Seq<char>, EntryView>) -> spec_fn(nat, Seq<char>) -> nat {
    |acc: nat, k: Seq<char>| acc + m[k].path.len()
}

/// The number of path segments of all entries of `m` together.
pub open spec fn total_depth(m: Map<Seq<char>, EntryView>) -> nat {
    m.dom().fold(0nat, depth_step(m))
}

/// Summing depths along the first `n` pairs of a listing of `m` sums them
/// over the keys of those pairs.
pub proof fn lemma_depth_hits(items: Seq<(String, Entry)>, m: Map<Seq<char>, EntryView>, n: nat)
    requires
        lists(items, m),
        n <= items.len(),
    ensures
        hits(items, Query::Any, n).fold(0nat, depth_step(m)) == depth_upto(items, n),
    decreases n,
{
    let f = depth_step(m);
    assert(vstd::set::fold::is_fun_commutative(f));
    if n == 0 {
        assert(hits(items, Query::Any, n) =~= Set::<Seq<char>>::empty());
        vstd::set::fold::lemma_fold_empty::<Seq<char>, nat>(0nat, f);
    } else {
        let p = (n - 1) as nat;
        let k = key_at(items, p as int);
        lemma_depth_hits(items, m, p);
        lemma_hits_step(items, Query::Any, p);
        lemma_key_is_new(items, m, Query::Any, p);
        lemma_count_hits(items, m, Query::Any, p);
        vstd::set::fold::lemma_fold_insert(hits(items, Query::Any, p), 0nat, f, k);
        assert(m.contains_key(key_at(items, p as int)));
        assert(m[k] == items[p as int].1@);
    }
}

/// Summing depths along a listing of `m` gives the total depth of `m`,
/// whatever the order of the listing.
pub proof fn lemma_total_depth(items: Seq<(String, Entry)>, m: Map<Seq<char>, EntryView>)
    requires
        lists(items, m),
    ensures
        total_depth(m) == depth_upto(items, items.len()),
{
    lemma_depth_hits(items, m, items.len());
    lemma_all_hits(items, m, Query::Any);
    assert(members(m, Query::Any) =~= m.dom());
}

/// The map built by inserting the first `n` listed pairs in order.
pub open spec fn loaded(items: Seq<(String, Entry)>, n: nat) -> Map<Seq<char>, EntryView>
    decreases n,
{
    if n == 0 || n > items.len() {
        Map::empty()
    } else {
        loaded(items, (n - 1) as nat).insert(key_at(items, n - 1), items[n - 1].1@)
    }
}

/// Loading the first `n` pairs of a listing of `m` yields `m` restricted to
/// the keys of those pairs.
pub proof fn lemma_loaded_prefix(items: Seq<(String, Entry)>, m: Map<Seq<char>, EntryView>, n: nat)
    requires
        lists(items, m),
        n <= items.len(),
    ensures
        forall|k: Seq<char>| #[trigger]
            loaded(items, n).contains_key(k) ==> m.contains_key(k) && loaded(items, n)[k] == m[k],
        forall|j: int| 0 <= j < n ==> loaded(items, n).contains_key(#[trigger] key_at(items, j)),
    decreases n,
{
    if n > 0 {
        let p = (n - 1) as nat;
        lemma_loaded_prefix(items, m, p);
        assert(m.contains_key(key_at(items, p as int)));
        assert(loaded(items, n) == loaded(items, p).insert(
            key_at(items, p as int),
            items[p as int].1@,
        ));
        assert forall|k: Seq<char>| #[trigger]
            loaded(items, n).contains_key(k) implies m.contains_key(k) && loaded(items, n)[k]
            == m[k] by {
            if k != key_at(items, p as int) {
                assert(loaded(items, p).contains_key(k));
            }
        }
        assert forall|j: int| 0 <= j < n implies loaded(items, n).contains_key(
            #[trigger] key_at(items, j),
        ) by {
            if j < p {
                assert(loaded(items, p).contains_key(key_at(items, j)));
            }
        }
    }
}

/// A snapshot round trip: loading a listing of a store into an empty store
/// yields the same keys with the same entries.
pub proof fn law_load_listing(items: Seq<(String, Entry)>, m: Map<Seq<char>, EntryView>)
    requires
        lists(items, m),
    ensures
        loaded(items, items.len()) == m,
{
    lemma_loaded_prefix(items, m, items.len());
    let got = loaded(items, items.len());
    assert forall|k: Seq<char>| m.contains_key(k) implies got.contains_key(k) by {
        let j = choose|j: int| 0 <= j < items.len() && key_at(items, j) == k;
        assert(got.contains_key(key_at(items, j)));
    }
    assert(got =~= m);
}

} // verus!

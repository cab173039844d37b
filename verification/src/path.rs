//! Path keys: splitting a key into segments and matching segments against
//! wildcard patterns.

use vstd::prelude::*;
use vstd::string::*;

verus! {

/// The segments of the first `n` characters of `s`, split at every `/`.
///
/// The empty prefix is a single empty segment; a `/` closes the current
/// segment and opens a new empty one; any other character extends the last
/// segment.
pub open spec fn split_prefix(s: Seq<char>, n: nat) -> Seq<Seq<char>>
    decreases n,
{
    if n == 0 || n > s.len() {
        seq![Seq::<char>::empty()]
    } else {
        let before = split_prefix(s, (n - 1) as nat);
        if s[n - 1] == '/' {
            before.push(Seq::<char>::empty())
        } else {
            before.update(before.len() - 1, before.last().push(s[n - 1]))
        }
    }
}

/// The segments of `s`: the pieces between its `/` characters, in order.
pub open spec fn segments_of(s: Seq<char>) -> Seq<Seq<char>> {
    split_prefix(s, s.len())
}

/// The segments put together again, with a `/` between neighbours.
pub open spec fn joined(segs: Seq<Seq<char>>) -> Seq<char>
    decreases segs.len(),
{
    if segs.len() == 0 {
        Seq::empty()
    } else if segs.len() == 1 {
        segs[0]
    } else {
        joined(segs.drop_last()).push('/') + segs.last()
    }
}

/// Splitting a prefix yields at least one segment, no segment holds a `/`,
/// and joining the segments gives the prefix back.
pub proof fn lemma_split_prefix(s: Seq<char>, n: nat)
    requires
        n <= s.len(),
    ensures
        split_prefix(s, n).len() >= 1,
        forall|i: int, j: int|
            0 <= i < split_prefix(s, n).len() && 0 <= j < split_prefix(s, n)[i].len()
                ==> #[trigger] split_prefix(s, n)[i][j] != '/',
        joined(split_prefix(s, n)) == s.subrange(0, n as int),
    decreases n,
{
    let now = split_prefix(s, n);
    if n == 0 {
        assert(joined(now) =~= s.subrange(0, 0));
    } else {
        let p = (n - 1) as nat;
        lemma_split_prefix(s, p);
        let before = split_prefix(s, p);
        let c = s[n - 1];
        assert(s.subrange(0, p as int).push(c) =~= s.subrange(0, n as int));
        if c == '/' {
            assert(now.drop_last() =~= before);
            assert(joined(now) =~= joined(before).push('/'));
        } else {
            let last = before.last();
            assert(now.last() == last.push(c));
            if before.len() == 1 {
                assert(joined(now) =~= joined(before).push(c));
            } else {
                assert(now.drop_last() =~= before.drop_last());
                assert(joined(now) =~= joined(before).push(c));
            }
            assert forall|i: int, j: int|
                0 <= i < now.len() && 0 <= j < now[i].len() implies #[trigger] now[i][j]
                != '/' by {
                if i < now.len() - 1 {
                    assert(now[i][j] == before[i][j]);
                } else if j < last.len() {
                    assert(now[i][j] == before[i][j]);
                }
            }
        }
    }
}

/// The segments of a text hold no `/`, and joined with `/` they give the
/// text back: splitting loses nothing and cuts at every `/`.
pub proof fn law_segments_rejoin(s: Seq<char>)
    ensures
        segments_of(s).len() >= 1,
        forall|i: int, j: int|
            0 <= i < segments_of(s).len() && 0 <= j < segments_of(s)[i].len()
                ==> #[trigger] segments_of(s)[i][j] != '/',
        joined(segments_of(s)) == s,
{
    lemma_split_prefix(s, s.len());
    assert(s.subrange(0, s.len() as int) =~= s);
}

/// The character sequences held by a vector of strings.
pub open spec fn texts(v: Seq<String>) -> Seq<Seq<char>> {
    Seq::new(v.len(), |i: int| v[i]@)
}

/// A key is well formed when it is not empty and neither starts nor ends
/// with `/`.
pub open spec fn valid_path(s: Seq<char>) -> bool {
    s.len() > 0 && s[0] != '/' && s[s.len() - 1] != '/'
}

/// The wildcard segment, `*`.
pub open spec fn wildcard() -> Seq<char> {
    seq!['*']
}

/// A pattern matches a path when it is no longer than the path and each of
/// its segments is the wildcard or equals the path's segment at the same
/// position. Segments of the path beyond the pattern are unconstrained.
pub open spec fn segments_match(pattern: Seq<Seq<char>>, path: Seq<Seq<char>>) -> bool {
    &&& pattern.len() <= path.len()
    &&& forall|i: int|
        0 <= i < pattern.len() ==> (#[trigger] pattern[i] == wildcard() || pattern[i] == path[i])
}

/// `path` lies strictly below `prefix`: it starts with the segments of
/// `prefix` and has at least one more.
pub open spec fn strictly_below(prefix: Seq<Seq<char>>, path: Seq<Seq<char>>) -> bool {
    &&& prefix.len() < path.len()
    &&& forall|i: int| 0 <= i < prefix.len() ==> #[trigger] prefix[i] == path[i]
}

/// Splits `s` at every `/` into owned segments.
pub fn split_path(s: &str) -> (out: Vec<String>)
    ensures
        texts(out@) == segments_of(s@),
{
    let n = s.unicode_len();
    let mut done: Vec<String> = Vec::new();
    let mut start: usize = 0;
    let mut i: usize = 0;
    proof {
        assert(s@.subrange(0, 0) =~= Seq::<char>::empty());
        assert(split_prefix(s@, 0) =~= texts(done@).push(s@.subrange(0, 0)));
    }
    while i < n
        invariant
            n == s@.len(),
            start <= i <= n,
            split_prefix(s@, i as nat) == texts(done@).push(s@.subrange(start as int, i as int)),
        decreases n - i,
    {
        let c = s.get_char(i);
        if c == '/' {
            let piece = s.substring_char(start, i).to_owned();
            proof {
                assert(texts(done@.push(piece)) =~= texts(done@).push(piece@));
                assert(s@.subrange(i + 1, i + 1) =~= Seq::<char>::empty());
            }
            done.push(piece);
            start = i + 1;
        } else {
            proof {
                let before = texts(done@).push(s@.subrange(start as int, i as int));
                assert(s@.subrange(start as int, i as int).push(c) =~= s@.subrange(
                    start as int,
                    i + 1,
                ));
                assert(before.update(before.len() - 1, before.last().push(c)) =~= texts(
                    done@,
                ).push(s@.subrange(start as int, i + 1)));
            }
        }
        i += 1;
    }
    let piece = s.substring_char(start, n).to_owned();
    proof {
        assert(texts(done@.push(piece)) =~= texts(done@).push(piece@));
    }
    done.push(piece);
    done
}

/// Tells whether `s` is the single character `*`.
pub fn is_wildcard(s: &String) -> (r: bool)
    ensures
        r == (s@ == wildcard()),
{
    let t = s.as_str();
    if t.unicode_len() == 1 {
        let c = t.get_char(0);
        proof {
            if c == '*' {
                assert(s@ =~= wildcard());
            }
        }
        c == '*'
    } else {
        false
    }
}

/// Tests a segment sequence against a wildcard pattern.
pub fn matches_pattern(pattern: &Vec<String>, path: &Vec<String>) -> (r: bool)
    ensures
        r == segments_match(texts(pattern@), texts(path@)),
{
    if pattern.len() > path.len() {
        return false;
    }
    let mut i: usize = 0;
    while i < pattern.len()
        invariant
            pattern.len() <= path.len(),
            i <= pattern.len(),
            forall|j: int|
                0 <= j < i ==> (#[trigger] texts(pattern@)[j] == wildcard() || texts(pattern@)[j]
                    == texts(path@)[j]),
        decreases pattern.len() - i,
    {
        if !is_wildcard(&pattern[i]) && pattern[i] != path[i] {
            assert(texts(pattern@)[i as int] == pattern@[i as int]@);
            assert(texts(path@)[i as int] == path@[i as int]@);
            return false;
        }
        assert(texts(pattern@)[i as int] == pattern@[i as int]@);
        assert(texts(path@)[i as int] == path@[i as int]@);
        i += 1;
    }
    true
}

/// Tests whether `path` lies strictly below `prefix`.
pub fn is_strictly_below(prefix: &Vec<String>, path: &Vec<String>) -> (r: bool)
    ensures
        r == strictly_below(texts(prefix@), texts(path@)),
{
    if prefix.len() >= path.len() {
        return false;
    }
    let mut i: usize = 0;
    while i < prefix.len()
        invariant
            prefix.len() < path.len(),
            i <= prefix.len(),
            forall|j: int| 0 <= j < i ==> #[trigger] texts(prefix@)[j] == texts(path@)[j],
        decreases prefix.len() - i,
    {
        assert(texts(prefix@)[i as int] == prefix@[i as int]@);
        assert(texts(path@)[i as int] == path@[i as int]@);
        if prefix[i] != path[i] {
            return false;
        }
        i += 1;
    }
    true
}

} // verus!

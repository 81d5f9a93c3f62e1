//! Ordered maps (`indexmap::IndexMap`), and maps from round numbers to rounds.
//!
//! The contents of such a map are modelled as the sequence of its key-value
//! pairs in the map's order. Lookups go to the first pair with the key (the
//! map never holds two pairs with one key, but nothing here relies on it).
use vstd::prelude::*;
use indexmap::IndexMap;
use crate::state::Round;

verus! {

#[verifier::external_type_specification]
#[verifier::external_body]
#[verifier::reject_recursive_types(K)]
#[verifier::reject_recursive_types(V)]
#[verifier::reject_recursive_types(S)]
pub struct ExIndexMap<K, V, S>(IndexMap<K, V, S>);

/// The key-value pairs that a map of rounds holds, in the map's order.
pub uninterp spec fn round_entries(m: IndexMap<usize, Round>) -> Seq<(usize, Round)>;

/// Position of the first pair with key `k`, or -1 when there is none.
pub open spec fn key_index<K, V>(s: Seq<(K, V)>, k: K) -> int
    decreases s.len(),
{
    if s.len() == 0 {
        -1
    } else {
        let r = key_index(s.drop_last(), k);
        if r >= 0 {
            r
        } else if s.last().0 == k {
            s.len() - 1
        } else {
            -1
        }
    }
}

/// The pairs after inserting `(k, v)`: an existing key keeps its place and
/// takes the new value; a new key goes last.
pub open spec fn entries_insert<K, V>(s: Seq<(K, V)>, k: K, v: V) -> Seq<(K, V)> {
    let i = key_index(s, k);
    if i >= 0 {
        s.update(i, (k, v))
    } else {
        s.push((k, v))
    }
}

/// The pairs after removing key `k`, the others keeping their order.
pub open spec fn entries_remove<K, V>(s: Seq<(K, V)>, k: K) -> Seq<(K, V)> {
    let i = key_index(s, k);
    if i >= 0 {
        s.remove(i)
    } else {
        s
    }
}

/// The value stored under key `k`.
pub open spec fn entries_get<K, V>(s: Seq<(K, V)>, k: K) -> Option<V> {
    let i = key_index(s, k);
    if i >= 0 {
        Some(s[i].1)
    } else {
        None
    }
}

/// No two pairs share a key.
pub open spec fn keys_distinct<K, V>(s: Seq<(K, V)>) -> bool {
    forall|i: int, j: int| 0 <= i < j < s.len() ==> s[i].0 != s[j].0
}

/// What `key_index` finds: the first pair with the key, or no pair with it.
pub proof fn lemma_key_index<K, V>(s: Seq<(K, V)>, k: K)
    ensures
        -1 <= key_index(s, k) < s.len(),
        key_index(s, k) == -1 <==> (forall|j: int| 0 <= j < s.len() ==> s[j].0 != k),
        key_index(s, k) >= 0 ==> s[key_index(s, k)].0 == k,
        forall|j: int| 0 <= j < key_index(s, k) ==> s[j].0 != k,
    decreases s.len(),
{
    if s.len() > 0 {
        let t = s.drop_last();
        lemma_key_index(t, k);
        assert(forall|j: int| 0 <= j < t.len() ==> t[j] == s[j]);
        if key_index(t, k) == -1 {
            assert forall|j: int| 0 <= j < s.len() - 1 implies s[j].0 != k by {
                assert(t[j] == s[j]);
            }
        }
    }
}

/// Inserting under a present key changes only that pair's value, in place;
/// inserting a new key appends the pair.
pub proof fn law_insert_shape<K, V>(s: Seq<(K, V)>, k: K, v: V)
    ensures
        (forall|j: int| 0 <= j < s.len() ==> s[j].0 != k) ==> entries_insert(s, k, v) == s + seq![(k, v)],
        forall|i: int|
            0 <= i < s.len() && s[i].0 == k && (forall|j: int| 0 <= j < i ==> s[j].0 != k) ==> {
                &&& entries_insert(s, k, v).len() == s.len()
                &&& entries_insert(s, k, v)[i] == (k, v)
                &&& forall|j: int| 0 <= j < s.len() && j != i ==> #[trigger] entries_insert(s, k, v)[j] == s[j]
            },
{
    lemma_key_index(s, k);
    if forall|j: int| 0 <= j < s.len() ==> s[j].0 != k {
        assert(s.push((k, v)) =~= s + seq![(k, v)]);
    }
    assert forall|i: int|
        0 <= i < s.len() && s[i].0 == k && (forall|j: int| 0 <= j < i ==> s[j].0 != k) implies {
            &&& entries_insert(s, k, v).len() == s.len()
            &&& entries_insert(s, k, v)[i] == (k, v)
            &&& forall|j: int| 0 <= j < s.len() && j != i ==> #[trigger] entries_insert(s, k, v)[j] == s[j]
        } by {
        let p = key_index(s, k);
        assert(p == i) by {
            if p < i {
                assert(s[p].0 == k);
            } else if p > i {
            }
        }
    }
}

/// Removing a present key drops its first pair and keeps the others in order;
/// removing an absent key changes nothing.
pub proof fn law_remove_shape<K, V>(s: Seq<(K, V)>, k: K)
    ensures
        (forall|j: int| 0 <= j < s.len() ==> s[j].0 != k) ==> entries_remove(s, k) == s,
        forall|i: int|
            0 <= i < s.len() && s[i].0 == k && (forall|j: int| 0 <= j < i ==> s[j].0 != k)
                ==> #[trigger] entries_remove(s, k) == s.take(i) + s.skip(i + 1) && s[i].0 == k,
{
    lemma_key_index(s, k);
    assert forall|i: int|
        0 <= i < s.len() && s[i].0 == k && (forall|j: int| 0 <= j < i ==> s[j].0 != k)
            implies #[trigger] entries_remove(s, k) == s.take(i) + s.skip(i + 1) && s[i].0 == k by {
        let p = key_index(s, k);
        assert(p == i) by {
            if p < i {
                assert(s[p].0 == k);
            }
        }
        assert(s.remove(i) =~= s.take(i) + s.skip(i + 1));
    }
}

/// A value stored under a key is what a later lookup of that key gives.
pub proof fn law_insert_then_get<K, V>(s: Seq<(K, V)>, k: K, v: V)
    ensures
        entries_get(entries_insert(s, k, v), k) == Some(v),
{
    lemma_key_index(s, k);
    let t = entries_insert(s, k, v);
    if key_index(s, k) >= 0 {
        let p = key_index(s, k);
        assert forall|j: int| 0 <= j < t.len() && j != p implies t[j] == s[j] by {}
        lemma_key_index(t, k);
        let q = key_index(t, k);
        assert(t[p].0 == k);
        assert(q == p) by {
            if 0 <= q < p {
                assert(t[q] == s[q]);
            }
        }
    } else {
        assert(t.drop_last() =~= s);
        lemma_key_index(t, k);
    }
}

/// Inserting under one key leaves what every other key gives unchanged.
pub proof fn law_insert_keeps_other_keys<K, V>(s: Seq<(K, V)>, k: K, v: V, other: K)
    requires
        other != k,
    ensures
        entries_get(entries_insert(s, k, v), other) == entries_get(s, other),
{
    lemma_key_index(s, k);
    lemma_key_index(s, other);
    let t = entries_insert(s, k, v);
    lemma_key_index(t, other);
    if key_index(s, k) >= 0 {
        assert(forall|j: int| 0 <= j < t.len() ==> #[trigger] t[j].0 == s[j].0);
        let a = key_index(t, other);
        let b = key_index(s, other);
        if a >= 0 && b >= 0 {
            assert(a == b) by {
                if a < b {
                    assert(s[a].0 == other);
                } else if b < a {
                    assert(t[b].0 == other);
                }
            }
        } else if a >= 0 {
            assert(s[a].0 == other);
        } else if b >= 0 {
            assert(t[b].0 == other);
        }
    } else {
        assert(t.drop_last() =~= s);
    }
}

/// In a map that holds each key once, a removed key is no longer found.
pub proof fn law_remove_then_get<K, V>(s: Seq<(K, V)>, k: K)
    requires
        keys_distinct(s),
    ensures
        entries_get(entries_remove(s, k), k) is None,
{
    lemma_key_index(s, k);
    let t = entries_remove(s, k);
    lemma_key_index(t, k);
    if key_index(s, k) >= 0 {
        let p = key_index(s, k);
        if key_index(t, k) >= 0 {
            let q = key_index(t, k);
            if q < p {
                assert(t[q] == s[q]);
            } else {
                assert(t[q] == s[q + 1]);
            }
        }
    }
}

/// `IndexMap::new`: a map with no pairs.
#[verifier::external_body]
pub(crate) fn round_map_new() -> (m: IndexMap<usize, Round>)
    ensures
        round_entries(m) == Seq::<(usize, Round)>::empty(),
{
    IndexMap::new()
}

/// `IndexMap::len`: the number of pairs.
#[verifier::external_body]
pub(crate) fn round_map_len(m: &IndexMap<usize, Round>) -> (n: usize)
    ensures
        n == round_entries(*m).len(),
{
    m.len()
}

/// `IndexMap::get_index`: the pair at a position, copied out.
#[verifier::external_body]
pub(crate) fn round_map_get_index(m: &IndexMap<usize, Round>, i: usize) -> (r: Option<(usize, Round)>)
    ensures
        i < round_entries(*m).len() ==> r == Some(round_entries(*m)[i as int]),
        i >= round_entries(*m).len() ==> r is None,
{
    match m.get_index(i) {
        Some((k, v)) => Some((*k, *v)),
        None => None,
    }
}

/// `IndexMap::insert`: replaces the value of an existing key in place, or
/// appends a new pair; gives back the value that was replaced.
#[verifier::external_body]
pub(crate) fn round_map_insert(m: &mut IndexMap<usize, Round>, k: usize, v: Round) -> (r: Option<Round>)
    ensures
        round_entries(*final(m)) == entries_insert(round_entries(*old(m)), k, v),
        r == entries_get(round_entries(*old(m)), k),
{
    m.insert(k, v)
}

/// `IndexMap::get`: the value stored under a key, copied out.
#[verifier::external_body]
pub(crate) fn round_map_get(m: &IndexMap<usize, Round>, k: usize) -> (r: Option<Round>)
    ensures
        r == entries_get(round_entries(*m), k),
{
    m.get(&k).copied()
}

/// `IndexMap::shift_remove`: removes the pair with a key, shifting the pairs
/// after it; gives back the removed value.
#[verifier::external_body]
pub(crate) fn round_map_shift_remove(m: &mut IndexMap<usize, Round>, k: usize) -> (r: Option<Round>)
    ensures
        round_entries(*final(m)) == entries_remove(round_entries(*old(m)), k),
        r == entries_get(round_entries(*old(m)), k),
{
    m.shift_remove(&k)
}

/// `IndexMap::clone`: a map with the same pairs in the same order.
#[verifier::external_body]
pub(crate) fn round_map_clone(m: &IndexMap<usize, Round>) -> (r: IndexMap<usize, Round>)
    ensures
        round_entries(r) == round_entries(*m),
{
    m.clone()
}

/// `IndexMap::clear`: removes every pair.
#[verifier::external_body]
pub(crate) fn round_map_clear(m: &mut IndexMap<usize, Round>)
    ensures
        round_entries(*final(m)) == Seq::<(usize, Round)>::empty(),
{
    m.clear()
}

/// A list of rounds keyed by position: the i-th round under key i.
pub open spec fn indexed_entries(rounds: Seq<Round>) -> Seq<(usize, Round)> {
    Seq::new(rounds.len(), |i: int| (i as usize, rounds[i]))
}

/// The values of a sequence of pairs, in order.
pub open spec fn entry_values(s: Seq<(usize, Round)>) -> Seq<Round> {
    s.map_values(|e: (usize, Round)| e.1)
}

/// Looks up `k` among pairs whose keys are all below `bound`: absent when
/// `k` is not below it.
proof fn lemma_key_absent_above(s: Seq<(usize, Round)>, k: usize)
    requires
        forall|j: int| 0 <= j < s.len() ==> s[j].0 < k,
    ensures
        key_index(s, k) == -1,
{
    lemma_key_index(s, k);
}

/// Builds the map that a list of rounds stands for: the i-th round under
/// key i, in list order.
pub fn rounds_from_list(rounds: &Vec<Round>) -> (m: IndexMap<usize, Round>)
    ensures
        round_entries(m) == indexed_entries(rounds@),
{
    let mut m = round_map_new();
    let n = rounds.len();
    let mut i: usize = 0;
    while i < n
        invariant
            n == rounds@.len(),
            i <= n,
            round_entries(m) == indexed_entries(rounds@.take(i as int)),
        decreases n - i,
    {
        let ghost before = round_entries(m);
        proof {
            lemma_key_absent_above(before, i);
        }
        round_map_insert(&mut m, i, rounds[i]);
        assert(round_entries(m) =~= indexed_entries(rounds@.take(i + 1)));
        i = i + 1;
    }
    assert(rounds@.take(n as int) =~= rounds@);
    m
}

/// The rounds of a map, in the map's order.
pub fn rounds_to_list(m: &IndexMap<usize, Round>) -> (v: Vec<Round>)
    ensures
        v@ == entry_values(round_entries(*m)),
{
    let n = round_map_len(m);
    let mut v: Vec<Round> = Vec::new();
    let mut i: usize = 0;
    while i < n
        invariant
            n == round_entries(*m).len(),
            i <= n,
            v@ == entry_values(round_entries(*m).take(i as int)),
        decreases n - i,
    {
        let e = round_map_get_index(m, i);
        match e {
            Some((_, r)) => {
                v.push(r);
            },
            None => {},
        }
        assert(entry_values(round_entries(*m).take(i + 1)) =~= entry_values(
            round_entries(*m).take(i as int),
        ).push(round_entries(*m)[i as int].1));
        i = i + 1;
    }
    assert(round_entries(*m).take(n as int) =~= round_entries(*m));
    v
}

/// Listing the rounds of the map built from a list gives the list back, and
/// that map never holds a key twice.
pub proof fn law_rounds_list_roundtrip(rounds: Seq<Round>)
    requires
        rounds.len() <= usize::MAX,
    ensures
        entry_values(indexed_entries(rounds)) == rounds,
        keys_distinct(indexed_entries(rounds)),
{
    assert(entry_values(indexed_entries(rounds)) =~= rounds);
}

} // verus!

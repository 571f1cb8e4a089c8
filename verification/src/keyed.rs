//! Sequences of named entries with distinct names, as dictionaries keep them: their
//! insertion order, the map they stand for, and how insertion, removal and merging
//! change both.
use vstd::prelude::*;

verus! {

/// Named entries in insertion order.
pub type Keyed<V> = Seq<(Seq<char>, V)>;

/// No name occurs twice.
pub open spec fn distinct_keys<V>(e: Keyed<V>) -> bool {
    forall|i: int, j: int| 0 <= i < j < e.len() ==> #[trigger] e[i].0 != #[trigger] e[j].0
}

/// Some entry has the name `k`.
pub open spec fn has_key<V>(e: Keyed<V>, k: Seq<char>) -> bool {
    exists|i: int| 0 <= i < e.len() && e[i].0 == k
}

/// The map from names to values; a later entry wins over an earlier one of the same name.
pub open spec fn keyed_map<V>(e: Keyed<V>) -> Map<Seq<char>, V>
    decreases e.len(),
{
    if e.len() == 0 {
        Map::empty()
    } else {
        keyed_map(e.drop_last()).insert(e.last().0, e.last().1)
    }
}

/// The entries after mapping `k` to `v`: the value of the entry named `k` replaced in place
/// where there is one, the pair appended otherwise.
pub open spec fn keyed_insert<V>(e: Keyed<V>, k: Seq<char>, v: V) -> Keyed<V> {
    if has_key(e, k) {
        let i = choose|i: int| 0 <= i < e.len() && e[i].0 == k;
        e.update(i, (k, v))
    } else {
        e.push((k, v))
    }
}

/// The entries after adding `v` under `k`: the pair appended when no entry has the name
/// `k`, the entries unchanged otherwise.
pub open spec fn keyed_add<V>(e: Keyed<V>, k: Seq<char>, v: V) -> Keyed<V> {
    if has_key(e, k) {
        e
    } else {
        e.push((k, v))
    }
}

/// The entries without the entry named `k`, the others keeping their order.
pub open spec fn keyed_remove<V>(e: Keyed<V>, k: Seq<char>) -> Keyed<V> {
    if has_key(e, k) {
        let i = choose|i: int| 0 <= i < e.len() && e[i].0 == k;
        e.remove(i)
    } else {
        e
    }
}

/// The entries after inserting each pair of `other` in turn.
pub open spec fn keyed_extend<V>(e: Keyed<V>, other: Keyed<V>) -> Keyed<V>
    decreases other.len(),
{
    if other.len() == 0 {
        e
    } else {
        keyed_insert(keyed_extend(e, other.drop_last()), other.last().0, other.last().1)
    }
}

/// The map has exactly the names of the entries.
pub proof fn lemma_keyed_map_contains<V>(e: Keyed<V>, k: Seq<char>)
    ensures
        keyed_map(e).contains_key(k) <==> has_key(e, k),
    decreases e.len(),
{
    if e.len() > 0 {
        lemma_keyed_map_contains(e.drop_last(), k);
        if keyed_map(e).contains_key(k) && e.last().0 != k {
            let i = choose|i: int| 0 <= i < e.drop_last().len() && e.drop_last()[i].0 == k;
            assert(e[i].0 == k);
        }
        if has_key(e, k) {
            let i = choose|i: int| 0 <= i < e.len() && e[i].0 == k;
            if i < e.len() - 1 {
                assert(e.drop_last()[i].0 == k);
            }
        }
    }
}

/// With distinct names, the map gives each entry's value for its name.
pub proof fn lemma_keyed_map_value<V>(e: Keyed<V>, i: int)
    requires
        distinct_keys(e),
        0 <= i < e.len(),
    ensures
        keyed_map(e).contains_key(e[i].0),
        keyed_map(e)[e[i].0] == e[i].1,
    decreases e.len(),
{
    if i < e.len() - 1 {
        assert(e.drop_last()[i] == e[i]);
        lemma_keyed_map_value(e.drop_last(), i);
        assert(e.last().0 != e[i].0);
    }
}

/// With distinct names, the map has as many names as there are entries.
pub proof fn lemma_keyed_map_len<V>(e: Keyed<V>)
    requires
        distinct_keys(e),
    ensures
        keyed_map(e).dom().finite(),
        keyed_map(e).len() == e.len(),
    decreases e.len(),
{
    if e.len() > 0 {
        lemma_keyed_map_len(e.drop_last());
        lemma_keyed_map_contains(e.drop_last(), e.last().0);
        if keyed_map(e.drop_last()).contains_key(e.last().0) {
            let i = choose|i: int| 0 <= i < e.drop_last().len() && e.drop_last()[i].0 == e.last().0;
            assert(e[i].0 == e[e.len() - 1].0);
        }
    }
}

/// Entries with distinct names whose names are those of `m`, each with its value in `m`,
/// stand for `m`.
proof fn lemma_keyed_map_ext<V>(a: Keyed<V>, m: Map<Seq<char>, V>)
    requires
        distinct_keys(a),
        forall|k: Seq<char>| #[trigger] has_key(a, k) <==> m.contains_key(k),
        forall|i: int| 0 <= i < a.len() ==> m[#[trigger] a[i].0] == a[i].1,
    ensures
        keyed_map(a) == m,
{
    assert forall|k: Seq<char>| #[trigger] keyed_map(a).contains_key(k) <==> m.contains_key(k) by {
        lemma_keyed_map_contains(a, k);
    }
    assert forall|k: Seq<char>| #[trigger] keyed_map(a).contains_key(k) implies keyed_map(a)[k] == m[k] by {
        lemma_keyed_map_contains(a, k);
        let j = choose|j: int| 0 <= j < a.len() && a[j].0 == k;
        lemma_keyed_map_value(a, j);
    }
    assert(keyed_map(a) =~= m);
}

/// Mapping a name keeps names distinct, and the map gains that name with that value.
pub proof fn lemma_keyed_insert<V>(e: Keyed<V>, k: Seq<char>, v: V)
    requires
        distinct_keys(e),
    ensures
        distinct_keys(keyed_insert(e, k, v)),
        keyed_map(keyed_insert(e, k, v)) == keyed_map(e).insert(k, v),
{
    let r = keyed_insert(e, k, v);
    if has_key(e, k) {
        let i = choose|i: int| 0 <= i < e.len() && e[i].0 == k;
        assert(distinct_keys(r));
        let m = keyed_map(e).insert(k, v);
        assert forall|key: Seq<char>| #[trigger] has_key(r, key) <==> m.contains_key(key) by {
            lemma_keyed_map_contains(e, key);
            if has_key(e, key) {
                let j = choose|j: int| 0 <= j < e.len() && e[j].0 == key;
                assert(r[j].0 == key);
            }
            if has_key(r, key) {
                let j = choose|j: int| 0 <= j < r.len() && r[j].0 == key;
                if j != i {
                    assert(e[j].0 == key);
                }
            }
        }
        assert forall|j: int| 0 <= j < r.len() implies m[#[trigger] r[j].0] == r[j].1 by {
            if j != i {
                assert(e[j] == r[j]);
                lemma_keyed_map_value(e, j);
            }
        }
        lemma_keyed_map_ext(r, m);
    } else {
        assert(r.drop_last() =~= e);
        assert(distinct_keys(r)) by {
            assert forall|a: int, b: int| 0 <= a < b < r.len() implies #[trigger] r[a].0 != #[trigger] r[b].0 by {
                if b == e.len() {
                    assert(r[a] == e[a]);
                }
            }
        }
    }
}

/// Mapping the name of the entry at `i` replaces that entry's value in place.
pub proof fn lemma_keyed_insert_at<V>(e: Keyed<V>, i: int, k: Seq<char>)
    requires
        distinct_keys(e),
        0 <= i < e.len(),
        e[i].0 == k,
    ensures
        forall|v: V| #[trigger] keyed_insert(e, k, v) == e.update(i, (k, v)),
{
    assert(has_key(e, k));
    let j = choose|j: int| 0 <= j < e.len() && e[j].0 == k;
    if j < i {
        assert(e[j].0 != e[i].0);
    } else if i < j {
        assert(e[i].0 != e[j].0);
    }
}

/// Removing a name keeps names distinct, and the map loses that name.
pub proof fn lemma_keyed_remove<V>(e: Keyed<V>, k: Seq<char>)
    requires
        distinct_keys(e),
    ensures
        distinct_keys(keyed_remove(e, k)),
        !has_key(keyed_remove(e, k), k),
        keyed_map(keyed_remove(e, k)) == keyed_map(e).remove(k),
{
    let r = keyed_remove(e, k);
    let m = keyed_map(e).remove(k);
    if has_key(e, k) {
        let i = choose|i: int| 0 <= i < e.len() && e[i].0 == k;
        assert forall|a: int| 0 <= a < r.len() implies #[trigger] r[a] == (if a < i { e[a] } else { e[a + 1] }) by {}
        assert(distinct_keys(r)) by {
            assert forall|a: int, b: int| 0 <= a < b < r.len() implies #[trigger] r[a].0 != #[trigger] r[b].0 by {
                let a2 = if a < i { a } else { a + 1 };
                let b2 = if b < i { b } else { b + 1 };
                assert(r[a] == e[a2]);
                assert(r[b] == e[b2]);
            }
        }
        assert(!has_key(r, k)) by {
            if has_key(r, k) {
                let j = choose|j: int| 0 <= j < r.len() && r[j].0 == k;
                let j2 = if j < i { j } else { j + 1 };
                assert(r[j] == e[j2]);
            }
        }
        assert forall|key: Seq<char>| #[trigger] has_key(r, key) <==> m.contains_key(key) by {
            lemma_keyed_map_contains(e, key);
            if has_key(r, key) {
                let j = choose|j: int| 0 <= j < r.len() && r[j].0 == key;
                let j2 = if j < i { j } else { j + 1 };
                assert(r[j] == e[j2]);
            }
            if m.contains_key(key) {
                let j = choose|j: int| 0 <= j < e.len() && e[j].0 == key;
                assert(j != i);
                let j3 = if j < i { j } else { j - 1 };
                assert(r[j3] == e[j]);
            }
        }
        assert forall|j: int| 0 <= j < r.len() implies m[#[trigger] r[j].0] == r[j].1 by {
            let j2 = if j < i { j } else { j + 1 };
            assert(r[j] == e[j2]);
            lemma_keyed_map_value(e, j2);
        }
        lemma_keyed_map_ext(r, m);
    } else {
        lemma_keyed_map_contains(e, k);
        assert(keyed_map(e).remove(k) =~= keyed_map(e));
    }
}

/// A read after a write: once `k` is mapped to `v`, the map gives `v` for `k` and what it
/// gave before for every other name.
pub proof fn lemma_keyed_read_after_write<V>(e: Keyed<V>, k: Seq<char>, v: V, other: Seq<char>)
    requires
        distinct_keys(e),
        other != k,
    ensures
        keyed_map(keyed_insert(e, k, v)).contains_key(k),
        keyed_map(keyed_insert(e, k, v))[k] == v,
        keyed_map(keyed_insert(e, k, v)).contains_key(other) == keyed_map(e).contains_key(other),
        keyed_map(e).contains_key(other) ==> keyed_map(keyed_insert(e, k, v))[other] == keyed_map(e)[other],
{
    lemma_keyed_insert(e, k, v);
}

/// A read after a removal: `k` is gone and every other name keeps its value.
pub proof fn lemma_keyed_read_after_remove<V>(e: Keyed<V>, k: Seq<char>, other: Seq<char>)
    requires
        distinct_keys(e),
        other != k,
    ensures
        !keyed_map(keyed_remove(e, k)).contains_key(k),
        keyed_map(keyed_remove(e, k)).contains_key(other) == keyed_map(e).contains_key(other),
        keyed_map(e).contains_key(other) ==> keyed_map(keyed_remove(e, k))[other] == keyed_map(e)[other],
{
    lemma_keyed_remove(e, k);
}

/// Merging keeps names distinct; the map is the union, the merged entries winning.
pub proof fn lemma_keyed_extend<V>(e: Keyed<V>, other: Keyed<V>)
    requires
        distinct_keys(e),
    ensures
        distinct_keys(keyed_extend(e, other)),
        keyed_map(keyed_extend(e, other)) == keyed_map(e).union_prefer_right(keyed_map(other)),
    decreases other.len(),
{
    if other.len() == 0 {
        assert(keyed_map(e).union_prefer_right(keyed_map(other)) =~= keyed_map(e));
    } else {
        lemma_keyed_extend(e, other.drop_last());
        let mid = keyed_extend(e, other.drop_last());
        lemma_keyed_insert(mid, other.last().0, other.last().1);
        assert(keyed_map(e).union_prefer_right(keyed_map(other.drop_last())).insert(other.last().0, other.last().1)
            =~= keyed_map(e).union_prefer_right(keyed_map(other)));
    }
}

} // verus!

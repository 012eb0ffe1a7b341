//! Sequences of records that are found by a key: the map that such a
//! sequence stands for, and how pushing, replacing and removing a record
//! changes that map.

use vstd::prelude::*;

verus! {

/// Some record of `s` has key `k`.
pub open spec fn has_key<K, V>(s: Seq<V>, key: spec_fn(V) -> K, k: K) -> bool {
    exists|i: int| 0 <= i < s.len() && #[trigger] key(s[i]) == k
}

/// No two records of `s` have the same key.
pub open spec fn keys_unique<K, V>(s: Seq<V>, key: spec_fn(V) -> K) -> bool {
    forall|i: int, j: int|
        0 <= i < s.len() && 0 <= j < s.len() && i != j ==> #[trigger] key(s[i]) != #[trigger] key(
            s[j],
        )
}

/// The position of a record with key `k`.
pub open spec fn index_of<K, V>(s: Seq<V>, key: spec_fn(V) -> K, k: K) -> int {
    choose|i: int| 0 <= i < s.len() && #[trigger] key(s[i]) == k
}

/// The map from keys to records that `s` stands for.
pub open spec fn to_map<K, V>(s: Seq<V>, key: spec_fn(V) -> K) -> Map<K, V> {
    Map::new(|k: K| has_key(s, key, k), |k: K| s[index_of(s, key, k)])
}

/// With unique keys, the record at position `i` is the one that the map
/// holds under its key.
pub proof fn lemma_to_map_at<K, V>(s: Seq<V>, key: spec_fn(V) -> K, i: int)
    requires
        keys_unique(s, key),
        0 <= i < s.len(),
    ensures
        to_map(s, key).dom().contains(key(s[i])),
        to_map(s, key)[key(s[i])] == s[i],
        index_of(s, key, key(s[i])) == i,
{
    let k = key(s[i]);
    assert(has_key(s, key, k));
    let j = index_of(s, key, k);
    assert(0 <= j < s.len() && key(s[j]) == k);
}

/// A key that the map holds is the key of some record.
pub proof fn lemma_to_map_has<K, V>(s: Seq<V>, key: spec_fn(V) -> K, k: K)
    requires
        to_map(s, key).dom().contains(k),
    ensures
        0 <= index_of(s, key, k) < s.len(),
        key(s[index_of(s, key, k)]) == k,
        to_map(s, key)[k] == s[index_of(s, key, k)],
{
    assert(has_key(s, key, k));
}

/// Pushing a record with a new key inserts it into the map.
pub proof fn lemma_to_map_push<K, V>(s: Seq<V>, key: spec_fn(V) -> K, v: V)
    requires
        keys_unique(s, key),
        !has_key(s, key, key(v)),
    ensures
        keys_unique(s.push(v), key),
        to_map(s.push(v), key) == to_map(s, key).insert(key(v), v),
{
    let t = s.push(v);
    assert forall|i: int, j: int| 0 <= i < t.len() && 0 <= j < t.len() && i != j implies key(t[i])
        != key(t[j]) by {
        if i < s.len() && j < s.len() {
            assert(key(s[i]) != key(s[j]));
        } else if i < s.len() {
            assert(key(s[i]) != key(v));
        } else {
            assert(key(s[j]) != key(v));
        }
    }
    let m = to_map(s, key).insert(key(v), v);
    assert forall|k: K| to_map(t, key).dom().contains(k) <==> m.dom().contains(k) by {
        if has_key(t, key, k) {
            let i = index_of(t, key, k);
            if i < s.len() {
                assert(key(s[i]) == k);
            }
        }
        if has_key(s, key, k) {
            let i = index_of(s, key, k);
            assert(key(t[i]) == k);
        }
        if k == key(v) {
            assert(key(t[s.len() as int]) == k);
        }
    }
    assert forall|k: K| to_map(t, key).dom().contains(k) implies to_map(t, key)[k] == m[k] by {
        let i = index_of(t, key, k);
        lemma_to_map_at(t, key, i);
        if i < s.len() {
            lemma_to_map_at(s, key, i);
        }
    }
    assert(to_map(t, key) =~= m);
}

/// Replacing a record by one with the same key replaces it in the map.
pub proof fn lemma_to_map_update<K, V>(s: Seq<V>, key: spec_fn(V) -> K, i: int, v: V)
    requires
        keys_unique(s, key),
        0 <= i < s.len(),
        key(v) == key(s[i]),
    ensures
        keys_unique(s.update(i, v), key),
        to_map(s.update(i, v), key) == to_map(s, key).insert(key(v), v),
{
    let t = s.update(i, v);
    assert forall|a: int, b: int| 0 <= a < t.len() && 0 <= b < t.len() && a != b implies key(t[a])
        != key(t[b]) by {
        assert(key(s[a]) != key(s[b]));
    }
    let m = to_map(s, key).insert(key(v), v);
    assert forall|k: K| to_map(t, key).dom().contains(k) <==> m.dom().contains(k) by {
        if has_key(t, key, k) {
            let j = index_of(t, key, k);
            assert(key(s[j]) == k);
        }
        if has_key(s, key, k) {
            let j = index_of(s, key, k);
            assert(key(t[j]) == k);
        }
        if k == key(v) {
            assert(key(t[i]) == k);
        }
    }
    assert forall|k: K| to_map(t, key).dom().contains(k) implies to_map(t, key)[k] == m[k] by {
        let j = index_of(t, key, k);
        lemma_to_map_at(t, key, j);
        lemma_to_map_at(s, key, j);
    }
    assert(to_map(t, key) =~= m);
}

/// Removing a record removes its key from the map.
pub proof fn lemma_to_map_remove<K, V>(s: Seq<V>, key: spec_fn(V) -> K, i: int)
    requires
        keys_unique(s, key),
        0 <= i < s.len(),
    ensures
        keys_unique(s.remove(i), key),
        to_map(s.remove(i), key) == to_map(s, key).remove(key(s[i])),
{
    let t = s.remove(i);
    assert forall|a: int| 0 <= a < t.len() implies t[a] == s[if a < i { a } else { a + 1 }] by {}
    assert forall|a: int, b: int| 0 <= a < t.len() && 0 <= b < t.len() && a != b implies key(t[a])
        != key(t[b]) by {
        let a2 = if a < i { a } else { a + 1 };
        let b2 = if b < i { b } else { b + 1 };
        assert(key(s[a2]) != key(s[b2]));
    }
    let m = to_map(s, key).remove(key(s[i]));
    assert forall|k: K| to_map(t, key).dom().contains(k) <==> m.dom().contains(k) by {
        if has_key(t, key, k) {
            let j = index_of(t, key, k);
            let j2 = if j < i { j } else { j + 1 };
            assert(key(s[j2]) == k);
            assert(key(s[j2]) != key(s[i]));
        }
        if has_key(s, key, k) && k != key(s[i]) {
            let j = index_of(s, key, k);
            let j2 = if j < i { j } else { j - 1 };
            assert(key(t[j2]) == k);
        }
    }
    assert forall|k: K| to_map(t, key).dom().contains(k) implies to_map(t, key)[k] == m[k] by {
        let j = index_of(t, key, k);
        let j2 = if j < i { j } else { j + 1 };
        lemma_to_map_at(t, key, j);
        lemma_to_map_at(s, key, j2);
    }
    assert(to_map(t, key) =~= m);
}

/// The sum of the weights of the elements of `s`.
pub open spec fn sum_over<A>(s: Seq<A>, weight: spec_fn(A) -> nat) -> nat
    decreases s.len(),
{
    if s.len() == 0 {
        0
    } else {
        sum_over(s.drop_last(), weight) + weight(s.last())
    }
}

/// Pushing an element adds its weight to the sum.
pub proof fn lemma_sum_over_push<A>(s: Seq<A>, weight: spec_fn(A) -> nat, a: A)
    ensures
        sum_over(s.push(a), weight) == sum_over(s, weight) + weight(a),
{
    assert(s.push(a).drop_last() =~= s);
}

/// Removing an element takes its weight out of the sum.
pub proof fn lemma_sum_over_remove<A>(s: Seq<A>, weight: spec_fn(A) -> nat, i: int)
    requires
        0 <= i < s.len(),
    ensures
        sum_over(s.remove(i), weight) + weight(s[i]) == sum_over(s, weight),
    decreases s.len(),
{
    if i < s.len() - 1 {
        lemma_sum_over_remove(s.drop_last(), weight, i);
        assert(s.remove(i).drop_last() =~= s.drop_last().remove(i));
        assert(s.remove(i).last() == s.last());
    } else {
        assert(s.remove(i) =~= s.drop_last());
    }
}

/// Replacing an element exchanges its weight in the sum.
pub proof fn lemma_sum_over_update<A>(s: Seq<A>, weight: spec_fn(A) -> nat, i: int, a: A)
    requires
        0 <= i < s.len(),
    ensures
        sum_over(s.update(i, a), weight) + weight(s[i]) == sum_over(s, weight) + weight(a),
    decreases s.len(),
{
    if i < s.len() - 1 {
        lemma_sum_over_update(s.drop_last(), weight, i, a);
        assert(s.update(i, a).drop_last() =~= s.drop_last().update(i, a));
    } else {
        assert(s.update(i, a).drop_last() =~= s.drop_last());
    }
}

/// No element weighs more than the sum.
pub proof fn lemma_sum_over_bound<A>(s: Seq<A>, weight: spec_fn(A) -> nat, i: int)
    requires
        0 <= i < s.len(),
    ensures
        weight(s[i]) <= sum_over(s, weight),
    decreases s.len(),
{
    if i < s.len() - 1 {
        lemma_sum_over_bound(s.drop_last(), weight, i);
    }
}

/// A weight that is nowhere larger gives a sum that is not larger.
pub proof fn lemma_sum_over_le<A>(s: Seq<A>, lower: spec_fn(A) -> nat, upper: spec_fn(A) -> nat)
    requires
        forall|i: int| 0 <= i < s.len() ==> lower(#[trigger] s[i]) <= upper(s[i]),
    ensures
        sum_over(s, lower) <= sum_over(s, upper),
    decreases s.len(),
{
    if s.len() > 0 {
        assert(lower(s[s.len() - 1]) <= upper(s[s.len() - 1]));
        lemma_sum_over_le(s.drop_last(), lower, upper);
    }
}

/// The weight of a key: that of the record that `s` holds under it.
pub open spec fn weight_by_key<K, V>(s: Seq<V>, key: spec_fn(V) -> K, amount: spec_fn(V) -> nat)
    -> spec_fn(K) -> nat {
    |k: K| amount(to_map(s, key)[k])
}

/// Any selection of keys, each taken once, weighs at most as much as all
/// records together.
pub proof fn lemma_selection_at_most_total<K, V>(
    s: Seq<V>,
    key: spec_fn(V) -> K,
    amount: spec_fn(V) -> nat,
    keys: Seq<K>,
)
    requires
        keys_unique(s, key),
        keys.no_duplicates(),
        forall|i: int| 0 <= i < keys.len() ==> has_key(s, key, #[trigger] keys[i]),
    ensures
        sum_over(keys, weight_by_key(s, key, amount)) <= sum_over(s, amount),
    decreases s.len(),
{
    let w = weight_by_key(s, key, amount);
    if s.len() == 0 {
        if keys.len() > 0 {
            assert(has_key(s, key, keys[0]));
        }
    } else {
        let rest = s.drop_last();
        let last = s.last();
        let w_rest = weight_by_key(rest, key, amount);
        assert forall|i: int, j: int|
            0 <= i < rest.len() && 0 <= j < rest.len() && i != j implies key(rest[i]) != key(
            rest[j],
        ) by {
            assert(key(s[i]) != key(s[j]));
        }
        lemma_to_map_at(s, key, s.len() - 1);
        let chosen = if keys.contains(key(last)) {
            let j = choose|j: int| 0 <= j < keys.len() && keys[j] == key(last);
            lemma_sum_over_remove(keys, w, j);
            keys.remove(j)
        } else {
            keys
        };
        assert forall|i: int| 0 <= i < chosen.len() implies {
            &&& has_key(rest, key, #[trigger] chosen[i])
            &&& w(chosen[i]) == w_rest(chosen[i])
        } by {
            let k = chosen[i];
            assert(keys.contains(k));
            assert(k != key(last)) by {
                if keys.contains(key(last)) {
                    let j = choose|j: int| 0 <= j < keys.len() && keys[j] == key(last);
                    let i2 = if i < j { i } else { i + 1 };
                    assert(keys[i2] == k);
                }
            }
            let at = choose|at: int| 0 <= at < keys.len() && keys[at] == k;
            assert(has_key(s, key, keys[at]));
            let n = index_of(s, key, k);
            lemma_to_map_at(s, key, n);
            assert(key(rest[n]) == k);
            lemma_to_map_at(rest, key, n);
        }
        assert(chosen.no_duplicates()) by {
            if keys.contains(key(last)) {
                let j = choose|j: int| 0 <= j < keys.len() && keys[j] == key(last);
                assert forall|a: int, b: int|
                    0 <= a < chosen.len() && 0 <= b < chosen.len() && a != b implies chosen[a]
                    != chosen[b] by {
                    let a2 = if a < j { a } else { a + 1 };
                    let b2 = if b < j { b } else { b + 1 };
                    assert(keys[a2] != keys[b2]);
                }
            }
        }
        lemma_selection_at_most_total(rest, key, amount, chosen);
        lemma_sum_over_le(chosen, w, w_rest);
    }
}

} // verus!

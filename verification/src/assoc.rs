use vstd::prelude::*;

verus! {

/// The map held by two parallel sequences: `keys[i]` is mapped to `vals[i]`.
pub(crate) open spec fn table<K, V>(keys: Seq<K>, vals: Seq<V>) -> Map<K, V> {
    Map::new(|k: K| keys.contains(k), |k: K| vals[keys.index_of(k)])
}

/// With distinct keys, the entry at place `i` is found under its key.
pub(crate) proof fn lemma_table_at<K, V>(keys: Seq<K>, vals: Seq<V>, i: int)
    requires
        keys.no_duplicates(),
        0 <= i < keys.len(),
    ensures
        keys.contains(keys[i]),
        keys.index_of(keys[i]) == i,
        table(keys, vals).contains_key(keys[i]),
        table(keys, vals)[keys[i]] == vals[i],
{
    let k = keys.index_of(keys[i]);
    assert(keys[k] == keys[i]);
}

/// A key of the table stands at some place, and its value at the same place.
pub(crate) proof fn lemma_table_key<K, V>(keys: Seq<K>, vals: Seq<V>, k: K)
    requires
        table(keys, vals).contains_key(k),
    ensures
        0 <= keys.index_of(k) < keys.len(),
        keys[keys.index_of(k)] == k,
        table(keys, vals)[k] == vals[keys.index_of(k)],
{
}

/// With distinct keys, the table has as many entries as there are keys.
pub(crate) proof fn lemma_table_finite<K, V>(keys: Seq<K>, vals: Seq<V>)
    requires
        keys.no_duplicates(),
    ensures
        table(keys, vals).dom().finite(),
        table(keys, vals).dom().len() == keys.len(),
{
    keys.unique_seq_to_set();
    assert(table(keys, vals).dom() =~= keys.to_set());
}

/// Without keys the table is empty.
pub(crate) proof fn lemma_table_empty<K, V>(keys: Seq<K>, vals: Seq<V>)
    requires
        keys.len() == 0,
    ensures
        table(keys, vals) == Map::<K, V>::empty(),
{
    assert(table(keys, vals) =~= Map::<K, V>::empty());
}

/// Appending an entry under a new key inserts it into the table.
pub(crate) proof fn lemma_table_push<K, V>(keys: Seq<K>, vals: Seq<V>, k: K, v: V)
    requires
        keys.no_duplicates(),
        keys.len() == vals.len(),
        !keys.contains(k),
    ensures
        keys.push(k).no_duplicates(),
        table(keys.push(k), vals.push(v)) == table(keys, vals).insert(k, v),
{
    let keys2 = keys.push(k);
    let vals2 = vals.push(v);
    assert forall|i: int, j: int| 0 <= i < keys2.len() && 0 <= j < keys2.len() && i != j implies keys2[i]
        != keys2[j] by {
        if i < keys.len() {
            assert(keys.contains(keys[i]));
        }
        if j < keys.len() {
            assert(keys.contains(keys[j]));
        }
    }
    assert forall|x: K| #[trigger] table(keys2, vals2).contains_key(x) implies table(
        keys,
        vals,
    ).insert(k, v).contains_key(x) by {
        let p = keys2.index_of(x);
        if p < keys.len() {
            assert(keys[p] == x);
        }
    }
    assert forall|x: K| #[trigger] table(keys, vals).insert(k, v).contains_key(x) implies table(
        keys2,
        vals2,
    ).contains_key(x) && table(keys2, vals2)[x] == table(keys, vals).insert(k, v)[x] by {
        if x == k {
            assert(keys2[keys.len() as int] == k);
            lemma_table_at(keys2, vals2, keys.len() as int);
        } else {
            let p = keys.index_of(x);
            assert(keys2[p] == x);
            lemma_table_at(keys2, vals2, p);
            lemma_table_at(keys, vals, p);
        }
    }
    assert(table(keys2, vals2) =~= table(keys, vals).insert(k, v));
}

/// Taking the entry at place `i` out removes its key from the table.
pub(crate) proof fn lemma_table_remove<K, V>(keys: Seq<K>, vals: Seq<V>, i: int)
    requires
        keys.no_duplicates(),
        keys.len() == vals.len(),
        0 <= i < keys.len(),
    ensures
        keys.remove(i).no_duplicates(),
        table(keys.remove(i), vals.remove(i)) == table(keys, vals).remove(keys[i]),
{
    let keys2 = keys.remove(i);
    let vals2 = vals.remove(i);
    assert forall|a: int, b: int| 0 <= a < keys2.len() && 0 <= b < keys2.len() && a != b implies keys2[a]
        != keys2[b] by {
        let a0 = if a < i { a } else { a + 1 };
        let b0 = if b < i { b } else { b + 1 };
        assert(keys2[a] == keys[a0]);
        assert(keys2[b] == keys[b0]);
    }
    assert forall|x: K| #[trigger] table(keys2, vals2).contains_key(x) implies table(
        keys,
        vals,
    ).remove(keys[i]).contains_key(x) && table(keys2, vals2)[x] == table(keys, vals)[x] by {
        let p = keys2.index_of(x);
        let p0 = if p < i { p } else { p + 1 };
        assert(keys[p0] == x);
        lemma_table_at(keys, vals, p0);
        lemma_table_at(keys2, vals2, p);
    }
    assert forall|x: K| #[trigger] table(keys, vals).remove(keys[i]).contains_key(x) implies table(
        keys2,
        vals2,
    ).contains_key(x) by {
        let p0 = keys.index_of(x);
        let p = if p0 < i { p0 } else { p0 - 1 };
        assert(keys2[p] == x);
    }
    assert(table(keys2, vals2) =~= table(keys, vals).remove(keys[i]));
}

/// Replacing the value at place `i` replaces it in the table.
pub(crate) proof fn lemma_table_update<K, V>(keys: Seq<K>, vals: Seq<V>, i: int, v: V)
    requires
        keys.no_duplicates(),
        keys.len() == vals.len(),
        0 <= i < keys.len(),
    ensures
        table(keys, vals.update(i, v)) == table(keys, vals).insert(keys[i], v),
{
    let vals2 = vals.update(i, v);
    assert forall|x: K| #[trigger] table(keys, vals2).contains_key(x) implies table(keys, vals2)[x]
        == table(keys, vals).insert(keys[i], v)[x] by {
        let p = keys.index_of(x);
        lemma_table_at(keys, vals, p);
        lemma_table_at(keys, vals2, p);
        lemma_table_at(keys, vals, i);
    }
    assert(keys.contains(keys[i]));
    assert(table(keys, vals2) =~= table(keys, vals).insert(keys[i], v));
}

/// Changing every value by `f` changes every value of the table by `f`.
pub(crate) proof fn lemma_table_map<K, V>(keys: Seq<K>, vals: Seq<V>, f: spec_fn(V) -> V)
    requires
        keys.no_duplicates(),
        keys.len() == vals.len(),
    ensures
        table(keys, vals.map_values(f)) == table(keys, vals).map_values(f),
{
    let vals2 = vals.map_values(f);
    assert forall|x: K| #[trigger] table(keys, vals2).contains_key(x) implies table(keys, vals2)[x]
        == f(table(keys, vals)[x]) by {
        let p = keys.index_of(x);
        lemma_table_at(keys, vals, p);
        lemma_table_at(keys, vals2, p);
    }
    assert(table(keys, vals2) =~= table(keys, vals).map_values(f));
}

/// The keys among the first `upto` entries whose value satisfies `pred`.
pub(crate) open spec fn matching<K, V>(
    keys: Seq<K>,
    vals: Seq<V>,
    pred: spec_fn(V) -> bool,
    upto: int,
) -> Set<K> {
    Set::new(|k: K| exists|j: int| 0 <= j < upto && #[trigger] keys[j] == k && pred(vals[j]))
}

/// Among no entries nothing matches.
pub(crate) proof fn lemma_matching_none<K, V>(keys: Seq<K>, vals: Seq<V>, pred: spec_fn(V) -> bool)
    ensures
        matching(keys, vals, pred, 0) == Set::<K>::empty(),
{
    assert(matching(keys, vals, pred, 0) =~= Set::<K>::empty());
}

/// One more entry adds its key to the matching ones where its value
/// matches, and the key was not among them before.
pub(crate) proof fn lemma_matching_step<K, V>(
    keys: Seq<K>,
    vals: Seq<V>,
    pred: spec_fn(V) -> bool,
    i: int,
)
    requires
        keys.no_duplicates(),
        keys.len() == vals.len(),
        0 <= i < keys.len(),
    ensures
        !matching(keys, vals, pred, i).contains(keys[i]),
        pred(vals[i]) ==> matching(keys, vals, pred, i + 1) == matching(keys, vals, pred, i).insert(
            keys[i],
        ),
        !pred(vals[i]) ==> matching(keys, vals, pred, i + 1) == matching(keys, vals, pred, i),
{
    let now = matching(keys, vals, pred, i);
    let next = matching(keys, vals, pred, i + 1);
    if pred(vals[i]) {
        assert forall|k: K| now.insert(keys[i]).contains(k) implies next.contains(k) by {
            if k == keys[i] {
                assert(keys[i] == k && pred(vals[i]));
            } else {
                let j = choose|j: int| 0 <= j < i && #[trigger] keys[j] == k && pred(vals[j]);
                assert(0 <= j < i + 1 && keys[j] == k && pred(vals[j]));
            }
        }
        assert(next =~= now.insert(keys[i]));
    } else {
        assert forall|k: K| now.contains(k) implies next.contains(k) by {
            let j = choose|j: int| 0 <= j < i && #[trigger] keys[j] == k && pred(vals[j]);
            assert(0 <= j < i + 1 && keys[j] == k && pred(vals[j]));
        }
        assert(next =~= now);
    }
}

/// Among all entries, the matching keys are those of the table whose
/// value matches.
pub(crate) proof fn lemma_matching_all<K, V>(keys: Seq<K>, vals: Seq<V>, pred: spec_fn(V) -> bool)
    requires
        keys.no_duplicates(),
        keys.len() == vals.len(),
    ensures
        matching(keys, vals, pred, keys.len() as int) == table(keys, vals).dom().filter(
            |k: K| pred(table(keys, vals)[k]),
        ),
{
    let all = matching(keys, vals, pred, keys.len() as int);
    let picked = table(keys, vals).dom().filter(|k: K| pred(table(keys, vals)[k]));
    assert forall|k: K| all.contains(k) implies picked.contains(k) by {
        let j = choose|j: int| 0 <= j < keys.len() && #[trigger] keys[j] == k && pred(vals[j]);
        lemma_table_at(keys, vals, j);
    }
    assert forall|k: K| picked.contains(k) implies all.contains(k) by {
        lemma_table_key(keys, vals, k);
        let j = keys.index_of(k);
        assert(0 <= j < keys.len() && keys[j] == k && pred(vals[j]));
    }
    assert(all =~= picked);
}

} // verus!

//! Association lists: the mathematical model of the crate's small tables.
//!
//! A table is a sequence of pairs in the order in which the keys were first put in, and no
//! key stands in it twice.  Putting a key that is already there replaces its value where
//! it stands; taking a key out closes the gap.
use vstd::prelude::*;

verus! {

/// No key stands twice in the table.
pub open spec fn keys_distinct<K, V>(s: Seq<(K, V)>) -> bool {
    forall|i: int, j: int|
        0 <= i < j < s.len() ==> (#[trigger] s[i]).0 != (#[trigger] s[j]).0
}

/// The key stands in the table.
pub open spec fn has_key<K, V>(s: Seq<(K, V)>, k: K) -> bool {
    exists|i: int| 0 <= i < s.len() && (#[trigger] s[i]).0 == k
}

/// Where the key stands in the table.
pub open spec fn index_of_key<K, V>(s: Seq<(K, V)>, k: K) -> int
    recommends
        has_key(s, k),
{
    choose|i: int| 0 <= i < s.len() && (#[trigger] s[i]).0 == k
}

/// The value that stands beside the key.
pub open spec fn value_of<K, V>(s: Seq<(K, V)>, k: K) -> V
    recommends
        has_key(s, k),
{
    s[index_of_key(s, k)].1
}

/// The table after `k` was given the value `v`.
pub open spec fn put<K, V>(s: Seq<(K, V)>, k: K, v: V) -> Seq<(K, V)> {
    if has_key(s, k) {
        s.update(index_of_key(s, k), (k, v))
    } else {
        s.push((k, v))
    }
}

/// The table after `k` was taken out.
pub open spec fn without<K, V>(s: Seq<(K, V)>, k: K) -> Seq<(K, V)> {
    if has_key(s, k) {
        s.remove(index_of_key(s, k))
    } else {
        s
    }
}

/// The keys of the table, in order.
pub open spec fn keys<K, V>(s: Seq<(K, V)>) -> Seq<K> {
    s.map_values(|e: (K, V)| e.0)
}

/// The values of the table, in the order of their keys.
pub open spec fn values<K, V>(s: Seq<(K, V)>) -> Seq<V> {
    s.map_values(|e: (K, V)| e.1)
}

/// In a table without a repeated key, a key is found at one index only.
pub proof fn lemma_index_of_key<K, V>(s: Seq<(K, V)>, k: K, i: int)
    requires
        keys_distinct(s),
        0 <= i < s.len(),
        s[i].0 == k,
    ensures
        has_key(s, k),
        index_of_key(s, k) == i,
{
    let j = index_of_key(s, k);
    assert(0 <= j < s.len() && s[j].0 == k);
    if j < i {
        assert(s[j].0 != s[i].0);
    } else if i < j {
        assert(s[i].0 != s[j].0);
    }
}

/// Putting a key keeps the keys distinct, makes the key present with the value given, and
/// leaves every other key as it was.
pub proof fn lemma_put<K, V>(s: Seq<(K, V)>, k: K, v: V)
    requires
        keys_distinct(s),
    ensures
        keys_distinct(put(s, k, v)),
        has_key(put(s, k, v), k),
        value_of(put(s, k, v), k) == v,
        forall|other: K| other != k ==> has_key(put(s, k, v), other) == has_key(s, other),
        forall|other: K|
            other != k && has_key(s, other) ==> value_of(put(s, k, v), other) == value_of(
                s,
                other,
            ),
{
    let t = put(s, k, v);
    let at = if has_key(s, k) {
        index_of_key(s, k)
    } else {
        s.len() as int
    };
    assert(0 <= at < t.len());
    assert(t[at] == (k, v));
    assert forall|i: int, j: int| 0 <= i < j < t.len() implies (#[trigger] t[i]).0 != (
    #[trigger] t[j]).0 by {
        if has_key(s, k) {
            assert(s[at].0 == k);
            if i != at && j != at {
                assert(s[i].0 != s[j].0);
            } else if i == at {
                assert(s[at].0 != s[j].0);
            } else {
                assert(s[i].0 != s[at].0);
            }
        } else {
            if j < s.len() {
                assert(s[i].0 != s[j].0);
            } else {
                assert(s[i].0 != k);
            }
        }
    }
    lemma_index_of_key(t, k, at);
    assert forall|other: K| other != k implies has_key(t, other) == has_key(s, other) by {
        if has_key(s, other) {
            let i = index_of_key(s, other);
            assert(t[i].0 == other);
        }
        if has_key(t, other) {
            let i = index_of_key(t, other);
            assert(i != at);
            assert(s[i].0 == other);
        }
    }
    assert forall|other: K| other != k && has_key(s, other) implies value_of(t, other)
        == value_of(s, other) by {
        let i = index_of_key(s, other);
        assert(t[i] == s[i]);
        lemma_index_of_key(t, other, i);
    }
}

/// Taking a key out keeps the keys distinct, makes the key absent, and leaves every other
/// key as it was.
pub proof fn lemma_without<K, V>(s: Seq<(K, V)>, k: K)
    requires
        keys_distinct(s),
    ensures
        keys_distinct(without(s, k)),
        !has_key(without(s, k), k),
        forall|other: K| other != k ==> has_key(without(s, k), other) == has_key(s, other),
        forall|other: K|
            other != k && has_key(s, other) ==> value_of(without(s, k), other) == value_of(
                s,
                other,
            ),
{
    let t = without(s, k);
    if has_key(s, k) {
        let at = index_of_key(s, k);
        assert forall|i: int| 0 <= i < t.len() implies #[trigger] t[i] == s[if i < at {
            i
        } else {
            i + 1
        }] by {}
        assert forall|i: int, j: int| 0 <= i < j < t.len() implies (#[trigger] t[i]).0 != (
        #[trigger] t[j]).0 by {
            let si = if i < at { i } else { i + 1 };
            let sj = if j < at { j } else { j + 1 };
            assert(s[si].0 != s[sj].0);
        }
        if has_key(t, k) {
            let i = index_of_key(t, k);
            let si = if i < at { i } else { i + 1 };
            assert(s[si].0 == k);
            lemma_index_of_key(s, k, si);
        }
        assert forall|other: K| other != k implies has_key(t, other) == has_key(s, other) by {
            if has_key(s, other) {
                let i = index_of_key(s, other);
                let ti = if i < at { i } else { i - 1 };
                assert(t[ti].0 == other);
            }
            if has_key(t, other) {
                let i = index_of_key(t, other);
                let si = if i < at { i } else { i + 1 };
                assert(s[si].0 == other);
            }
        }
        assert forall|other: K| other != k && has_key(s, other) implies value_of(t, other)
            == value_of(s, other) by {
            let i = index_of_key(s, other);
            let ti = if i < at { i } else { i - 1 };
            assert(t[ti] == s[i]);
            lemma_index_of_key(t, other, ti);
        }
    }
}


/// Keeping some entries of a table keeps its keys distinct.
pub proof fn lemma_filter_keys_distinct<K, V>(s: Seq<(K, V)>, pred: spec_fn((K, V)) -> bool)
    requires
        keys_distinct(s),
    ensures
        keys_distinct(s.filter(pred)),
    decreases s.len(),
{
    reveal(Seq::filter);
    if s.len() > 0 {
        let init = s.drop_last();
        let kept = init.filter(pred);
        assert forall|i: int, j: int| 0 <= i < j < init.len() implies (#[trigger] init[i]).0 != (
        #[trigger] init[j]).0 by {
            assert(init[i] == s[i] && init[j] == s[j]);
        }
        lemma_filter_keys_distinct(init, pred);
        if pred(s.last()) {
            let t = s.filter(pred);
            assert(t == kept.push(s.last()));
            assert forall|i: int, j: int| 0 <= i < j < t.len() implies (#[trigger] t[i]).0 != (
            #[trigger] t[j]).0 by {
                if j < kept.len() {
                    assert(kept[i].0 != kept[j].0);
                } else {
                    assert(kept.contains(kept[i]));
                    init.lemma_filter_contains_rev(pred, kept[i]);
                    let at = init.index_of(kept[i]);
                    assert(0 <= at < init.len() && init[at] == kept[i]);
                    assert(s[at].0 != s[s.len() - 1].0);
                }
            }
        }
    }
}


/// In what is kept of a table, an entry that passes the test is found under its key with
/// its value, and the key of an entry that fails the test is not found.
pub proof fn lemma_filter_has_key<K, V>(s: Seq<(K, V)>, pred: spec_fn((K, V)) -> bool, i: int)
    requires
        keys_distinct(s),
        0 <= i < s.len(),
    ensures
        pred(s[i]) ==> has_key(s.filter(pred), s[i].0) && value_of(s.filter(pred), s[i].0)
            == s[i].1,
        !pred(s[i]) ==> !has_key(s.filter(pred), s[i].0),
{
    let kept = s.filter(pred);
    lemma_filter_keys_distinct(s, pred);
    if pred(s[i]) {
        s.lemma_filter_contains(pred, i);
        let at = kept.index_of(s[i]);
        assert(0 <= at < kept.len() && kept[at] == s[i]);
        lemma_index_of_key(kept, s[i].0, at);
    } else if has_key(kept, s[i].0) {
        let at = index_of_key(kept, s[i].0);
        assert(kept.contains(kept[at]));
        s.lemma_filter_contains_rev(pred, kept[at]);
        let from = s.index_of(kept[at]);
        assert(0 <= from < s.len() && s[from] == kept[at]);
        lemma_index_of_key(s, s[i].0, from);
        lemma_index_of_key(s, s[i].0, i);
        s.lemma_filter_pred(pred, at);
    }
}

/// The keys of a table stand in it without repetition.
pub proof fn lemma_keys_no_duplicates<K, V>(s: Seq<(K, V)>)
    requires
        keys_distinct(s),
    ensures
        keys(s).len() == s.len(),
        forall|i: int, j: int|
            0 <= i < j < s.len() ==> #[trigger] keys(s)[i] != #[trigger] keys(s)[j],
        forall|i: int| 0 <= i < s.len() ==> #[trigger] keys(s)[i] == s[i].0,
{
    assert forall|i: int, j: int| 0 <= i < j < s.len() implies #[trigger] keys(s)[i]
        != #[trigger] keys(s)[j] by {
        assert(s[i].0 != s[j].0);
    }
}

} // verus!

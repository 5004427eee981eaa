//! Lists of pairs in which every key occurs once.
use vstd::prelude::*;

verus! {

/// No key occurs twice.
pub open spec fn has_distinct_keys<K, V>(pairs: Seq<(K, V)>) -> bool {
    forall|i: int, j: int|
        0 <= i < j < pairs.len() ==> (#[trigger] pairs[i]).0 != (#[trigger] pairs[j]).0
}

/// Some pair has this key.
pub open spec fn has_key<K, V>(pairs: Seq<(K, V)>, key: K) -> bool {
    exists|i: int| 0 <= i < pairs.len() && (#[trigger] pairs[i]).0 == key
}

/// The value under `key`.
pub open spec fn lookup<K, V>(pairs: Seq<(K, V)>, key: K) -> Option<V> {
    if has_key(pairs, key) {
        let at = choose|i: int| 0 <= i < pairs.len() && (#[trigger] pairs[i]).0 == key;
        Some(pairs[at].1)
    } else {
        None
    }
}

/// Putting a pair at place `at`, over the one with the same key or behind all others,
/// changes what stands under that key and nothing else.
pub proof fn lemma_put<K, V>(before: Seq<(K, V)>, after: Seq<(K, V)>, at: int)
    requires
        has_distinct_keys(before),
        0 <= at <= before.len(),
        at < before.len() ==> before[at].0 == after[at].0 && after == before.update(at, after[at]),
        at == before.len() ==> after == before.push(after[at]) && !has_key(before, after[at].0),
    ensures
        has_distinct_keys(after),
        lookup(after, after[at].0) == Some(after[at].1),
        forall|key: K| key != after[at].0 ==> lookup(after, key) == #[trigger] lookup(before, key),
{
    assert(after[at].0 == after[at].0 && has_key(after, after[at].0));
    assert forall|key: K| key != after[at].0 implies lookup(after, key) == #[trigger] lookup(
        before,
        key,
    ) by {
        if has_key(before, key) {
            let i = choose|i: int| 0 <= i < before.len() && (#[trigger] before[i]).0 == key;
            assert(after[i] == before[i]);
            assert(after[i].0 == key);
        }
        if has_key(after, key) {
            let i = choose|i: int| 0 <= i < after.len() && (#[trigger] after[i]).0 == key;
            assert(after[i] == before[i]);
            assert(before[i].0 == key);
        }
    }
}

/// Taking the pair at place `at` out changes what stands under its key and nothing else.
pub proof fn lemma_take_out<K, V>(before: Seq<(K, V)>, at: int)
    requires
        has_distinct_keys(before),
        0 <= at < before.len(),
    ensures
        has_distinct_keys(before.remove(at)),
        lookup(before, before[at].0) == Some(before[at].1),
        lookup(before.remove(at), before[at].0) is None,
        forall|key: K|
            key != before[at].0 ==> lookup(before.remove(at), key) == #[trigger] lookup(before, key),
{
    let after = before.remove(at);
    assert(before[at].0 == before[at].0 && has_key(before, before[at].0));
    assert forall|i: int| 0 <= i < after.len() implies #[trigger] after[i] == before[if i < at {
        i
    } else {
        i + 1
    }] by {}
    assert forall|key: K| key != before[at].0 implies lookup(after, key) == #[trigger] lookup(
        before,
        key,
    ) by {
        if has_key(before, key) {
            let i = choose|i: int| 0 <= i < before.len() && (#[trigger] before[i]).0 == key;
            let j = if i < at {
                i
            } else {
                i - 1
            };
            assert(after[j] == before[i]);
            assert(after[j].0 == key);
        }
        if has_key(after, key) {
            let i = choose|i: int| 0 <= i < after.len() && (#[trigger] after[i]).0 == key;
            let j = if i < at {
                i
            } else {
                i + 1
            };
            assert(after[i] == before[j]);
            assert(before[j].0 == key);
        }
    }
}

} // verus!

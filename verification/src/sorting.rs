//! Ordering by priority and name.
use vstd::prelude::*;
use vstd::string::*;

#[allow(unused_imports)]
use crate::permutation::{is_permutation, lemma_permutation_is_complete};

verus! {

/// Lexicographic order of byte strings. It is the order of Rust's strings.
pub open spec fn bytes_le(a: Seq<u8>, b: Seq<u8>) -> bool
    decreases a.len(),
{
    if a.len() == 0 {
        true
    } else if b.len() == 0 {
        false
    } else if a[0] != b[0] {
        a[0] < b[0]
    } else {
        bytes_le(a.drop_first(), b.drop_first())
    }
}

/// Whether `a` comes before `b` in the order of strings, or is the same text.
pub fn name_le(a: &str, b: &str) -> (yes: bool)
    ensures
        yes == bytes_le(a.spec_bytes(), b.spec_bytes()),
{
    let left = a.as_bytes();
    let right = b.as_bytes();
    let mut i: usize = 0;
    proof {
        assert(left@.skip(0) == left@);
        assert(right@.skip(0) == right@);
    }
    while i < left.len() && i < right.len()
        invariant
            left@ == a.spec_bytes(),
            right@ == b.spec_bytes(),
            i <= left@.len(),
            i <= right@.len(),
            bytes_le(left@, right@) == bytes_le(left@.skip(i as int), right@.skip(i as int)),
        decreases left.len() - i,
    {
        proof {
            assert(left@.skip(i as int)[0] == left@[i as int]);
            assert(right@.skip(i as int)[0] == right@[i as int]);
            assert(left@.skip(i as int).drop_first() == left@.skip(i + 1));
            assert(right@.skip(i as int).drop_first() == right@.skip(i + 1));
        }
        if left[i] != right[i] {
            return left[i] < right[i];
        }
        i = i + 1;
    }
    i >= left.len()
}

/// A key: a priority and a name.
pub type SortKey = (u8, &'static str);

/// Lower priorities come first, and with equal priorities the names decide.
pub open spec fn key_le(a: SortKey, b: SortKey) -> bool {
    a.0 < b.0 || (a.0 == b.0 && bytes_le(a.1.spec_bytes(), b.1.spec_bytes()))
}

/// The keys at the given positions never fall.
pub open spec fn is_sorted(keys: Seq<SortKey>, positions: Seq<usize>) -> bool {
    forall|i: int, j: int|
        0 <= i < j < positions.len() ==> key_le(
            keys[#[trigger] positions[i] as int],
            keys[#[trigger] positions[j] as int],
        )
}

proof fn lemma_bytes_le_is_transitive(a: Seq<u8>, b: Seq<u8>, c: Seq<u8>)
    requires
        bytes_le(a, b),
        bytes_le(b, c),
    ensures
        bytes_le(a, c),
    decreases a.len(),
{
    if a.len() > 0 && b.len() > 0 && c.len() > 0 && a[0] == b[0] && b[0] == c[0] {
        lemma_bytes_le_is_transitive(a.drop_first(), b.drop_first(), c.drop_first());
    }
}

proof fn lemma_bytes_le_is_total(a: Seq<u8>, b: Seq<u8>)
    ensures
        bytes_le(a, b) || bytes_le(b, a),
    decreases a.len(),
{
    if a.len() > 0 && b.len() > 0 && a[0] == b[0] {
        lemma_bytes_le_is_total(a.drop_first(), b.drop_first());
    }
}

proof fn lemma_key_le(a: SortKey, b: SortKey, c: SortKey)
    ensures
        key_le(a, b) && key_le(b, c) ==> key_le(a, c),
        key_le(a, b) || key_le(b, a),
{
    lemma_bytes_le_is_total(a.1.spec_bytes(), b.1.spec_bytes());
    if key_le(a, b) && key_le(b, c) && a.0 == c.0 {
        lemma_bytes_le_is_transitive(a.1.spec_bytes(), b.1.spec_bytes(), c.1.spec_bytes());
    }
}

/// Of equal keys, the one that stands first in the list comes first.
pub open spec fn is_stable(keys: Seq<SortKey>, positions: Seq<usize>) -> bool {
    forall|i: int, j: int|
        0 <= i < j < positions.len() && key_le(
            keys[#[trigger] positions[j] as int],
            keys[#[trigger] positions[i] as int],
        ) ==> positions[i] < positions[j]
}

/// The positions of the keys from the first to the last in the order of the keys.
/// Equal keys keep their order in the list.
pub fn sorted_positions(keys: &Vec<SortKey>) -> (positions: Vec<usize>)
    ensures
        is_permutation(positions@, keys@.len()),
        is_sorted(keys@, positions@),
        is_stable(keys@, positions@),
{
    let n: usize = keys.len();
    let mut positions: Vec<usize> = Vec::new();
    let mut next: usize = 0;
    while next < n
        invariant
            n == keys@.len(),
            next <= n,
            is_permutation(positions@, next as nat),
            is_sorted(keys@, positions@),
            is_stable(keys@, positions@),
        decreases n - next,
    {
        let key = keys[next];
        let mut at: usize = 0;
        while at < positions.len() && (keys[positions[at]].0 < key.0 || (keys[positions[at]].0
            == key.0 && name_le(keys[positions[at]].1, key.1)))
            invariant
                n == keys@.len(),
                next < n,
                key == keys@[next as int],
                at <= positions@.len(),
                is_permutation(positions@, next as nat),
                forall|i: int|
                    0 <= i < at ==> key_le(keys@[#[trigger] positions@[i] as int], key),
            decreases positions.len() - at,
        {
            at = at + 1;
        }
        let ghost earlier = positions@;
        positions.insert(at, next);
        proof {
            assert(positions@ == earlier.insert(at as int, next));
            assert forall|i: int| at <= i < earlier.len() implies !key_le(
                keys@[#[trigger] earlier[i] as int],
                key,
            ) && key_le(key, keys@[earlier[i] as int]) by {
                lemma_key_le(keys@[earlier[at as int] as int], key, key);
                lemma_key_le(key, keys@[earlier[at as int] as int], keys@[earlier[i] as int]);
                lemma_key_le(keys@[earlier[at as int] as int], keys@[earlier[i] as int], key);
                lemma_key_le(key, keys@[earlier[at as int] as int], key);
            }
            assert forall|i: int, j: int|
                0 <= i < j < positions@.len() implies key_le(
                keys@[#[trigger] positions@[i] as int],
                keys@[#[trigger] positions@[j] as int],
            ) by {
                let a = if i < at { i } else { i - 1 };
                let b = if j < at { j } else { j - 1 };
                if i != at {
                    assert(positions@[i] == earlier[a]);
                }
                if j != at {
                    assert(positions@[j] == earlier[b]);
                }
            }
            assert forall|i: int, j: int|
                0 <= i < j < positions@.len() && key_le(
                    keys@[#[trigger] positions@[j] as int],
                    keys@[#[trigger] positions@[i] as int],
                ) implies positions@[i] < positions@[j] by {
                let a = if i < at { i } else { i - 1 };
                let b = if j < at { j } else { j - 1 };
                if i != at {
                    assert(positions@[i] == earlier[a]);
                }
                if j != at {
                    assert(positions@[j] == earlier[b]);
                }
            }
            assert(positions@.no_duplicates()) by {
                assert forall|i: int, j: int|
                    0 <= i < positions@.len() && 0 <= j < positions@.len() && i
                        != j implies positions@[i] != positions@[j] by {
                    let a = if i < at { i } else { i - 1 };
                    let b = if j < at { j } else { j - 1 };
                    if i != at {
                        assert(positions@[i] == earlier[a]);
                    }
                    if j != at {
                        assert(positions@[j] == earlier[b]);
                    }
                }
            }
            assert forall|k: int| 0 <= k < positions@.len() implies #[trigger] positions@[k] < next
                + 1 by {
                let a = if k < at { k } else { k - 1 };
                if k != at {
                    assert(positions@[k] == earlier[a]);
                }
            }
        }
        next = next + 1;
    }
    positions
}

/// The order is determined by the keys: no two arrangements are sorted and stable.
pub proof fn law_sorted_positions_are_unique(keys: Seq<SortKey>, a: Seq<usize>, b: Seq<usize>)
    requires
        keys.len() <= usize::MAX,
        is_permutation(a, keys.len()),
        is_sorted(keys, a),
        is_stable(keys, a),
        is_permutation(b, keys.len()),
        is_sorted(keys, b),
        is_stable(keys, b),
    ensures
        a == b,
{
    assert forall|k: int| 0 <= k < a.len() implies a[k] == b[k] by {
        lemma_sorted_positions_agree(keys, a, b, k + 1);
    }
}

proof fn lemma_sorted_positions_agree(
    keys: Seq<SortKey>,
    a: Seq<usize>,
    b: Seq<usize>,
    upto: int,
)
    requires
        keys.len() <= usize::MAX,
        0 <= upto <= keys.len(),
        is_permutation(a, keys.len()),
        is_sorted(keys, a),
        is_stable(keys, a),
        is_permutation(b, keys.len()),
        is_sorted(keys, b),
        is_stable(keys, b),
    ensures
        forall|k: int| 0 <= k < upto ==> a[k] == b[k],
    decreases upto,
{
    if upto > 0 {
        let k = upto - 1;
        lemma_sorted_positions_agree(keys, a, b, k);
        lemma_permutation_is_complete(a, keys.len());
        lemma_permutation_is_complete(b, keys.len());
        if a[k] != b[k] {
            assert(a[k] < keys.len() && b[k] < keys.len());
            assert(a.contains(b[k]) && b.contains(a[k]));
            let i = choose|i: int| 0 <= i < a.len() && a[i] == b[k];
            let j = choose|j: int| 0 <= j < b.len() && b[j] == a[k];
            assert(i > k) by {
                if i < k {
                    assert(b[i] == b[k]);
                }
            }
            assert(j > k) by {
                if j < k {
                    assert(a[j] == a[k]);
                }
            }
            assert(a[k] < a[i]);
            assert(b[k] < b[j]);
        }
    }
}

/// Texts are ordered as in a dictionary: the first byte in which they differ decides, the
/// smaller one first, and where one is the beginning of the other the shorter one comes first.
pub proof fn law_first_difference_decides(a: Seq<u8>, b: Seq<u8>, at: int)
    requires
        0 <= at <= a.len(),
        at <= b.len(),
        a.take(at) == b.take(at),
    ensures
        at < a.len() && at < b.len() && a[at] < b[at] ==> bytes_le(a, b) && !bytes_le(b, a),
        at == a.len() ==> bytes_le(a, b),
        at == a.len() && at < b.len() ==> !bytes_le(b, a),
    decreases at,
{
    if at > 0 {
        assert(a[0] == a.take(at)[0]);
        assert(b[0] == b.take(at)[0]);
        assert(a.drop_first().take(at - 1) == a.take(at).drop_first());
        assert(b.drop_first().take(at - 1) == b.take(at).drop_first());
        law_first_difference_decides(a.drop_first(), b.drop_first(), at - 1);
    }
}

/// What is sorted rises: a lower priority stands first, with equal priorities the text that
/// comes first in the order of texts, and of equal texts the one that was listed first.
pub proof fn law_sorted_positions_rise(keys: Seq<SortKey>, positions: Seq<usize>, i: int, j: int)
    requires
        keys.len() <= usize::MAX,
        is_permutation(positions, keys.len()),
        is_sorted(keys, positions),
        is_stable(keys, positions),
        0 <= i < keys.len(),
        0 <= j < keys.len(),
        i != j,
        keys[i].0 < keys[j].0 || (keys[i].0 == keys[j].0 && bytes_le(
            keys[i].1.spec_bytes(),
            keys[j].1.spec_bytes(),
        ) && (!bytes_le(keys[j].1.spec_bytes(), keys[i].1.spec_bytes()) || i < j)),
    ensures
        exists|p: int, q: int|
            0 <= p < q < positions.len() && #[trigger] positions[p] == i && #[trigger] positions[q]
                == j,
{
    lemma_permutation_is_complete(positions, keys.len());
    assert(positions.contains(i as usize));
    assert(positions.contains(j as usize));
    let p = positions.index_of(i as usize);
    let q = positions.index_of(j as usize);
    assert(positions[p] == i);
    assert(positions[q] == j);
    if q < p {
        assert(key_le(keys[positions[q] as int], keys[positions[p] as int]));
    }
}

} // verus!

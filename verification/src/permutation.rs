//! Sequences of positions: how many there can be, and when none is missing.
use vstd::prelude::*;
#[allow(unused_imports)]
use vstd::set_lib::*;

verus! {

/// The numbers `0`, ..., `n - 1`, each once and in some order.
pub open spec fn is_permutation(positions: Seq<usize>, n: nat) -> bool {
    &&& positions.len() == n
    &&& positions.no_duplicates()
    &&& forall|k: int| 0 <= k < positions.len() ==> #[trigger] positions[k] < n
}

/// Distinct numbers below `n` are at most `n` in number.
pub proof fn lemma_distinct_is_short(numbers: Seq<int>, n: nat)
    requires
        numbers.no_duplicates(),
        forall|k: int| 0 <= k < numbers.len() ==> 0 <= #[trigger] numbers[k] < n,
    ensures
        numbers.len() <= n,
        numbers.len() == n ==> forall|i: int| 0 <= i < n ==> numbers.contains(i),
        numbers.len() < n ==> exists|i: int| 0 <= i < n && !#[trigger] numbers.contains(i),
{
    let all = set_int_range(0, n as int);
    lemma_int_range(0, n as int);
    numbers.unique_seq_to_set();
    let held = numbers.to_set();
    assert(held.subset_of(all)) by {
        assert forall|i: int| held.contains(i) implies all.contains(i) by {
            let k = numbers.index_of(i);
            assert(numbers[k] == i);
        }
    }
    lemma_len_subset(held, all);
    if numbers.len() == n {
        lemma_subset_equality(held, all);
        assert forall|i: int| 0 <= i < n implies numbers.contains(i) by {
            assert(all.contains(i));
            assert(held.contains(i));
        }
    } else {
        if forall|i: int| 0 <= i < n ==> numbers.contains(i) {
            assert(held =~= all) by {
                assert forall|i: int| all.contains(i) implies held.contains(i) by {
                    assert(numbers.contains(i));
                }
            }
        }
    }
}

/// The same of positions: as many distinct positions below `n` as `n` leave none
/// out, and fewer leave one out.
pub proof fn lemma_distinct_positions(positions: Seq<usize>, n: nat)
    requires
        n <= usize::MAX,
        positions.no_duplicates(),
        forall|k: int| 0 <= k < positions.len() ==> #[trigger] positions[k] < n,
    ensures
        positions.len() <= n,
        positions.len() == n ==> forall|i: usize| i < n ==> positions.contains(i),
        positions.len() < n ==> exists|i: usize| i < n && !#[trigger] positions.contains(i),
{
    let numbers = positions.map_values(|p: usize| p as int);
    assert(numbers.no_duplicates()) by {
        assert forall|i: int, j: int| 0 <= i < numbers.len() && 0 <= j < numbers.len() && i
            != j implies numbers[i] != numbers[j] by {
            assert(positions[i] != positions[j]);
        }
    }
    lemma_distinct_is_short(numbers, n);
    assert forall|i: usize| i < n implies (numbers.contains(i as int) <==> positions.contains(i)) by {
        if numbers.contains(i as int) {
            let k = numbers.index_of(i as int);
            assert(positions[k] == i);
        }
        if positions.contains(i) {
            let k = positions.index_of(i);
            assert(numbers[k] == i);
        }
    }
    if positions.len() < n {
        let i = choose|i: int| 0 <= i < n && !#[trigger] numbers.contains(i);
        assert(!positions.contains(i as usize));
    }
}

/// A permutation leaves no position out.
pub proof fn lemma_permutation_is_complete(positions: Seq<usize>, n: nat)
    requires
        n <= usize::MAX,
        is_permutation(positions, n),
    ensures
        forall|i: usize| i < n ==> positions.contains(i),
{
    lemma_distinct_positions(positions, n);
}

/// The items in the given order.
pub open spec fn rearranged<T>(items: Seq<T>, order: Seq<usize>) -> Seq<T> {
    order.map_values(|at: usize| items[at as int])
}

/// Rearranging items neither adds nor loses any.
pub proof fn lemma_rearranged_has_the_same_items<T>(items: Seq<T>, order: Seq<usize>)
    requires
        items.len() <= usize::MAX,
        is_permutation(order, items.len()),
    ensures
        rearranged(items, order).to_multiset() == items.to_multiset(),
    decreases items.len(),
{
    broadcast use vstd::seq_lib::group_to_multiset_ensures;

    if items.len() == 0 {
        assert(rearranged(items, order) == items);
    } else {
        let last = (items.len() - 1) as usize;
        lemma_permutation_is_complete(order, items.len());
        assert(order.contains(last));
        let k = order.index_of(last);
        let fewer = items.drop_last();
        let rest = order.remove(k);
        assert forall|i: int| 0 <= i < rest.len() implies #[trigger] rest[i] < fewer.len() by {
            let j = if i < k {
                i
            } else {
                i + 1
            };
            assert(rest[i] == order[j]);
            assert(order[j] != order[k]);
            assert(order[j] < items.len());
        }
        assert(rest.no_duplicates());
        lemma_rearranged_has_the_same_items(fewer, rest);
        let all = rearranged(items, order);
        assert(all.remove(k) == rearranged(fewer, rest)) by {
            assert forall|i: int| 0 <= i < rest.len() implies all.remove(k)[i] == rearranged(
                fewer,
                rest,
            )[i] by {
                let j = if i < k {
                    i
                } else {
                    i + 1
                };
                assert(rest[i] == order[j]);
            }
        }
        assert(all[k] == items.last());
        assert(all.contains(all[k]));
        assert(all.remove(k).to_multiset() == all.to_multiset().remove(all[k]));
        assert(fewer.push(items.last()) == items);
        assert(all.to_multiset() =~= items.to_multiset());
    }
}

} // verus!

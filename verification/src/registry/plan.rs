//! The lifecycle plan: one deterministic order of the registered providers.
use std::any::TypeId;

use vstd::prelude::*;

use super::error::Error;
use super::order::ProviderOrder;
use crate::erasure::same_key;
#[allow(unused_imports)]
use crate::permutation::{is_permutation, lemma_distinct_is_short, lemma_distinct_positions};
#[allow(unused_imports)]
use crate::text::joined;
use crate::text::{join_names, text2};

verus! {

/// What the plan needs to know of one provider. Its place in the list is its
/// place in the order of registration.
pub struct PlanEntry {
    pub type_id: TypeId,
    pub name: &'static str,
    pub priority: u8,
    pub order: ProviderOrder,
}

/// The type `key` is that of the entry at `at`; of several such entries the last one counts.
pub open spec fn stands_at(entries: Seq<PlanEntry>, key: TypeId, at: int) -> bool {
    &&& 0 <= at < entries.len()
    &&& entries[at].type_id == key
    &&& forall|later: int| at < later < entries.len() ==> entries[later].type_id != key
}

/// One of `keys` is the type of the entry at `at`.
pub open spec fn mentions(entries: Seq<PlanEntry>, keys: Seq<TypeId>, at: int) -> bool {
    exists|k: int| 0 <= k < keys.len() && stands_at(entries, #[trigger] keys[k], at)
}

/// The entry at `from` must come before the one at `to`: the first says so with
/// `before`, or the second with `after`. Hints about a type that is not in the
/// list, and hints of an entry about itself, mean nothing.
pub open spec fn must_precede(entries: Seq<PlanEntry>, from: int, to: int) -> bool {
    &&& from != to
    &&& 0 <= from < entries.len()
    &&& 0 <= to < entries.len()
    &&& mentions(entries, entries[from].order.comes_before(), to) || mentions(
        entries,
        entries[to].order.comes_after(),
        from,
    )
}

/// Once the entries in `placed` have had their turn, the one at `at` can have its own.
pub open spec fn is_ready(entries: Seq<PlanEntry>, placed: Seq<usize>, at: int) -> bool {
    &&& 0 <= at < entries.len()
    &&& !placed.contains(at as usize)
    &&& forall|from: int| #[trigger]
        must_precede(entries, from, at) ==> placed.contains(from as usize)
}

/// Of two ready entries the one with the lower priority value goes first, and with
/// equal priorities the one that was registered first.
pub open spec fn goes_first(entries: Seq<PlanEntry>, a: int, b: int) -> bool {
    entries[a].priority < entries[b].priority || (entries[a].priority == entries[b].priority && a
        <= b)
}

/// The step that follows `placed`: `at` is ready, and goes first of all that are.
pub open spec fn is_next(entries: Seq<PlanEntry>, placed: Seq<usize>, at: int) -> bool {
    &&& is_ready(entries, placed, at)
    &&& forall|other: int| #[trigger]
        is_ready(entries, placed, other) ==> goes_first(entries, at, other)
}

/// Every step of `placed` is the one that follows those before it.
pub open spec fn is_schedule(entries: Seq<PlanEntry>, placed: Seq<usize>) -> bool {
    forall|k: int|
        0 <= k < placed.len() ==> is_next(entries, placed.take(k), #[trigger] placed[k] as int)
}

/// `order` is the lifecycle order of the whole list.
pub open spec fn is_lifecycle_order(entries: Seq<PlanEntry>, order: Seq<usize>) -> bool {
    &&& is_schedule(entries, order)
    &&& order.len() == entries.len()
}

/// The entry at `at` has to wait for a member of `group`.
pub open spec fn waits_for_one_of(entries: Seq<PlanEntry>, group: Set<int>, at: int) -> bool {
    exists|from: int| #[trigger] must_precede(entries, from, at) && group.contains(from)
}

/// Every member of `knot` has to wait for another member of `knot`.
pub open spec fn is_knot(entries: Seq<PlanEntry>, knot: Set<int>) -> bool {
    forall|at: int| knot.contains(at) ==> #[trigger] waits_for_one_of(entries, knot, at)
}

/// The entry at `at` can never have its turn: it waits, directly or through others, for itself
/// or for entries that wait for one another.
pub open spec fn is_blocked(entries: Seq<PlanEntry>, at: int) -> bool {
    exists|knot: Set<int>| #[trigger] knot.contains(at) && is_knot(entries, knot)
}

/// No entry is blocked.
pub open spec fn is_orderable(entries: Seq<PlanEntry>) -> bool {
    forall|at: int| !is_blocked(entries, at)
}

/// The names of the blocked entries among the first `upto`, in order of registration.
pub open spec fn blocked_names(entries: Seq<PlanEntry>, upto: int) -> Seq<Seq<char>>
    decreases upto,
{
    if upto <= 0 {
        Seq::empty()
    } else if is_blocked(entries, upto - 1) {
        blocked_names(entries, upto - 1).push(entries[upto - 1].name@)
    } else {
        blocked_names(entries, upto - 1)
    }
}

/// The message that names every entry which a dependency cycle keeps from having its turn.
pub open spec fn cycle_message(entries: Seq<PlanEntry>) -> Seq<char> {
    "provider lifecycle order cycle detected: "@ + joined(
        blocked_names(entries, entries.len() as int),
        ", "@,
    )
}

/// The position at which `key` stands in the list, if it does.
fn position_of(entries: &Vec<PlanEntry>, key: &TypeId) -> (found: Option<usize>)
    ensures
        match found {
            Some(at) => stands_at(entries@, *key, at as int),
            None => forall|at: int| !stands_at(entries@, *key, at),
        },
{
    let mut i: usize = entries.len();
    while i > 0
        invariant
            i <= entries.len(),
            forall|later: int| i <= later < entries.len() ==> entries@[later].type_id != *key,
        decreases i,
    {
        i = i - 1;
        if same_key(&entries[i].type_id, key) {
            return Some(i);
        }
    }
    None
}

/// The positions of those of `keys` that stand in the list.
fn positions_of(entries: &Vec<PlanEntry>, keys: &[TypeId]) -> (positions: Vec<usize>)
    ensures
        forall|at: usize| positions@.contains(at) <==> #[trigger] mentions(entries@, keys@, at as int),
{
    let mut positions: Vec<usize> = Vec::new();
    let mut k: usize = 0;
    while k < keys.len()
        invariant
            k <= keys.len(),
            forall|at: usize| #[trigger]
                positions@.contains(at) <==> mentions(entries@, keys@.take(k as int), at as int),
        decreases keys.len() - k,
    {
        let ghost known = positions@;
        let ghost seen = keys@.take(k as int);
        let key = &keys[k];
        let found = position_of(entries, key);
        if let Some(at) = found {
            positions.push(at);
        }
        proof {
            lemma_stands_at_once(entries@, *key);
            let now = keys@.take(k + 1);
            assert(now == seen.push(*key));
            assert forall|at: usize| #[trigger]
                positions@.contains(at) <==> mentions(entries@, now, at as int) by {
                assert(found matches Some(f) ==> positions@ == known.push(f));
                if positions@.contains(at) {
                    if known.contains(at) {
                        let j = choose|j: int|
                            0 <= j < seen.len() && stands_at(entries@, #[trigger] seen[j], at as int);
                        assert(now[j] == seen[j]);
                    } else {
                        assert(now[k as int] == *key);
                    }
                }
                if mentions(entries@, now, at as int) {
                    let j = choose|j: int|
                        0 <= j < now.len() && stands_at(entries@, #[trigger] now[j], at as int);
                    if j < k {
                        assert(seen[j] == now[j]);
                        assert(known.contains(at));
                        let p = known.index_of(at);
                        assert(positions@[p] == at);
                    } else {
                        assert(positions@[positions@.len() - 1] == at);
                    }
                }
            }
        }
        k = k + 1;
    }
    proof {
        assert(keys@.take(keys@.len() as int) == keys@);
    }
    positions
}

/// Whether `item` occurs in `list`.
fn contains(list: &Vec<usize>, item: usize) -> (yes: bool)
    ensures
        yes == list@.contains(item),
{
    let mut i: usize = 0;
    while i < list.len()
        invariant
            i <= list.len(),
            forall|j: int| 0 <= j < i ==> list@[j] != item,
        decreases list.len() - i,
    {
        if list[i] == item {
            return true;
        }
        i = i + 1;
    }
    false
}

/// For each entry the positions of those that must come before it.
fn predecessors(entries: &Vec<PlanEntry>) -> (waits_for: Vec<Vec<usize>>)
    ensures
        waits_for@.len() == entries@.len(),
        forall|to: int, from: usize|
            0 <= to < entries@.len() ==> (#[trigger] waits_for@[to]@.contains(from)
                <==> must_precede(entries@, from as int, to)),
{
    let n: usize = entries.len();
    let mut befores: Vec<Vec<usize>> = Vec::new();
    let mut i: usize = 0;
    while i < n
        invariant
            n == entries@.len(),
            i <= n,
            befores@.len() == i,
            forall|from: int, at: usize|
                0 <= from < i ==> (#[trigger] befores@[from]@.contains(at) <==> mentions(
                    entries@,
                    entries@[from].order.comes_before(),
                    at as int,
                )),
        decreases n - i,
    {
        befores.push(positions_of(entries, entries[i].order.before_types()));
        i = i + 1;
    }
    let mut waits_for: Vec<Vec<usize>> = Vec::new();
    let mut to: usize = 0;
    while to < n
        invariant
            n == entries@.len(),
            to <= n,
            befores@.len() == n,
            forall|from: int, at: usize|
                0 <= from < n ==> (#[trigger] befores@[from]@.contains(at) <==> mentions(
                    entries@,
                    entries@[from].order.comes_before(),
                    at as int,
                )),
            waits_for@.len() == to,
            forall|t: int, from: usize|
                0 <= t < to ==> (#[trigger] waits_for@[t]@.contains(from) <==> must_precede(
                    entries@,
                    from as int,
                    t,
                )),
        decreases n - to,
    {
        let afters = positions_of(entries, entries[to].order.after_types());
        let mut row: Vec<usize> = Vec::new();
        let mut from: usize = 0;
        while from < n
            invariant
                n == entries@.len(),
                from <= n,
                to < n,
                befores@.len() == n,
                forall|f: int, at: usize|
                    0 <= f < n ==> (#[trigger] befores@[f]@.contains(at) <==> mentions(
                        entries@,
                        entries@[f].order.comes_before(),
                        at as int,
                    )),
                forall|at: usize|
                    afters@.contains(at) <==> #[trigger] mentions(
                        entries@,
                        entries@[to as int].order.comes_after(),
                        at as int,
                    ),
                forall|f: usize| #[trigger]
                    row@.contains(f) <==> f < from && must_precede(entries@, f as int, to as int),
            decreases n - from,
        {
            let ghost before = row@;
            let first = from != to && (contains(&befores[from], to) || contains(&afters, from));
            if first {
                row.push(from);
            }
            proof {
                assert(befores@[from as int]@.contains(to) <==> mentions(
                    entries@,
                    entries@[from as int].order.comes_before(),
                    to as int,
                ));
                assert(first == must_precede(entries@, from as int, to as int));
                assert forall|f: usize| #[trigger]
                    row@.contains(f) <==> f < from + 1 && must_precede(
                        entries@,
                        f as int,
                        to as int,
                    ) by {
                    if first {
                        assert(row@ == before.push(from));
                        assert(row@[row@.len() - 1] == from);
                        if before.contains(f) {
                            let p = before.index_of(f);
                            assert(row@[p] == f);
                        }
                    }
                }
            }
            from = from + 1;
        }
        waits_for.push(row);
        to = to + 1;
    }
    waits_for
}

/// Whether every member of `list` is marked in `done`.
fn all_done(list: &Vec<usize>, done: &Vec<bool>) -> (yes: bool)
    requires
        forall|i: int| 0 <= i < list@.len() ==> list@[i] < done@.len(),
    ensures
        yes <==> forall|at: usize| #[trigger] list@.contains(at) ==> done@[at as int],
{
    let mut i: usize = 0;
    while i < list.len()
        invariant
            i <= list.len(),
            forall|j: int| 0 <= j < list@.len() ==> list@[j] < done@.len(),
            forall|j: int| 0 <= j < i ==> done@[#[trigger] list@[j] as int],
        decreases list.len() - i,
    {
        if !done[list[i]] {
            proof {
                assert(list@.contains(list@[i as int]));
            }
            return false;
        }
        i = i + 1;
    }
    true
}

/// Puts the entries into lifecycle order.
///
/// An entry has its turn once all that must come before it have had theirs. Of the
/// entries that are ready, the one with the lowest priority value goes first, and
/// with equal priorities the one that was registered first. Where a dependency
/// cycle leaves entries that can never be ready, the error names them.
pub fn order_provider_entries(entries: &Vec<PlanEntry>) -> (result: Result<Vec<usize>, Error>)
    ensures
        result is Ok <==> is_orderable(entries@),
        match result {
            Ok(order) => is_lifecycle_order(entries@, order@),
            Err(error) => error.says(cycle_message(entries@)),
        },
{
    let n: usize = entries.len();
    let waits_for = predecessors(entries);
    let mut done: Vec<bool> = Vec::new();
    while done.len() < n
        invariant
            n == entries@.len(),
            done@.len() <= n,
            forall|i: int| 0 <= i < done@.len() ==> !done@[i],
        decreases n - done.len(),
    {
        done.push(false);
    }
    let mut placed: Vec<usize> = Vec::new();
    let mut stuck: bool = false;
    while placed.len() < n && !stuck
        invariant
            n == entries@.len(),
            waits_for@.len() == n,
            forall|to: int, from: usize|
                0 <= to < n ==> (#[trigger] waits_for@[to]@.contains(from) <==> must_precede(
                    entries@,
                    from as int,
                    to,
                )),
            done@.len() == n,
            placed@.len() <= n,
            forall|i: usize| i < n ==> done@[i as int] == #[trigger] placed@.contains(i),
            is_schedule(entries@, placed@),
            stuck ==> placed@.len() < n,
            stuck ==> forall|i: int| !is_ready(entries@, placed@, i),
        decreases n - placed.len() + if stuck { 0int } else { 1int },
    {
        let mut best: Option<usize> = None;
        let mut i: usize = 0;
        while i < n
            invariant
                n == entries@.len(),
                i <= n,
                waits_for@.len() == n,
                forall|to: int, from: usize|
                    0 <= to < n ==> (#[trigger] waits_for@[to]@.contains(from) <==> must_precede(
                        entries@,
                        from as int,
                        to,
                    )),
                done@.len() == n,
                forall|j: usize| j < n ==> done@[j as int] == #[trigger] placed@.contains(j),
                match best {
                    Some(b) => b < i && is_ready(entries@, placed@, b as int) && forall|j: int|
                        0 <= j < i && #[trigger] is_ready(entries@, placed@, j) ==> goes_first(
                            entries@,
                            b as int,
                            j,
                        ),
                    None => forall|j: int| 0 <= j < i ==> !is_ready(entries@, placed@, j),
                },
            decreases n - i,
        {
            proof {
                assert forall|j: int| 0 <= j < waits_for@[i as int]@.len() implies waits_for@[i as int]@[j]
                    < done@.len() by {
                    assert(waits_for@[i as int]@.contains(waits_for@[i as int]@[j]));
                }
            }
            let free = !done[i] && all_done(&waits_for[i], &done);
            proof {
                assert(free == is_ready(entries@, placed@, i as int)) by {
                    assert(done@[i as int] == placed@.contains(i));
                    if free {
                        assert forall|from: int| #[trigger]
                            must_precede(entries@, from, i as int) implies placed@.contains(
                            from as usize,
                        ) by {
                            assert(waits_for@[i as int]@.contains(from as usize));
                        }
                    }
                    if is_ready(entries@, placed@, i as int) {
                        assert forall|at: usize| #[trigger]
                            waits_for@[i as int]@.contains(at) implies done@[at as int] by {
                            assert(must_precede(entries@, at as int, i as int));
                            assert(placed@.contains(at));
                        }
                    }
                }
            }
            if free {
                match best {
                    Some(b) => {
                        if entries[i].priority < entries[b].priority {
                            best = Some(i);
                        }
                    },
                    None => {
                        best = Some(i);
                    },
                }
            }
            i = i + 1;
        }
        match best {
            Some(b) => {
                let ghost earlier = placed@;
                placed.push(b);
                done.set(b, true);
                proof {
                    assert(is_next(entries@, earlier, b as int));
                    assert forall|k: int| 0 <= k < placed@.len() implies is_next(
                        entries@,
                        placed@.take(k),
                        #[trigger] placed@[k] as int,
                    ) by {
                        if k < earlier.len() {
                            assert(placed@.take(k) == earlier.take(k));
                            assert(placed@[k] == earlier[k]);
                        } else {
                            assert(placed@.take(k) == earlier);
                        }
                    }
                    assert forall|j: usize| j < n implies done@[j as int]
                        == #[trigger] placed@.contains(j) by {
                        if earlier.contains(j) {
                            let p = earlier.index_of(j);
                            assert(placed@[p] == j);
                        }
                        assert(placed@[placed@.len() - 1] == b);
                        if j != b && placed@.contains(j) {
                            let p = placed@.index_of(j);
                            assert(earlier[p] == j);
                        }
                    }
                }
            },
            None => {
                stuck = true;
            },
        }
    }
    proof {
        if stuck {
            lemma_stuck(entries@, placed@);
        } else {
            lemma_order_is_complete(entries@, placed@);
        }
    }
    if placed.len() < n {
        proof {
            lemma_leaves_one_out(entries@, placed@);
            let left = choose|i: usize| i < n && !#[trigger] placed@.contains(i);
            assert(is_blocked(entries@, left as int));
        }
        let mut blocked: Vec<&'static str> = Vec::new();
        let mut i: usize = 0;
        while i < n
            invariant
                n == entries@.len(),
                i <= n,
                done@.len() == n,
                forall|j: usize| j < n ==> done@[j as int] == #[trigger] placed@.contains(j),
                forall|j: int|
                    0 <= j < n ==> (#[trigger] is_blocked(entries@, j) <==> !placed@.contains(
                        j as usize,
                    )),
                blocked@.map_values(|name: &'static str| name@) == blocked_names(
                    entries@,
                    i as int,
                ),
            decreases n - i,
        {
            let ghost earlier = blocked@;
            if !done[i] {
                blocked.push(entries[i].name);
            }
            proof {
                assert(done@[i as int] == placed@.contains(i));
                assert(is_blocked(entries@, i as int) <==> !placed@.contains(i));
                if !done@[i as int] {
                    assert(blocked@.map_values(|name: &'static str| name@) == earlier.map_values(
                        |name: &'static str| name@,
                    ).push(entries@[i as int].name@));
                }
            }
            i = i + 1;
        }
        let names = join_names(&blocked, ", ");
        return Err(
            Error::other(text2("provider lifecycle order cycle detected: ", names.as_str())),
        );
    }
    Ok(placed)
}

/// A type stands at one position only.
proof fn lemma_stands_at_once(entries: Seq<PlanEntry>, key: TypeId)
    ensures
        forall|a: int, b: int|
            stands_at(entries, key, a) && stands_at(entries, key, b) ==> a == b,
{
    assert forall|a: int, b: int|
        stands_at(entries, key, a) && stands_at(entries, key, b) implies a == b by {
        if a < b {
            assert(entries[b].type_id != key);
        }
        if b < a {
            assert(entries[a].type_id != key);
        }
    }
}

/// No member of a knot ever has its turn.
proof fn lemma_knot_is_never_placed(entries: Seq<PlanEntry>, placed: Seq<usize>, knot: Set<int>, k: int)
    requires
        entries.len() <= usize::MAX,
        is_schedule(entries, placed),
        is_knot(entries, knot),
        0 <= k < placed.len(),
    ensures
        !knot.contains(placed[k] as int),
    decreases k,
{
    let at = placed[k] as int;
    if knot.contains(at) {
        assert(waits_for_one_of(entries, knot, at));
        let from = choose|from: int| #[trigger]
            must_precede(entries, from, at) && knot.contains(from);
        assert(is_next(entries, placed.take(k), placed[k] as int));
        assert(placed.take(k).contains(from as usize));
        let j = placed.take(k).index_of(from as usize);
        assert(placed[j] == from as usize);
        lemma_knot_is_never_placed(entries, placed, knot, j);
    }
}

/// A schedule holds no position twice, and only positions of the list.
proof fn lemma_schedule_is_distinct(entries: Seq<PlanEntry>, placed: Seq<usize>)
    requires
        is_schedule(entries, placed),
    ensures
        placed.no_duplicates(),
        forall|k: int| 0 <= k < placed.len() ==> #[trigger] placed[k] < entries.len(),
{
    assert forall|i: int, j: int| 0 <= i < j < placed.len() implies placed[i] != placed[j] by {
        assert(is_next(entries, placed.take(j), placed[j] as int));
        assert(placed.take(j)[i] == placed[i]);
    }
    assert forall|k: int| 0 <= k < placed.len() implies #[trigger] placed[k] < entries.len() by {
        assert(is_next(entries, placed.take(k), placed[k] as int));
    }
}

/// Where no entry is ready, the blocked entries are those that had no turn.
proof fn lemma_stuck(entries: Seq<PlanEntry>, placed: Seq<usize>)
    requires
        entries.len() <= usize::MAX,
        is_schedule(entries, placed),
        forall|i: int| !is_ready(entries, placed, i),
    ensures
        forall|i: int|
            0 <= i < entries.len() ==> (#[trigger] is_blocked(entries, i) <==> !placed.contains(
                i as usize,
            )),
{
    let left = Set::new(|i: int| 0 <= i < entries.len() && !placed.contains(i as usize));
    assert(is_knot(entries, left)) by {
        assert forall|at: int| left.contains(at) implies #[trigger] waits_for_one_of(
            entries,
            left,
            at,
        ) by {
            assert(!is_ready(entries, placed, at));
            let from = choose|from: int| #[trigger]
                must_precede(entries, from, at) && !placed.contains(from as usize);
            assert(left.contains(from));
        }
    }
    assert forall|i: int| 0 <= i < entries.len() implies (#[trigger] is_blocked(entries, i)
        <==> !placed.contains(i as usize)) by {
        if !placed.contains(i as usize) {
            assert(left.contains(i));
        }
        if is_blocked(entries, i) && placed.contains(i as usize) {
            let knot = choose|knot: Set<int>| #[trigger] knot.contains(i) && is_knot(entries, knot);
            let k = placed.index_of(i as usize);
            lemma_knot_is_never_placed(entries, placed, knot, k);
        }
    }
}

/// A lifecycle order leaves no entry out, and so no entry is blocked.
proof fn lemma_order_is_complete(entries: Seq<PlanEntry>, order: Seq<usize>)
    requires
        entries.len() <= usize::MAX,
        is_lifecycle_order(entries, order),
    ensures
        is_permutation(order, entries.len()),
        is_orderable(entries),
{
    lemma_schedule_is_distinct(entries, order);
    lemma_distinct_positions(order, entries.len());
    assert forall|at: int| !is_blocked(entries, at) by {
        if is_blocked(entries, at) {
            let knot = choose|knot: Set<int>| #[trigger] knot.contains(at) && is_knot(entries, knot);
            assert(waits_for_one_of(entries, knot, at));
            assert(order.contains(at as usize));
            lemma_knot_is_never_placed(entries, order, knot, order.index_of(at as usize));
        }
    }
}

/// A schedule that is shorter than the list leaves an entry out.
proof fn lemma_leaves_one_out(entries: Seq<PlanEntry>, placed: Seq<usize>)
    requires
        entries.len() <= usize::MAX,
        is_schedule(entries, placed),
        placed.len() < entries.len(),
    ensures
        exists|i: usize| i < entries.len() && !#[trigger] placed.contains(i),
{
    lemma_schedule_is_distinct(entries, placed);
    lemma_distinct_positions(placed, entries.len());
}

/// The lifecycle order is deterministic: a list has no two of them.
pub proof fn law_order_is_unique(entries: Seq<PlanEntry>, a: Seq<usize>, b: Seq<usize>)
    requires
        entries.len() <= usize::MAX,
        is_lifecycle_order(entries, a),
        is_lifecycle_order(entries, b),
    ensures
        a == b,
{
    lemma_schedules_agree(entries, a, b, entries.len() as int);
    assert(a.take(a.len() as int) == a);
    assert(b.take(b.len() as int) == b);
}

/// Two schedules make the same first `k` steps.
proof fn lemma_schedules_agree(entries: Seq<PlanEntry>, a: Seq<usize>, b: Seq<usize>, k: int)
    requires
        is_schedule(entries, a),
        is_schedule(entries, b),
        0 <= k <= a.len(),
        k <= b.len(),
    ensures
        a.take(k) == b.take(k),
    decreases k,
{
    if k > 0 {
        lemma_schedules_agree(entries, a, b, k - 1);
        assert(is_next(entries, a.take(k - 1), a[k - 1] as int));
        assert(is_next(entries, b.take(k - 1), b[k - 1] as int));
        assert(goes_first(entries, a[k - 1] as int, b[k - 1] as int));
        assert(goes_first(entries, b[k - 1] as int, a[k - 1] as int));
        assert(a.take(k) == a.take(k - 1).push(a[k - 1]));
        assert(b.take(k) == b.take(k - 1).push(b[k - 1]));
    }
}

/// Every entry has exactly one turn.
pub proof fn law_order_is_a_permutation(entries: Seq<PlanEntry>, order: Seq<usize>)
    requires
        entries.len() <= usize::MAX,
        is_lifecycle_order(entries, order),
    ensures
        is_permutation(order, entries.len()),
        forall|at: usize| at < entries.len() ==> order.contains(at),
{
    lemma_order_is_complete(entries, order);
    lemma_distinct_positions(order, entries.len());
}

/// Dependencies hold: what must come before another has its turn before it.
pub proof fn law_order_respects_dependencies(
    entries: Seq<PlanEntry>,
    order: Seq<usize>,
    i: int,
    j: int,
)
    requires
        entries.len() <= usize::MAX,
        is_lifecycle_order(entries, order),
        0 <= i < order.len(),
        0 <= j < order.len(),
        must_precede(entries, order[i] as int, order[j] as int),
    ensures
        i < j,
{
    lemma_schedule_is_distinct(entries, order);
    assert(is_next(entries, order.take(j), order[j] as int));
    assert(order.take(j).contains(order[i]));
    let at = order.take(j).index_of(order[i]);
    assert(order[at] == order[i]);
}

/// Every hint counts, at whatever place of its list it stands: where a type is named by
/// another entry as one that it comes after, or names the type of the other as one that it
/// comes before, it has its turn first. Of several entries of one type the last is meant.
pub proof fn law_every_hint_counts(
    entries: Seq<PlanEntry>,
    order: Seq<usize>,
    i: int,
    j: int,
    a: int,
    b: int,
)
    requires
        entries.len() <= usize::MAX,
        is_lifecycle_order(entries, order),
        0 <= a < order.len(),
        0 <= b < order.len(),
        order[a] == i,
        order[b] == j,
        i != j,
        ({
            ||| entries[j].order.comes_after().contains(entries[i].type_id) && forall|later: int|
                i < later < entries.len() ==> (#[trigger] entries[later]).type_id
                    != entries[i].type_id
            ||| entries[i].order.comes_before().contains(entries[j].type_id) && forall|later: int|
                j < later < entries.len() ==> (#[trigger] entries[later]).type_id
                    != entries[j].type_id
        }),
    ensures
        a < b,
{
    lemma_schedule_is_distinct(entries, order);
    assert(order[a] < entries.len() && order[b] < entries.len());
    lemma_hint_binds(entries, i, j);
    law_order_respects_dependencies(entries, order, a, b);
}

/// What a hint names must precede, or be preceded.
proof fn lemma_hint_binds(entries: Seq<PlanEntry>, i: int, j: int)
    requires
        0 <= i < entries.len(),
        0 <= j < entries.len(),
        i != j,
    ensures
        entries[j].order.comes_after().contains(entries[i].type_id) && (forall|later: int|
            i < later < entries.len() ==> (#[trigger] entries[later]).type_id != entries[i].type_id)
            ==> must_precede(entries, i, j),
        entries[i].order.comes_before().contains(entries[j].type_id) && (forall|later: int|
            j < later < entries.len() ==> (#[trigger] entries[later]).type_id != entries[j].type_id)
            ==> must_precede(entries, i, j),
{
    let after = entries[j].order.comes_after();
    let before = entries[i].order.comes_before();
    if after.contains(entries[i].type_id) {
        let k = after.index_of(entries[i].type_id);
        assert(after[k] == entries[i].type_id);
    }
    if before.contains(entries[j].type_id) {
        let k = before.index_of(entries[j].type_id);
        assert(before[k] == entries[j].type_id);
    }
}

/// Nothing but a hint binds: what must precede is named by one of the two lists.
proof fn lemma_only_a_hint_binds(entries: Seq<PlanEntry>, from: int, to: int)
    requires
        must_precede(entries, from, to),
    ensures
        0 <= from < entries.len(),
        0 <= to < entries.len(),
        from != to,
        entries[from].order.comes_before().contains(entries[to].type_id)
            || entries[to].order.comes_after().contains(entries[from].type_id),
{
    let before = entries[from].order.comes_before();
    let after = entries[to].order.comes_after();
    if mentions(entries, before, to) {
        let k = choose|k: int| 0 <= k < before.len() && stands_at(entries, #[trigger] before[k], to);
        assert(before[k] == entries[to].type_id);
    } else {
        let k = choose|k: int| 0 <= k < after.len() && stands_at(entries, #[trigger] after[k], from);
        assert(after[k] == entries[from].type_id);
    }
}

/// Nothing but a hint lets an entry overtake another one: where an entry has its turn before
/// one with a lower priority value, or with the same value and an earlier registration, the
/// other still had to wait for a hint, for itself or for one whose turn was no earlier.
pub proof fn law_only_a_hint_overtakes(entries: Seq<PlanEntry>, order: Seq<usize>, a: int, b: int)
    requires
        entries.len() <= usize::MAX,
        is_lifecycle_order(entries, order),
        0 <= a < b < order.len(),
        entries[order[b] as int].priority < entries[order[a] as int].priority || (
        entries[order[b] as int].priority == entries[order[a] as int].priority && order[b]
            < order[a]),
    ensures
        exists|c: int|
            a <= c < b && (entries[(#[trigger] order[c]) as int].order.comes_before().contains(
                entries[order[b] as int].type_id,
            ) || entries[order[b] as int].order.comes_after().contains(
                entries[order[c] as int].type_id,
            )),
{
    lemma_schedule_is_distinct(entries, order);
    let placed = order.take(a);
    let at = order[b] as int;
    assert(is_next(entries, placed, order[a] as int));
    assert(order[b] < entries.len());
    assert(!is_ready(entries, placed, at));
    assert(!placed.contains(order[b])) by {
        if placed.contains(order[b]) {
            let p = placed.index_of(order[b]);
            assert(order[p] == order[b]);
        }
    }
    let from = choose|from: int| #[trigger]
        must_precede(entries, from, at) && !placed.contains(from as usize);
    lemma_only_a_hint_binds(entries, from, at);
    law_order_is_a_permutation(entries, order);
    assert(order.contains(from as usize));
    let c = order.index_of(from as usize);
    law_order_respects_dependencies(entries, order, c, b);
    if c < a {
        assert(placed[c] == from as usize);
    }
    assert(order[c] == from);
}

/// Hints that lead in a circle are rejected: there is no lifecycle order where each member of
/// a chain is named as coming before the next one, by either of the two, and the last one as
/// coming before the first. No two entries of the list have the same type.
pub proof fn law_hints_in_a_circle_are_rejected(entries: Seq<PlanEntry>, chain: Seq<int>)
    requires
        forall|i: int, j: int|
            0 <= i < j < entries.len() ==> (#[trigger] entries[i]).type_id != (
            #[trigger] entries[j]).type_id,
        chain.len() > 1,
        forall|k: int| 0 <= k < chain.len() ==> 0 <= #[trigger] chain[k] < entries.len(),
        forall|k: int, next: int|
            #![trigger chain[k], chain[next]]
            0 <= k < chain.len() && next == (if k + 1 < chain.len() { k + 1 } else { 0 })
                ==> chain[k] != chain[next] && (
            entries[chain[k]].order.comes_before().contains(entries[chain[next]].type_id)
                || entries[chain[next]].order.comes_after().contains(entries[chain[k]].type_id)),
    ensures
        !is_orderable(entries),
        forall|k: int| 0 <= k < chain.len() ==> is_blocked(entries, #[trigger] chain[k]),
{
    assert forall|k: int| 0 <= k < chain.len() implies #[trigger] leads_on(entries, chain, k) by {
        let next = if k + 1 < chain.len() { k + 1 } else { 0 };
        assert(0 <= chain[k] < entries.len() && 0 <= chain[next] < entries.len());
        lemma_hint_binds(entries, chain[k], chain[next]);
    }
    law_cycle_is_rejected(entries, chain);
}

/// Nothing but hints that lead in a circle is rejected: where there is no lifecycle order,
/// there is a chain of entries, each named as coming before the next one and the last one as
/// coming before the first.
pub proof fn law_rejection_has_a_circle_of_hints(entries: Seq<PlanEntry>) -> (chain: Seq<int>)
    requires
        !is_orderable(entries),
    ensures
        chain.len() > 0,
        forall|k: int| 0 <= k < chain.len() ==> 0 <= #[trigger] chain[k] < entries.len(),
        forall|k: int, next: int|
            #![trigger chain[k], chain[next]]
            0 <= k < chain.len() && next == (if k + 1 < chain.len() { k + 1 } else { 0 })
                ==> chain[k] != chain[next] && (
            entries[chain[k]].order.comes_before().contains(entries[chain[next]].type_id)
                || entries[chain[next]].order.comes_after().contains(entries[chain[k]].type_id)),
{
    law_only_a_cycle_is_rejected(entries);
    let chain = choose|chain: Seq<int>| is_cycle(entries, chain);
    assert forall|k: int| 0 <= k < chain.len() implies 0 <= #[trigger] chain[k] < entries.len() by {
        assert(leads_on(entries, chain, k));
    }
    assert forall|k: int, next: int|
        #![trigger chain[k], chain[next]]
        0 <= k < chain.len() && next == (if k + 1 < chain.len() { k + 1 } else { 0 })
            implies chain[k] != chain[next] && (
        entries[chain[k]].order.comes_before().contains(entries[chain[next]].type_id)
            || entries[chain[next]].order.comes_after().contains(entries[chain[k]].type_id)) by {
        assert(leads_on(entries, chain, k));
        lemma_only_a_hint_binds(entries, chain[k], chain[next]);
    }
    chain
}

/// Where no provider gives a hint that counts, the order is that of the priorities,
/// and of registration among equal priorities.
pub proof fn law_priority_orders_the_independent(
    entries: Seq<PlanEntry>,
    order: Seq<usize>,
    i: int,
    j: int,
)
    requires
        entries.len() <= usize::MAX,
        is_lifecycle_order(entries, order),
        forall|from: int, to: int| !must_precede(entries, from, to),
        0 <= i < j < order.len(),
    ensures
        goes_first(entries, order[i] as int, order[j] as int),
{
    lemma_schedule_is_distinct(entries, order);
    assert(is_next(entries, order.take(i), order[i] as int));
    assert(is_ready(entries, order.take(i), order[j] as int)) by {
        if order.take(i).contains(order[j]) {
            let at = order.take(i).index_of(order[j]);
            assert(order[at] == order[j]);
        }
    }
}

/// The member `k` of `chain` must precede the next one, where the first follows the last.
pub open spec fn leads_on(entries: Seq<PlanEntry>, chain: Seq<int>, k: int) -> bool {
    must_precede(
        entries,
        chain[k],
        if k + 1 < chain.len() {
            chain[k + 1]
        } else {
            chain[0]
        },
    )
}

/// `cycle` is a closed chain of dependencies.
pub open spec fn is_cycle(entries: Seq<PlanEntry>, cycle: Seq<int>) -> bool {
    &&& cycle.len() > 0
    &&& forall|k: int| 0 <= k < cycle.len() ==> #[trigger] leads_on(entries, cycle, k)
}

/// A dependency cycle is always rejected: all its members are blocked.
pub proof fn law_cycle_is_rejected(entries: Seq<PlanEntry>, cycle: Seq<int>)
    requires
        is_cycle(entries, cycle),
    ensures
        !is_orderable(entries),
        forall|k: int| 0 <= k < cycle.len() ==> is_blocked(entries, #[trigger] cycle[k]),
{
    let knot = Set::new(|at: int| cycle.contains(at));
    assert(is_knot(entries, knot)) by {
        assert forall|at: int| knot.contains(at) implies #[trigger] waits_for_one_of(
            entries,
            knot,
            at,
        ) by {
            let k = cycle.index_of(at);
            let before = if k > 0 { k - 1 } else { cycle.len() - 1 };
            assert(leads_on(entries, cycle, before));
            assert(must_precede(entries, cycle[before], at));
            assert(knot.contains(cycle[before]));
        }
    }
    assert forall|k: int| 0 <= k < cycle.len() implies is_blocked(entries, #[trigger] cycle[k]) by {
        assert(knot.contains(cycle[k]));
    }
    assert(is_blocked(entries, cycle[0]));
}

/// Nothing but a dependency cycle is rejected: where an entry is blocked there is one.
pub proof fn law_only_a_cycle_is_rejected(entries: Seq<PlanEntry>)
    requires
        !is_orderable(entries),
    ensures
        exists|cycle: Seq<int>| is_cycle(entries, cycle),
{
    let at = choose|at: int| is_blocked(entries, at);
    let knot = choose|knot: Set<int>| #[trigger] knot.contains(at) && is_knot(entries, knot);
    let walk = lemma_walk_back(entries, knot, at, entries.len() + 1);
    if walk.no_duplicates() {
        lemma_distinct_is_short(walk, entries.len());
    }
    let (a, b): (int, int) = choose|a: int, b: int|
        0 <= a < walk.len() && 0 <= b < walk.len() && a != b && walk[a] == walk[b];
    let i = if a < b { a } else { b };
    let j = if a < b { b } else { a };
    let cycle = Seq::new((j - i) as nat, |t: int| walk[j - t]);
    assert forall|k: int| 0 <= k < cycle.len() implies #[trigger] leads_on(entries, cycle, k) by {
        assert(must_precede(entries, walk[(j - k - 1) + 1], walk[j - k - 1]));
    }
    assert(is_cycle(entries, cycle));
}

/// Being blocked is passed on along the hints and comes from nowhere else: an entry is blocked
/// exactly if a hint has it wait for a blocked one. No two entries of the list have the same
/// type.
pub proof fn law_blocked_waits_for_the_blocked(entries: Seq<PlanEntry>, at: int)
    requires
        0 <= at < entries.len(),
        forall|i: int, j: int|
            0 <= i < j < entries.len() ==> (#[trigger] entries[i]).type_id != (
            #[trigger] entries[j]).type_id,
    ensures
        is_blocked(entries, at) <==> exists|from: int|
            0 <= from < entries.len() && from != at && #[trigger] is_blocked(entries, from) && (
            entries[from].order.comes_before().contains(entries[at].type_id)
                || entries[at].order.comes_after().contains(entries[from].type_id)),
{
    if is_blocked(entries, at) {
        let knot = choose|knot: Set<int>| #[trigger] knot.contains(at) && is_knot(entries, knot);
        assert(waits_for_one_of(entries, knot, at));
        let from = choose|from: int| #[trigger]
            must_precede(entries, from, at) && knot.contains(from);
        lemma_only_a_hint_binds(entries, from, at);
        assert(is_blocked(entries, from));
    }
    if exists|from: int|
        0 <= from < entries.len() && from != at && #[trigger] is_blocked(entries, from) && (
        entries[from].order.comes_before().contains(entries[at].type_id)
            || entries[at].order.comes_after().contains(entries[from].type_id)) {
        let from = choose|from: int|
            0 <= from < entries.len() && from != at && #[trigger] is_blocked(entries, from) && (
            entries[from].order.comes_before().contains(entries[at].type_id)
                || entries[at].order.comes_after().contains(entries[from].type_id));
        lemma_hint_binds(entries, from, at);
        let knot = choose|knot: Set<int>| #[trigger] knot.contains(from) && is_knot(entries, knot);
        let larger = knot.insert(at);
        assert(is_knot(entries, larger)) by {
            assert forall|member: int| larger.contains(member) implies #[trigger] waits_for_one_of(
                entries,
                larger,
                member,
            ) by {
                if knot.contains(member) {
                    assert(waits_for_one_of(entries, knot, member));
                    let other = choose|other: int| #[trigger]
                        must_precede(entries, other, member) && knot.contains(other);
                    assert(larger.contains(other));
                } else {
                    assert(must_precede(entries, from, at) && larger.contains(from));
                }
            }
        }
        assert(larger.contains(at));
    }
}

/// The message of a rejection names every blocked entry, in order of registration, and no
/// other one: the name of a blocked entry stands behind those of all that were registered
/// before it.
pub proof fn law_message_names_the_blocked(entries: Seq<PlanEntry>, at: int, upto: int)
    requires
        0 <= at < upto <= entries.len(),
    ensures
        blocked_names(entries, at).len() <= blocked_names(entries, upto).len(),
        blocked_names(entries, at) == blocked_names(entries, upto).take(
            blocked_names(entries, at).len() as int,
        ),
        is_blocked(entries, at) ==> blocked_names(entries, at).len() < blocked_names(
            entries,
            upto,
        ).len() && blocked_names(entries, upto)[blocked_names(entries, at).len() as int]
            == entries[at].name@,
        !is_blocked(entries, at) ==> blocked_names(entries, at + 1) == blocked_names(entries, at),
        blocked_names(entries, 0).len() == 0,
        blocked_names(entries, upto).len() <= upto,
    decreases upto,
{
    let names = blocked_names(entries, at);
    if at + 1 < upto {
        law_message_names_the_blocked(entries, at, upto - 1);
        let shorter = blocked_names(entries, upto - 1);
        let longer = blocked_names(entries, upto);
        assert(longer.take(names.len() as int) == shorter.take(names.len() as int));
    } else {
        lemma_blocked_names_are_few(entries, upto);
        assert(blocked_names(entries, upto).take(names.len() as int) == names);
    }
}

proof fn lemma_blocked_names_are_few(entries: Seq<PlanEntry>, upto: int)
    requires
        0 <= upto,
    ensures
        blocked_names(entries, upto).len() <= upto,
    decreases upto,
{
    if upto > 0 {
        lemma_blocked_names_are_few(entries, upto - 1);
    }
}

/// A walk of `steps` members of a knot, each of which must precede the one before it.
proof fn lemma_walk_back(entries: Seq<PlanEntry>, knot: Set<int>, at: int, steps: nat) -> (walk: Seq<
    int,
>)
    requires
        is_knot(entries, knot),
        knot.contains(at),
    ensures
        walk.len() == steps,
        forall|k: int| 0 <= k < steps ==> knot.contains(#[trigger] walk[k]),
        forall|k: int| 0 <= k < steps ==> 0 <= #[trigger] walk[k] < entries.len(),
        forall|k: int|
            #![trigger walk[k]]
            0 <= k && k + 1 < steps ==> must_precede(entries, walk[k + 1], walk[k]),
    decreases steps,
{
    if steps == 0 {
        Seq::empty()
    } else {
        let shorter = lemma_walk_back(entries, knot, at, (steps - 1) as nat);
        let last = if steps == 1 {
            at
        } else {
            let end = shorter.last();
            assert(waits_for_one_of(entries, knot, end));
            choose|from: int| #[trigger] must_precede(entries, from, end) && knot.contains(from)
        };
        assert(waits_for_one_of(entries, knot, last));
        let walk = shorter.push(last);
        assert forall|k: int|
            #![trigger walk[k]]
            0 <= k && k + 1 < steps implies must_precede(entries, walk[k + 1], walk[k]) by {
            if k + 1 < steps - 1 {
                assert(shorter[k + 1] == walk[k + 1]);
                assert(shorter[k] == walk[k]);
            }
        }
        walk
    }
}

} // verus!

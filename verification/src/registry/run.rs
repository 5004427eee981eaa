//! Passes from start to end: what holds of all their turns together.
use vstd::prelude::*;

use super::error::Error;
use super::outcome::{law_summary_goes_on, PassSummary, Stage};
use super::pass::{BootPass, BootStep, FinalizePass, FinalizeStep, ReloadPass, ReloadStep};

verus! {

/// Turn `k` of a boot pass, in which the provider boots without an error.
pub open spec fn boots<S: 'static>(
    passes: Seq<BootPass<S>>,
    turns: Seq<BootStep<S>>,
    k: int,
) -> bool {
    passes[k].gives(turns[k]) && turns[k].ends(Ok(()), Ok(passes[k + 1]))
}

/// The first turns of a boot pass, all without an error: `passes` is what the pass is
/// before, between and after them.
pub open spec fn is_boot_run<S: 'static>(passes: Seq<BootPass<S>>, turns: Seq<BootStep<S>>) -> bool {
    &&& passes.len() == turns.len() + 1
    &&& passes[0].done() == 0
    &&& forall|k: int| 0 <= k < turns.len() ==> #[trigger] boots(passes, turns, k)
}

/// A boot pass goes through the plan: turn `k` is that of provider `k`, under a label of
/// its own, so that each provider has one turn, in lifecycle order. Where the pass is over,
/// all have had theirs.
pub proof fn law_boot_pass_goes_through_the_plan<S: 'static>(
    passes: Seq<BootPass<S>>,
    turns: Seq<BootStep<S>>,
    k: int,
)
    requires
        is_boot_run(passes, turns),
        0 <= k <= turns.len(),
    ensures
        passes[k].steps() == passes[0].steps(),
        passes[k].done() == k,
        k <= passes[0].steps().len(),
        k < turns.len() ==> turns[k].pass() == passes[k]
            && passes[0].steps()[k].provider.names(turns[k].name()),
        k == turns.len() && passes[k].done() == passes[k].steps().len() ==> turns.len()
            == passes[0].steps().len(),
    decreases k,
{
    if k > 0 {
        law_boot_pass_goes_through_the_plan(passes, turns, k - 1);
        assert(boots(passes, turns, k - 1));
    } else if k < turns.len() {
        assert(boots(passes, turns, k));
    }
    if k < turns.len() {
        assert(boots(passes, turns, k));
    }
}

/// The first failure ends a boot pass: the providers before the one that failed have booted,
/// the error names that one, and no pass is left that could go on.
pub proof fn law_boot_failure_ends_the_pass<S: 'static>(
    passes: Seq<BootPass<S>>,
    turns: Seq<BootStep<S>>,
    last: BootStep<S>,
    error: Error,
    next: Result<BootPass<S>, Error>,
)
    requires
        is_boot_run(passes, turns),
        passes.last().gives(last),
        last.ends(Err(error), next),
    ensures
        last.pass().done() == turns.len(),
        passes[0].steps()[turns.len() as int].provider.names(last.name()),
        next == Err::<BootPass<S>, Error>(error.boot_error(last.name())),
{
    law_boot_pass_goes_through_the_plan(passes, turns, turns.len() as int);
}

/// Turn `k` of a finalize pass.
pub open spec fn finalizes_in_turn<S: 'static>(
    passes: Seq<FinalizePass<S>>,
    turns: Seq<FinalizeStep<S>>,
    results: Seq<Result<(), Error>>,
    k: int,
) -> bool {
    passes[k].gives(turns[k]) && turns[k].ends(results[k], passes[k + 1])
}

/// The first turns of a finalize pass: `passes` is what the pass is before, between and after
/// them, and `results` is what the providers came back with.
pub open spec fn is_finalize_run<S: 'static>(
    passes: Seq<FinalizePass<S>>,
    turns: Seq<FinalizeStep<S>>,
    results: Seq<Result<(), Error>>,
) -> bool {
    &&& passes.len() == turns.len() + 1
    &&& results.len() == turns.len()
    &&& passes[0].left() == passes[0].steps().len()
    &&& passes[0].summary() == PassSummary::start()
    &&& forall|k: int|
        0 <= k < turns.len() ==> #[trigger] finalizes_in_turn(passes, turns, results, k)
}

/// The labels of the providers that had a turn.
pub open spec fn finalize_names<S: 'static>(turns: Seq<FinalizeStep<S>>) -> Seq<&'static str> {
    turns.map_values(|turn: FinalizeStep<S>| turn.name())
}

/// The provider at place `i` of the plan has one of the first `k` turns.
pub open spec fn has_finalize_turn<S: 'static>(turns: Seq<FinalizeStep<S>>, k: int, i: int) -> bool {
    exists|t: int| 0 <= t < k && (#[trigger] turns[t]).place() == i
}

proof fn lemma_finalize_run<S: 'static>(
    passes: Seq<FinalizePass<S>>,
    turns: Seq<FinalizeStep<S>>,
    results: Seq<Result<(), Error>>,
    k: int,
)
    requires
        is_finalize_run(passes, turns, results),
        0 <= k <= turns.len(),
    ensures
        passes[k].steps() == passes[0].steps(),
        passes[k].left() <= passes[0].steps().len(),
        passes[k].summary() == PassSummary::of(
            Stage::Finalize,
            finalize_names(turns.take(k)),
            results.take(k),
        ),
        forall|t: int| 0 <= t < k ==> (#[trigger] turns[t]).place() >= passes[k].left(),
        forall|s: int, t: int|
            0 <= s < t < k ==> (#[trigger] turns[s]).place() > (#[trigger] turns[t]).place(),
        forall|t: int|
            0 <= t < k ==> {
                &&& 0 <= (#[trigger] turns[t]).place() < passes[0].steps().len()
                &&& passes[0].steps()[turns[t].place()].provider.answers_finalizable(true)
                &&& passes[0].steps()[turns[t].place()].provider.names(turns[t].name())
            },
        forall|i: int|
            passes[k].left() <= i < passes[0].steps().len() ==> #[trigger] has_finalize_turn(turns, k, i)
                || passes[0].steps()[i].provider.answers_finalizable(false),
    decreases k,
{
    if k == 0 {
        assert(finalize_names(turns.take(0)) == Seq::<&'static str>::empty());
        assert(results.take(0) == Seq::<Result<(), Error>>::empty());
    } else {
        let j = k - 1;
        lemma_finalize_run(passes, turns, results, j);
        assert(finalizes_in_turn(passes, turns, results, j));
        law_summary_goes_on(
            Stage::Finalize,
            finalize_names(turns.take(j)),
            results.take(j),
            turns[j].name(),
            results[j],
        );
        assert(finalize_names(turns.take(k)) == finalize_names(turns.take(j)).push(turns[j].name()));
        assert(results.take(k) == results.take(j).push(results[j]));
        assert forall|i: int| passes[k].left() <= i < passes[0].steps().len() implies #[trigger] has_finalize_turn(turns, k, i)
            || passes[0].steps()[i].provider.answers_finalizable(false) by {
            if has_finalize_turn(turns, j, i) {
                let t = choose|t: int| 0 <= t < j && (#[trigger] turns[t]).place() == i;
                assert(0 <= t < k && turns[t].place() == i);
            } else if i == turns[j].place() {
                assert(0 <= j < k && turns[j].place() == i);
            } else {
                assert(passes[j].steps()[i] == passes[0].steps()[i]);
            }
        }
    }
}

/// A finalize pass from start to end: the turns go against the lifecycle order, each is that of a
/// provider that shows the capability, no provider has two, every provider without a turn
/// did not show the capability when its turn would have come, and the outcome is the
/// summary of all results.
pub proof fn law_finalize_pass_is_complete<S: 'static>(
    passes: Seq<FinalizePass<S>>,
    turns: Seq<FinalizeStep<S>>,
    results: Seq<Result<(), Error>>,
    outcome: PassSummary,
)
    requires
        is_finalize_run(passes, turns, results),
        passes.last().finishes(outcome),
    ensures
        outcome == PassSummary::of(Stage::Finalize, finalize_names(turns), results),
        forall|s: int, t: int|
            0 <= s < t < turns.len() ==> (#[trigger] turns[s]).place() > (
            #[trigger] turns[t]).place(),
        forall|t: int|
            0 <= t < turns.len() ==> {
                &&& 0 <= (#[trigger] turns[t]).place() < passes[0].steps().len()
                &&& passes[0].steps()[turns[t].place()].provider.answers_finalizable(true)
                &&& passes[0].steps()[turns[t].place()].provider.names(turns[t].name())
            },
        forall|i: int|
            0 <= i < passes[0].steps().len() ==> #[trigger] has_finalize_turn(
                turns,
                turns.len() as int,
                i,
            ) || passes[0].steps()[i].provider.answers_finalizable(false),
{
    let k = turns.len() as int;
    lemma_finalize_run(passes, turns, results, k);
    assert(turns.take(k) == turns);
    assert(results.take(k) == results);
    assert forall|i: int| 0 <= i < passes[0].steps().len() implies #[trigger] has_finalize_turn(
        turns,
        k,
        i,
    ) || passes[0].steps()[i].provider.answers_finalizable(false) by {
        assert(passes[k].steps()[i] == passes[0].steps()[i]);
    }
}

/// Turn `k` of a reload pass.
pub open spec fn reloads_in_turn<S: 'static>(
    passes: Seq<ReloadPass<S>>,
    turns: Seq<ReloadStep<S>>,
    results: Seq<Result<(), Error>>,
    k: int,
) -> bool {
    passes[k].gives(turns[k]) && turns[k].ends(results[k], passes[k + 1])
}

/// The first turns of a reload pass: `passes` is what the pass is before, between and after
/// them, and `results` is what the providers came back with.
pub open spec fn is_reload_run<S: 'static>(
    passes: Seq<ReloadPass<S>>,
    turns: Seq<ReloadStep<S>>,
    results: Seq<Result<(), Error>>,
) -> bool {
    &&& passes.len() == turns.len() + 1
    &&& results.len() == turns.len()
    &&& passes[0].done() == 0
    &&& passes[0].summary() == PassSummary::start()
    &&& forall|k: int|
        0 <= k < turns.len() ==> #[trigger] reloads_in_turn(passes, turns, results, k)
}

/// The labels of the providers that had a turn.
pub open spec fn reload_names<S: 'static>(turns: Seq<ReloadStep<S>>) -> Seq<&'static str> {
    turns.map_values(|turn: ReloadStep<S>| turn.name())
}

/// The provider at place `i` of the plan has one of the first `k` turns.
pub open spec fn has_reload_turn<S: 'static>(turns: Seq<ReloadStep<S>>, k: int, i: int) -> bool {
    exists|t: int| 0 <= t < k && (#[trigger] turns[t]).place() == i
}

proof fn lemma_reload_run<S: 'static>(
    passes: Seq<ReloadPass<S>>,
    turns: Seq<ReloadStep<S>>,
    results: Seq<Result<(), Error>>,
    k: int,
)
    requires
        is_reload_run(passes, turns, results),
        0 <= k <= turns.len(),
    ensures
        passes[k].steps() == passes[0].steps(),
        passes[k].done() <= passes[0].steps().len(),
        passes[k].summary() == PassSummary::of(
            Stage::Reload,
            reload_names(turns.take(k)),
            results.take(k),
        ),
        forall|t: int| 0 <= t < k ==> (#[trigger] turns[t]).place() < passes[k].done(),
        forall|s: int, t: int|
            0 <= s < t < k ==> (#[trigger] turns[s]).place() < (#[trigger] turns[t]).place(),
        forall|t: int|
            0 <= t < k ==> {
                &&& 0 <= (#[trigger] turns[t]).place() < passes[0].steps().len()
                &&& passes[0].steps()[turns[t].place()].provider.answers_reloadable(true)
                &&& passes[0].steps()[turns[t].place()].provider.names(turns[t].name())
            },
        forall|i: int|
            0 <= i < passes[k].done() ==> #[trigger] has_reload_turn(turns, k, i)
                || passes[0].steps()[i].provider.answers_reloadable(false),
    decreases k,
{
    if k == 0 {
        assert(reload_names(turns.take(0)) == Seq::<&'static str>::empty());
        assert(results.take(0) == Seq::<Result<(), Error>>::empty());
    } else {
        let j = k - 1;
        lemma_reload_run(passes, turns, results, j);
        assert(reloads_in_turn(passes, turns, results, j));
        law_summary_goes_on(
            Stage::Reload,
            reload_names(turns.take(j)),
            results.take(j),
            turns[j].name(),
            results[j],
        );
        assert(reload_names(turns.take(k)) == reload_names(turns.take(j)).push(turns[j].name()));
        assert(results.take(k) == results.take(j).push(results[j]));
        assert forall|i: int| 0 <= i < passes[k].done() implies #[trigger] has_reload_turn(turns, k, i)
            || passes[0].steps()[i].provider.answers_reloadable(false) by {
            if has_reload_turn(turns, j, i) {
                let t = choose|t: int| 0 <= t < j && (#[trigger] turns[t]).place() == i;
                assert(0 <= t < k && turns[t].place() == i);
            } else if i == turns[j].place() {
                assert(0 <= j < k && turns[j].place() == i);
            } else {
                assert(passes[j].steps()[i] == passes[0].steps()[i]);
            }
        }
    }
}

/// A reload pass from start to end: the turns go in lifecycle order, each is that of a
/// provider that shows the capability, no provider has two, every provider without a turn
/// did not show the capability when its turn would have come, and the outcome is the
/// summary of all results.
pub proof fn law_reload_pass_is_complete<S: 'static>(
    passes: Seq<ReloadPass<S>>,
    turns: Seq<ReloadStep<S>>,
    results: Seq<Result<(), Error>>,
    outcome: PassSummary,
)
    requires
        is_reload_run(passes, turns, results),
        passes.last().finishes(outcome),
    ensures
        outcome == PassSummary::of(Stage::Reload, reload_names(turns), results),
        forall|s: int, t: int|
            0 <= s < t < turns.len() ==> (#[trigger] turns[s]).place() < (
            #[trigger] turns[t]).place(),
        forall|t: int|
            0 <= t < turns.len() ==> {
                &&& 0 <= (#[trigger] turns[t]).place() < passes[0].steps().len()
                &&& passes[0].steps()[turns[t].place()].provider.answers_reloadable(true)
                &&& passes[0].steps()[turns[t].place()].provider.names(turns[t].name())
            },
        forall|i: int|
            0 <= i < passes[0].steps().len() ==> #[trigger] has_reload_turn(
                turns,
                turns.len() as int,
                i,
            ) || passes[0].steps()[i].provider.answers_reloadable(false),
{
    let k = turns.len() as int;
    lemma_reload_run(passes, turns, results, k);
    assert(turns.take(k) == turns);
    assert(results.take(k) == results);
    assert forall|i: int| 0 <= i < passes[0].steps().len() implies #[trigger] has_reload_turn(
        turns,
        k,
        i,
    ) || passes[0].steps()[i].provider.answers_reloadable(false) by {
        assert(passes[k].steps()[i] == passes[0].steps()[i]);
    }
}

} // verus!

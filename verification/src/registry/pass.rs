//! Passes over the lifecycle plan.
//!
//! What a provider does in a pass takes time and is performed by the caller. A pass
//! says which provider is next, is told what came back, and says what follows. It is
//! handed over by value: a step holds its pass until the step has been completed.
use vstd::prelude::*;

use super::error::Error;
use super::outcome::{FinalizeOutcome, ReloadOutcome};
#[allow(unused_imports)]
use super::outcome::{PassSummary, Stage};
use super::{Planned, Registry};
#[allow(unused_imports)]
use super::Slot;
use crate::text::{same_text, text3};

verus! {

/// A boot pass: every provider in lifecycle order, up to the first failure.
#[verifier::reject_recursive_types(S)]
pub struct BootPass<S: 'static> {
    steps: Vec<Planned<S>>,
    done: usize,
}

/// The provider that is booted now.
#[verifier::reject_recursive_types(S)]
pub struct BootStep<S: 'static> {
    pass: BootPass<S>,
    name: &'static str,
}

/// How a boot pass goes on.
#[verifier::reject_recursive_types(S)]
pub enum BootNext<S: 'static> {
    /// Boot this provider.
    Step(BootStep<S>),
    /// Every provider has booted.
    Done,
}

impl<S: 'static> BootPass<S> {
    /// The providers of the pass, in the order in which they have their turn.
    pub closed spec fn steps(self) -> Seq<Planned<S>> {
        self.steps@
    }

    /// How many of them have booted.
    pub closed spec fn done(self) -> nat {
        self.done as nat
    }

    pub closed spec fn wf(self) -> bool {
        self.done <= self.steps@.len()
    }

    /// The next step of the pass can be `step`.
    pub open spec fn gives(self, step: BootStep<S>) -> bool {
        &&& self.done() < self.steps().len()
        &&& step.pass() == self
        &&& self.steps()[self.done() as int].provider.names(step.name())
    }

    /// The step that follows.
    pub fn next(self) -> (next: BootNext<S>)
        requires
            self.wf(),
        ensures
            match next {
                BootNext::Step(step) => step.wf() && self.gives(step),
                BootNext::Done => self.done() == self.steps().len(),
            },
    {
        if self.done >= self.steps.len() {
            return BootNext::Done;
        }
        let name = self.steps[self.done].provider.name();
        BootNext::Step(BootStep { pass: self, name })
    }
}

impl<S: 'static> BootStep<S> {
    /// The pass as it was before this step.
    pub closed spec fn pass(self) -> BootPass<S> {
        self.pass
    }

    /// The label of the provider, as it was given when its turn came.
    pub closed spec fn name(self) -> &'static str {
        self.name
    }

    pub closed spec fn wf(self) -> bool {
        self.pass.done < self.pass.steps@.len()
    }

    /// The provider whose turn it is.
    pub fn provider(&self) -> (planned: &Planned<S>)
        requires
            self.wf(),
        ensures
            *planned == self.pass().steps()[self.pass().done() as int],
    {
        &self.pass.steps[self.pass.done]
    }

    /// Ending the step with `result` leads to `next`.
    pub open spec fn ends(
        self,
        result: Result<(), Error>,
        next: Result<BootPass<S>, Error>,
    ) -> bool {
        match (result, next) {
            (Ok(_), Ok(pass)) => {
                &&& pass.steps() == self.pass().steps()
                &&& pass.done() == self.pass().done() + 1
            },
            (Err(error), Err(failure)) => failure == error.boot_error(self.name()),
            _ => false,
        }
    }

    /// Ends the step with what the provider came back with. A failure ends the pass,
    /// with an error that names the provider.
    pub fn complete(self, result: Result<(), Error>) -> (next: Result<BootPass<S>, Error>)
        requires
            self.wf(),
        ensures
            self.ends(result, next),
            next matches Ok(pass) ==> pass.wf(),
    {
        assert(self.pass.steps@.len() == self.pass.steps.len());
        match result {
            Ok(_) => Ok(BootPass { steps: self.pass.steps, done: self.pass.done + 1 }),
            Err(error) => Err(error.into_boot(self.name)),
        }
    }
}

/// A finalize pass: every provider that shows the capability, in reverse lifecycle order.
#[verifier::reject_recursive_types(S)]
pub struct FinalizePass<S: 'static> {
    steps: Vec<Planned<S>>,
    left: usize,
    outcome: FinalizeOutcome,
}

/// The provider that is finalized now.
#[verifier::reject_recursive_types(S)]
pub struct FinalizeStep<S: 'static> {
    pass: FinalizePass<S>,
    name: &'static str,
}

/// How a finalize pass goes on.
#[verifier::reject_recursive_types(S)]
pub enum FinalizeNext<S: 'static> {
    /// Finalize this provider.
    Step(FinalizeStep<S>),
    /// Every provider has had its turn.
    Done(FinalizeOutcome),
}

impl<S: 'static> FinalizePass<S> {
    /// The lifecycle plan. The pass goes through it from its end.
    pub closed spec fn steps(self) -> Seq<Planned<S>> {
        self.steps@
    }

    /// How many steps at the head of the plan have not had their turn yet.
    pub closed spec fn left(self) -> nat {
        self.left as nat
    }

    /// What has been counted so far.
    pub closed spec fn summary(self) -> PassSummary {
        self.outcome@
    }

    pub closed spec fn wf(self) -> bool {
        &&& self.left <= self.steps@.len()
        &&& self.outcome@.passed + self.left <= self.steps@.len()
    }

    /// The providers of the steps from `low` up to `high` have no finalize capability to show.
    pub open spec fn skips(self, low: int, high: int) -> bool {
        forall|k: int|
            low <= k < high ==> (#[trigger] self.steps()[k]).provider.answers_finalizable(false)
    }

    /// The next step of the pass can be `step`.
    pub open spec fn gives(self, step: FinalizeStep<S>) -> bool {
        &&& step.pass().steps() == self.steps()
        &&& step.pass().summary() == self.summary()
        &&& 0 < step.pass().left() <= self.left()
        &&& self.skips(step.pass().left() as int, self.left() as int)
        &&& self.steps()[step.place()].provider.answers_finalizable(true)
        &&& self.steps()[step.place()].provider.names(step.name())
    }

    /// The pass can be over, with the outcome `summary`.
    pub open spec fn finishes(self, summary: PassSummary) -> bool {
        &&& self.skips(0, self.left() as int)
        &&& summary == self.summary()
    }

    /// The step that follows. Providers that do not show the capability are passed over.
    pub fn next(self) -> (next: FinalizeNext<S>)
        requires
            self.wf(),
        ensures
            match next {
                FinalizeNext::Step(step) => step.wf() && self.gives(step),
                FinalizeNext::Done(outcome) => self.finishes(outcome@),
            },
    {
        let FinalizePass { steps, left: start, outcome } = self;
        let mut left: usize = start;
        while left > 0
            invariant
                left <= start <= steps@.len(),
                outcome@.passed + start <= steps@.len(),
                forall|k: int|
                    left <= k < start ==> (#[trigger] steps@[k]).provider.answers_finalizable(
                        false,
                    ),
                self.steps() == steps@,
                self.left() == start,
                self.summary() == outcome@,
            decreases left,
        {
            if steps[left - 1].provider.is_finalizable() {
                let name = steps[left - 1].provider.name();
                return FinalizeNext::Step(
                    FinalizeStep { pass: FinalizePass { steps, left, outcome }, name },
                );
            }
            left = left - 1;
        }
        FinalizeNext::Done(outcome)
    }
}

impl<S: 'static> FinalizeStep<S> {
    /// The pass as it was before this step.
    pub closed spec fn pass(self) -> FinalizePass<S> {
        self.pass
    }

    /// The label of the provider, as it was given when its turn came.
    pub closed spec fn name(self) -> &'static str {
        self.name
    }

    pub closed spec fn wf(self) -> bool {
        &&& self.pass.wf()
        &&& self.pass.left > 0
    }

    /// The provider whose turn it is.
    pub fn provider(&self) -> (planned: &Planned<S>)
        requires
            self.wf(),
        ensures
            *planned == self.pass().steps()[self.place()],
    {
        &self.pass.steps[self.pass.left - 1]
    }

    /// The place of the provider in the lifecycle plan.
    pub open spec fn place(self) -> int {
        self.pass().left() - 1
    }

    /// Ending the step with `result` leads to `next`.
    pub open spec fn ends(self, result: Result<(), Error>, next: FinalizePass<S>) -> bool {
        &&& next.steps() == self.pass().steps()
        &&& next.left() == self.pass().left() - 1
        &&& next.summary() == self.pass().summary().noted(Stage::Finalize, self.name(), result)
    }

    /// Ends the step with what the provider came back with. A failure is kept and
    /// does not stop later finalizers.
    pub fn complete(self, result: Result<(), Error>) -> (pass: FinalizePass<S>)
        requires
            self.wf(),
        ensures
            pass.wf(),
            self.ends(result, pass),
    {
        let FinalizeStep { pass: FinalizePass { steps, left, outcome }, name } = self;
        let mut outcome = outcome;
        assert(steps@.len() == steps.len());
        outcome.note(name, result);
        FinalizePass { steps, left: left - 1, outcome }
    }
}

/// A reload pass: every provider that shows the capability, in lifecycle order.
#[verifier::reject_recursive_types(S)]
pub struct ReloadPass<S: 'static> {
    steps: Vec<Planned<S>>,
    done: usize,
    outcome: ReloadOutcome,
}

/// The provider that is reloaded now.
#[verifier::reject_recursive_types(S)]
pub struct ReloadStep<S: 'static> {
    pass: ReloadPass<S>,
    name: &'static str,
}

/// How a reload pass goes on.
#[verifier::reject_recursive_types(S)]
pub enum ReloadNext<S: 'static> {
    /// Reload this provider.
    Step(ReloadStep<S>),
    /// Every provider has had its turn.
    Done(ReloadOutcome),
}

impl<S: 'static> ReloadPass<S> {
    /// The lifecycle plan.
    pub closed spec fn steps(self) -> Seq<Planned<S>> {
        self.steps@
    }

    /// How many of its steps have had their turn.
    pub closed spec fn done(self) -> nat {
        self.done as nat
    }

    /// What has been counted so far.
    pub closed spec fn summary(self) -> PassSummary {
        self.outcome@
    }

    pub closed spec fn wf(self) -> bool {
        &&& self.done <= self.steps@.len()
        &&& self.outcome@.passed <= self.done
    }

    /// The providers of the steps from `low` up to `high` have no reload capability to show.
    pub open spec fn skips(self, low: int, high: int) -> bool {
        forall|k: int|
            low <= k < high ==> (#[trigger] self.steps()[k]).provider.answers_reloadable(false)
    }

    /// The next step of the pass can be `step`.
    pub open spec fn gives(self, step: ReloadStep<S>) -> bool {
        &&& step.pass().steps() == self.steps()
        &&& step.pass().summary() == self.summary()
        &&& self.done() <= step.place() < self.steps().len()
        &&& self.skips(self.done() as int, step.place())
        &&& self.steps()[step.place()].provider.answers_reloadable(true)
        &&& self.steps()[step.place()].provider.names(step.name())
    }

    /// The pass can be over, with the outcome `summary`.
    pub open spec fn finishes(self, summary: PassSummary) -> bool {
        &&& self.skips(self.done() as int, self.steps().len() as int)
        &&& summary == self.summary()
    }

    /// The step that follows. Providers that do not show the capability are passed over.
    pub fn next(self) -> (next: ReloadNext<S>)
        requires
            self.wf(),
        ensures
            match next {
                ReloadNext::Step(step) => step.wf() && self.gives(step),
                ReloadNext::Done(outcome) => self.finishes(outcome@),
            },
    {
        let ReloadPass { steps, done: start, outcome } = self;
        let mut done: usize = start;
        while done < steps.len()
            invariant
                start <= done <= steps@.len(),
                outcome@.passed <= start,
                forall|k: int|
                    start <= k < done ==> (#[trigger] steps@[k]).provider.answers_reloadable(
                        false,
                    ),
                self.steps() == steps@,
                self.done() == start,
                self.summary() == outcome@,
            decreases steps.len() - done,
        {
            let name = steps[done].provider.name();
            if steps[done].provider.is_reloadable() {
                return ReloadNext::Step(
                    ReloadStep { pass: ReloadPass { steps, done, outcome }, name },
                );
            }
            done = done + 1;
        }
        ReloadNext::Done(outcome)
    }
}

impl<S: 'static> ReloadStep<S> {
    /// The pass as it was before this step.
    pub closed spec fn pass(self) -> ReloadPass<S> {
        self.pass
    }

    /// The label of the provider, as it was given when its turn came.
    pub closed spec fn name(self) -> &'static str {
        self.name
    }

    pub closed spec fn wf(self) -> bool {
        &&& self.pass.wf()
        &&& self.pass.done < self.pass.steps@.len()
    }

    /// The provider whose turn it is.
    pub fn provider(&self) -> (planned: &Planned<S>)
        requires
            self.wf(),
        ensures
            *planned == self.pass().steps()[self.pass().done() as int],
    {
        &self.pass.steps[self.pass.done]
    }

    /// The place of the provider in the lifecycle plan.
    pub open spec fn place(self) -> int {
        self.pass().done() as int
    }

    /// Ending the step with `result` leads to `next`.
    pub open spec fn ends(self, result: Result<(), Error>, next: ReloadPass<S>) -> bool {
        &&& next.steps() == self.pass().steps()
        &&& next.done() == self.pass().done() + 1
        &&& next.summary() == self.pass().summary().noted(Stage::Reload, self.name(), result)
    }

    /// Ends the step with what the provider came back with. A failure is kept and
    /// does not stop later reloads.
    pub fn complete(self, result: Result<(), Error>) -> (pass: ReloadPass<S>)
        requires
            self.wf(),
        ensures
            pass.wf(),
            self.ends(result, pass),
    {
        let ReloadStep { pass: ReloadPass { steps, done, outcome }, name } = self;
        let mut outcome = outcome;
        assert(steps@.len() == steps.len());
        outcome.note(name, result);
        ReloadPass { steps, done: done + 1, outcome }
    }
}

/// A single provider that is reloaded by name.
#[verifier::reject_recursive_types(S)]
pub struct ReloadTarget<S: 'static> {
    planned: Planned<S>,
    name: &'static str,
}

impl<S: 'static> ReloadTarget<S> {
    /// The provider that is to reload.
    pub closed spec fn planned(self) -> Planned<S> {
        self.planned
    }

    /// Its label.
    pub closed spec fn name(self) -> &'static str {
        self.name
    }

    /// The provider that is to reload.
    pub fn provider(&self) -> (planned: &Planned<S>)
        ensures
            *planned == self.planned(),
    {
        &self.planned
    }

    /// What the caller is told, given what the provider came back with.
    pub fn complete(self, result: Result<(), Error>) -> (told: Result<(), Error>)
        ensures
            match (result, told) {
                (Ok(_), Ok(_)) => true,
                (Err(error), Err(failure)) => failure == error.reload_error(self.name()),
                _ => false,
            },
    {
        match result {
            Ok(_) => Ok(()),
            Err(error) => Err(error.into_reload(self.name)),
        }
    }
}

impl<S: 'static> Registry<S> {
    /// Starts a boot pass over all providers in lifecycle order.
    pub fn boot_all(&mut self) -> (result: Result<BootPass<S>, Error>)
        requires
            old(self).wf(),
        ensures
            final(self).wf(),
            match result {
                Ok(pass) => {
                    &&& pass.wf()
                    &&& pass.done() == 0
                    &&& old(self).plans(*final(self), Ok(pass.steps()))
                },
                Err(error) => old(self).plans(*final(self), Err(error)),
            },
    {
        match self.lifecycle_plan() {
            Ok(steps) => Ok(BootPass { steps, done: 0 }),
            Err(error) => Err(error),
        }
    }

    /// Starts a finalize pass over the providers that show the capability, in reverse
    /// lifecycle order. It is due after the runnable tasks have drained.
    pub fn finalize_all(&mut self) -> (result: Result<FinalizePass<S>, Error>)
        requires
            old(self).wf(),
        ensures
            final(self).wf(),
            match result {
                Ok(pass) => {
                    &&& pass.wf()
                    &&& pass.left() == pass.steps().len()
                    &&& pass.summary() == PassSummary::start()
                    &&& old(self).plans(*final(self), Ok(pass.steps()))
                },
                Err(error) => old(self).plans(*final(self), Err(error)),
            },
    {
        match self.lifecycle_plan() {
            Ok(steps) => {
                let left: usize = steps.len();
                Ok(FinalizePass { steps, left, outcome: FinalizeOutcome::default() })
            },
            Err(error) => Err(error),
        }
    }

    /// Starts a reload pass over the providers that show the capability, in lifecycle
    /// order, once the state has reloaded itself with `state_result`. Where that has
    /// failed no provider is reloaded, and its error is handed back as it is.
    pub fn reload_all(&mut self, state_result: Result<(), Error>) -> (result: Result<
        ReloadPass<S>,
        Error,
    >)
        requires
            old(self).wf(),
        ensures
            final(self).wf(),
            state_result matches Err(error) ==> result == Err::<ReloadPass<S>, Error>(error)
                && *final(self) == *old(self),
            state_result is Ok ==> match result {
                Ok(pass) => {
                    &&& pass.wf()
                    &&& pass.done() == 0
                    &&& pass.summary() == PassSummary::start()
                    &&& old(self).plans(*final(self), Ok(pass.steps()))
                },
                Err(error) => old(self).plans(*final(self), Err(error)),
            },
    {
        if let Err(error) = state_result {
            return Err(error);
        }
        match self.lifecycle_plan() {
            Ok(steps) => Ok(ReloadPass { steps, done: 0, outcome: ReloadOutcome::default() }),
            Err(error) => Err(error),
        }
    }

    /// Asked for its label, the provider registered at `at` can give one other than `name`.
    pub open spec fn goes_by_another_name(self, at: int, name: Seq<char>) -> bool {
        exists|given: &'static str| #[trigger]
            self.slots()[at].provider.names(given) && given@ != name
    }

    /// Asked for their labels in order of registration, the providers can lead to the
    /// one at `at` as the first that is called `name`.
    pub open spec fn finds(self, name: Seq<char>, at: int) -> bool {
        &&& 0 <= at < self.slots().len()
        &&& forall|i: int| 0 <= i < at ==> #[trigger] self.goes_by_another_name(i, name)
        &&& exists|given: &'static str| #[trigger]
            self.slots()[at].provider.names(given) && given@ == name
    }

    /// Selects the provider called `name` for a reload of its own.
    pub fn reload_one(&self, name: &str) -> (result: Result<ReloadTarget<S>, Error>)
        ensures
            match result {
                Ok(target) => {
                    &&& self.finds(name@, target.planned().position as int)
                    &&& target.planned().provider
                        == self.slots()[target.planned().position as int].provider
                    &&& target.planned().provider.answers_reloadable(true)
                    &&& target.planned().provider.names(target.name())
                },
                Err(error) => {
                    ||| (error.says(
                        "reload_by_name: no provider registered with name '"@ + name@ + "'"@,
                    ) && forall|i: int|
                        0 <= i < self.slots().len() ==> #[trigger] self.goes_by_another_name(
                            i,
                            name@,
                        ))
                    ||| (error.says(
                        "reload_by_name: provider '"@ + name@ + "' is not reloadable"@,
                    ) && exists|at: int| #[trigger]
                        self.finds(name@, at)
                            && self.slots()[at].provider.answers_reloadable(false))
                },
            },
    {
        let providers = self.providers();
        let mut i: usize = 0;
        while i < providers.len()
            invariant
                providers@ == self.slots().map_values(|slot: Slot<S>| slot.provider),
                i <= providers@.len(),
                forall|j: int| 0 <= j < i ==> #[trigger] self.goes_by_another_name(j, name@),
            decreases providers.len() - i,
        {
            let given = providers[i].name();
            assert(self.slots()[i as int].provider.names(given));
            if same_text(given, name) {
                assert(self.finds(name@, i as int));
                if !providers[i].is_reloadable() {
                    return Err(
                        Error::other(
                            text3("reload_by_name: provider '", name, "' is not reloadable"),
                        ),
                    );
                }
                let label = providers[i].name();
                let provider = providers[i].share();
                return Ok(
                    ReloadTarget { planned: Planned { position: i, provider }, name: label },
                );
            }
            assert(self.goes_by_another_name(i as int, name@));
            i = i + 1;
        }
        Err(Error::other(text3("reload_by_name: no provider registered with name '", name, "'")))
    }
}

/// A reload by name goes to the first provider that is called so, in order of registration:
/// where that one always goes by the name, none before it ever does, and it always shows the
/// capability, it is the one to reload; where it never shows the capability, and where nobody
/// ever goes by the name, that is an error.
pub proof fn law_reload_by_name_takes_the_first<S: 'static>(
    registry: Registry<S>,
    name: &str,
    result: Result<ReloadTarget<S>, Error>,
    at: int,
)
    requires
        call_ensures(Registry::<S>::reload_one, (&registry, name), result),
        0 <= at <= registry.slots().len(),
        forall|i: int, given: &'static str|
            0 <= i < at && #[trigger] registry.slots()[i].provider.names(given) ==> given@ != name@,
        at < registry.slots().len() ==> forall|given: &'static str| #[trigger]
            registry.slots()[at].provider.names(given) ==> given@ == name@,
    ensures
        at == registry.slots().len() ==> (result matches Err(error) && error.says(
            "reload_by_name: no provider registered with name '"@ + name@ + "'"@,
        )),
        at < registry.slots().len() ==> (result matches Ok(target) ==> target.planned().position
            == at && target.planned().provider == registry.slots()[at].provider),
        at < registry.slots().len() && !registry.slots()[at].provider.answers_reloadable(false)
            ==> result is Ok,
        at < registry.slots().len() && !registry.slots()[at].provider.answers_reloadable(true) ==> (
        result matches Err(error) && error.says(
            "reload_by_name: provider '"@ + name@ + "' is not reloadable"@,
        )),
{
    assert forall|other: int| #[trigger] registry.finds(name@, other) implies other == at by {
        if other < at {
            let given = choose|given: &'static str| #[trigger]
                registry.slots()[other].provider.names(given) && given@ == name@;
        }
        if at < other {
            assert(registry.goes_by_another_name(at, name@));
        }
    }
    if at < registry.slots().len() {
        assert(!registry.goes_by_another_name(at, name@));
    }
}

} // verus!

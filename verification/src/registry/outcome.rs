//! What a pass over the providers reports.
use vstd::prelude::*;

use super::error::Error;

verus! {

/// The passes that go on after a failure and report what failed.
pub enum Stage {
    Validate,
    Reload,
    Finalize,
}

impl Stage {
    /// The error that is kept where the provider `name` fails with `error` in this pass.
    pub open spec fn error(self, error: Error, name: &'static str) -> Error {
        match self {
            Stage::Validate => error.validate_error(name),
            Stage::Reload => error.reload_error(name),
            Stage::Finalize => error.finalize_error(name),
        }
    }
}

/// What a completed pass amounts to: how many providers succeeded, and which failed
/// with which error, in the order of the pass.
pub struct PassSummary {
    pub passed: nat,
    pub failures: Seq<(&'static str, Error)>,
}

impl PassSummary {
    /// Nothing has been tried yet.
    pub open spec fn start() -> Self {
        PassSummary { passed: 0, failures: Seq::empty() }
    }

    /// One more provider called `name` has come back with `result`.
    pub open spec fn noted(self, stage: Stage, name: &'static str, result: Result<(), Error>) -> Self {
        match result {
            Ok(_) => self.with_success(),
            Err(error) => self.with_failure(name, stage.error(error, name)),
        }
    }

    /// The summary of a pass in which the providers called `names` have come back with
    /// `results`, one after the other.
    pub open spec fn of(
        stage: Stage,
        names: Seq<&'static str>,
        results: Seq<Result<(), Error>>,
    ) -> Self
        decreases results.len(),
    {
        if results.len() == 0 {
            Self::start()
        } else {
            Self::of(stage, names, results.drop_last()).noted(
                stage,
                names[results.len() - 1],
                results.last(),
            )
        }
    }

    /// One more provider has succeeded.
    pub open spec fn with_success(self) -> Self {
        PassSummary { passed: self.passed + 1, failures: self.failures }
    }

    /// One more provider has failed.
    pub open spec fn with_failure(self, name: &'static str, error: Error) -> Self {
        PassSummary { passed: self.passed, failures: self.failures.push((name, error)) }
    }
}

/// The summary depends on the names of the providers that have come back, on no others.
proof fn lemma_summary_needs_its_names(
    stage: Stage,
    names: Seq<&'static str>,
    fewer: Seq<&'static str>,
    results: Seq<Result<(), Error>>,
)
    requires
        results.len() <= fewer.len() <= names.len(),
        forall|k: int| 0 <= k < fewer.len() ==> #[trigger] names[k] == fewer[k],
    ensures
        PassSummary::of(stage, names, results) == PassSummary::of(stage, fewer, results),
    decreases results.len(),
{
    if results.len() > 0 {
        lemma_summary_needs_its_names(stage, names, fewer, results.drop_last());
    }
}

/// Going on with one more provider: the summary of the longer pass is that of the shorter one
/// with the new result noted.
pub proof fn law_summary_goes_on(
    stage: Stage,
    names: Seq<&'static str>,
    results: Seq<Result<(), Error>>,
    name: &'static str,
    result: Result<(), Error>,
)
    requires
        names.len() == results.len(),
    ensures
        PassSummary::of(stage, names.push(name), results.push(result)) == PassSummary::of(
            stage,
            names,
            results,
        ).noted(stage, name, result),
{
    assert(results.push(result).drop_last() == results);
    lemma_summary_needs_its_names(stage, names.push(name), names, results);
}

/// How many of the results are failures.
pub open spec fn failure_count(results: Seq<Result<(), Error>>) -> nat
    decreases results.len(),
{
    if results.len() == 0 {
        0
    } else if results.last() is Err {
        failure_count(results.drop_last()) + 1
    } else {
        failure_count(results.drop_last())
    }
}

/// No provider of a pass is lost: each one that came back is counted as a success or
/// kept as a failure, and a failure does not end the pass.
pub proof fn law_pass_accounts_for_all(
    stage: Stage,
    names: Seq<&'static str>,
    results: Seq<Result<(), Error>>,
)
    ensures
        PassSummary::of(stage, names, results).failures.len() == failure_count(results),
        PassSummary::of(stage, names, results).passed + failure_count(results) == results.len(),
    decreases results.len(),
{
    if results.len() > 0 {
        law_pass_accounts_for_all(stage, names, results.drop_last());
    }
}

/// Every failure of a pass is retained: the provider that came back as number `k` with an
/// error is found with its name and that error, behind the failures before it.
pub proof fn law_failures_are_retained(
    stage: Stage,
    names: Seq<&'static str>,
    results: Seq<Result<(), Error>>,
    k: int,
)
    requires
        0 <= k < results.len(),
        results[k] is Err,
    ensures
        failure_count(results.take(k)) < failure_count(results),
        PassSummary::of(stage, names, results).failures[failure_count(results.take(k)) as int] == (
            names[k],
            stage.error(results[k]->Err_0, names[k]),
        ),
    decreases results.len(),
{
    law_pass_accounts_for_all(stage, names, results.drop_last());
    if k < results.len() - 1 {
        law_failures_are_retained(stage, names, results.drop_last(), k);
        assert(results.drop_last().take(k) == results.take(k));
    } else {
        assert(results.drop_last() == results.take(k));
    }
}

/// A pass counts each provider once, as a success or as a failure, whatever came before it. It
/// is without failures exactly if every provider came back without an error.
pub proof fn law_pass_counts_each_once(
    stage: Stage,
    names: Seq<&'static str>,
    results: Seq<Result<(), Error>>,
)
    ensures
        PassSummary::of(stage, names, results).passed + PassSummary::of(
            stage,
            names,
            results,
        ).failures.len() == results.len(),
        PassSummary::of(stage, names, results).failures.len() == 0 <==> forall|k: int|
            0 <= k < results.len() ==> (#[trigger] results[k]) is Ok,
        forall|k: int|
            0 <= k < results.len() && (#[trigger] results[k]) is Err ==> exists|j: int|
                0 <= j < PassSummary::of(stage, names, results).failures.len() && (
                #[trigger] PassSummary::of(stage, names, results).failures[j]).0 == names[k],
        forall|j: int|
            0 <= j < PassSummary::of(stage, names, results).failures.len() ==> exists|k: int|
                0 <= k < results.len() && (#[trigger] results[k]) is Err && names[k] == (
                #[trigger] PassSummary::of(stage, names, results).failures[j]).0,
    decreases results.len(),
{
    if results.len() > 0 {
        let fewer = results.drop_last();
        let earlier = PassSummary::of(stage, names, fewer).failures;
        let all = PassSummary::of(stage, names, results).failures;
        let last = results.len() - 1;
        law_pass_counts_each_once(stage, names, fewer);
        assert forall|k: int| 0 <= k < fewer.len() implies #[trigger] fewer[k] == results[k] by {}
        assert(results[last] == results.last());
        assert forall|j: int| 0 <= j < earlier.len() implies #[trigger] all[j] == earlier[j] by {}
        if all.len() == 0 {
            assert forall|k: int| 0 <= k < results.len() implies (#[trigger] results[k]) is Ok by {
                if k < last {
                    assert(fewer[k] is Ok);
                }
            }
        }
        if forall|k: int| 0 <= k < results.len() ==> (#[trigger] results[k]) is Ok {
            assert forall|k: int| 0 <= k < fewer.len() implies (#[trigger] fewer[k]) is Ok by {
                assert(results[k] is Ok);
            }
        }
        assert forall|k: int| 0 <= k < results.len() && (#[trigger] results[k]) is Err implies exists|
            j: int,
        | 0 <= j < all.len() && (#[trigger] all[j]).0 == names[k] by {
            if k < last {
                assert(fewer[k] is Err);
                let j = choose|j: int| 0 <= j < earlier.len() && (#[trigger] earlier[j]).0 == names[k];
                assert(all[j].0 == names[k]);
            } else {
                assert(all[all.len() - 1].0 == names[k]);
            }
        }
        assert forall|j: int| 0 <= j < all.len() implies exists|k: int|
            0 <= k < results.len() && (#[trigger] results[k]) is Err && names[k] == (
            #[trigger] all[j]).0 by {
            if j < earlier.len() {
                assert(all[j] == earlier[j]);
                let k = choose|k: int|
                    0 <= k < fewer.len() && (#[trigger] fewer[k]) is Err && names[k]
                        == earlier[j].0;
                assert(results[k] is Err);
            } else {
                assert(results[last] is Err);
            }
        }
    }
}

/// A failure is told by its stage: a plain error is kept as one of the pass in which it came
/// up, with the name of the provider, and any other error is kept as it is.
pub proof fn law_failure_is_told_by_its_stage(stage: Stage, error: Error, name: &'static str)
    ensures
        error !is Other ==> stage.error(error, name) == error,
        error matches Error::Other(source) ==> match stage {
            Stage::Validate => stage.error(error, name) == Error::Validate { name, source },
            Stage::Reload => stage.error(error, name) == Error::Reload { name, source },
            Stage::Finalize => stage.error(error, name) == Error::Finalize { name, source },
        },
{
}

/// One provider failure retained by a full validation pass.
#[derive(Debug)]
pub struct ValidationFailure {
    provider: &'static str,
    error: Error,
}

impl View for ValidationFailure {
    type V = (&'static str, Error);

    closed spec fn view(&self) -> (&'static str, Error) {
        (self.provider, self.error)
    }
}

impl ValidationFailure {
    pub fn provider(&self) -> (provider: &'static str)
        ensures
            provider == self@.0,
    {
        self.provider
    }

    pub fn error(&self) -> (error: &Error)
        ensures
            *error == self@.1,
    {
        &self.error
    }

    pub fn into_error(self) -> (error: Error)
        ensures
            error == self@.1,
    {
        self.error
    }
}

/// Result of validating every provider in lifecycle order.
///
/// Failures of the lifecycle plan are reported apart. Individual provider failures
/// are retained here so callers can report the complete invalid configuration in
/// one pass.
#[derive(Debug)]
#[must_use]
pub struct ValidationOutcome {
    validated_count: usize,
    failures: Vec<ValidationFailure>,
}

impl View for ValidationOutcome {
    type V = PassSummary;

    closed spec fn view(&self) -> PassSummary {
        PassSummary {
            passed: self.validated_count as nat,
            failures: self.failures@.map_values(|failure: ValidationFailure| failure@),
        }
    }
}

impl ValidationOutcome {
    /// Counts one more result. A failure is kept with the name of the provider and
    /// does not end the pass.
    pub fn note(&mut self, name: &'static str, result: Result<(), Error>)
        requires
            old(self)@.passed < usize::MAX,
        ensures
            final(self)@ == old(self)@.noted(Stage::Validate, name, result),
    {
        let ghost before = self.failures@;
        match result {
            Ok(_) => {
                self.validated_count = self.validated_count + 1;
            },
            Err(error) => {
                self.failures.push(ValidationFailure { provider: name, error: error.into_validate(name) });
                proof {
                    assert(self@.failures == before.map_values(|failure: ValidationFailure| failure@).push(
                        (name, error.validate_error(name)),
                    ));
                }
            },
        }
    }

    pub fn is_valid(&self) -> (yes: bool)
        ensures
            yes == (self@.failures.len() == 0),
    {
        self.failures.is_empty()
    }

    pub fn validated_count(&self) -> (count: usize)
        ensures
            count == self@.passed,
    {
        self.validated_count
    }

    pub fn failed_count(&self) -> (count: usize)
        ensures
            count == self@.failures.len(),
    {
        self.failures.len()
    }

    pub fn failures(&self) -> (failures: &[ValidationFailure])
        ensures
            failures@.map_values(|failure: ValidationFailure| failure@) == self@.failures,
    {
        self.failures.as_slice()
    }

    pub fn into_failures(self) -> (failures: Vec<ValidationFailure>)
        ensures
            failures@.map_values(|failure: ValidationFailure| failure@) == self@.failures,
    {
        self.failures
    }
}

impl Default for ValidationOutcome {
    fn default() -> (outcome: Self)
        ensures
            outcome@ == PassSummary::start(),
    {
        let outcome = ValidationOutcome { validated_count: 0, failures: Vec::new() };
        proof {
            assert(outcome@.failures == Seq::<(&'static str, Error)>::empty());
        }
        outcome
    }
}

/// One provider failure retained by a broadcast reload.
#[derive(Debug)]
pub struct ReloadFailure {
    provider: &'static str,
    error: Error,
}

impl View for ReloadFailure {
    type V = (&'static str, Error);

    closed spec fn view(&self) -> (&'static str, Error) {
        (self.provider, self.error)
    }
}

impl ReloadFailure {
    pub fn provider(&self) -> (provider: &'static str)
        ensures
            provider == self@.0,
    {
        self.provider
    }

    pub fn error(&self) -> (error: &Error)
        ensures
            *error == self@.1,
    {
        &self.error
    }

    pub fn into_error(self) -> (error: Error)
        ensures
            error == self@.1,
    {
        self.error
    }
}

/// Result of a completed best-effort reload broadcast.
///
/// Failures that prevent the broadcast itself, such as state reload or lifecycle
/// plan errors, are reported apart. Individual provider failures are retained here
/// so callers choose their own logging, metrics, or transport representation.
#[derive(Debug)]
#[must_use]
pub struct ReloadOutcome {
    reloaded_count: usize,
    failures: Vec<ReloadFailure>,
}

impl View for ReloadOutcome {
    type V = PassSummary;

    closed spec fn view(&self) -> PassSummary {
        PassSummary {
            passed: self.reloaded_count as nat,
            failures: self.failures@.map_values(|failure: ReloadFailure| failure@),
        }
    }
}

impl ReloadOutcome {
    /// Counts one more result. A failure is kept with the name of the provider and
    /// does not end the pass.
    pub fn note(&mut self, name: &'static str, result: Result<(), Error>)
        requires
            old(self)@.passed < usize::MAX,
        ensures
            final(self)@ == old(self)@.noted(Stage::Reload, name, result),
    {
        let ghost before = self.failures@;
        match result {
            Ok(_) => {
                self.reloaded_count = self.reloaded_count + 1;
            },
            Err(error) => {
                self.failures.push(ReloadFailure { provider: name, error: error.into_reload(name) });
                proof {
                    assert(self@.failures == before.map_values(|failure: ReloadFailure| failure@).push(
                        (name, error.reload_error(name)),
                    ));
                }
            },
        }
    }

    pub fn is_complete(&self) -> (yes: bool)
        ensures
            yes == (self@.failures.len() == 0),
    {
        self.failures.is_empty()
    }

    pub fn reloaded_count(&self) -> (count: usize)
        ensures
            count == self@.passed,
    {
        self.reloaded_count
    }

    pub fn failed_count(&self) -> (count: usize)
        ensures
            count == self@.failures.len(),
    {
        self.failures.len()
    }

    pub fn failures(&self) -> (failures: &[ReloadFailure])
        ensures
            failures@.map_values(|failure: ReloadFailure| failure@) == self@.failures,
    {
        self.failures.as_slice()
    }

    pub fn into_failures(self) -> (failures: Vec<ReloadFailure>)
        ensures
            failures@.map_values(|failure: ReloadFailure| failure@) == self@.failures,
    {
        self.failures
    }
}

impl Default for ReloadOutcome {
    fn default() -> (outcome: Self)
        ensures
            outcome@ == PassSummary::start(),
    {
        let outcome = ReloadOutcome { reloaded_count: 0, failures: Vec::new() };
        proof {
            assert(outcome@.failures == Seq::<(&'static str, Error)>::empty());
        }
        outcome
    }
}

/// One provider failure retained by best-effort finalization.
#[derive(Debug)]
pub struct FinalizeFailure {
    provider: &'static str,
    error: Error,
}

impl View for FinalizeFailure {
    type V = (&'static str, Error);

    closed spec fn view(&self) -> (&'static str, Error) {
        (self.provider, self.error)
    }
}

impl FinalizeFailure {
    pub fn provider(&self) -> (provider: &'static str)
        ensures
            provider == self@.0,
    {
        self.provider
    }

    pub fn error(&self) -> (error: &Error)
        ensures
            *error == self@.1,
    {
        &self.error
    }

    pub fn into_error(self) -> (error: Error)
        ensures
            error == self@.1,
    {
        self.error
    }
}

/// Result of a completed best-effort finalization pass.
#[derive(Debug)]
#[must_use]
pub struct FinalizeOutcome {
    finalized_count: usize,
    failures: Vec<FinalizeFailure>,
}

impl View for FinalizeOutcome {
    type V = PassSummary;

    closed spec fn view(&self) -> PassSummary {
        PassSummary {
            passed: self.finalized_count as nat,
            failures: self.failures@.map_values(|failure: FinalizeFailure| failure@),
        }
    }
}

impl FinalizeOutcome {
    /// Counts one more result. A failure is kept with the name of the provider and
    /// does not end the pass.
    pub fn note(&mut self, name: &'static str, result: Result<(), Error>)
        requires
            old(self)@.passed < usize::MAX,
        ensures
            final(self)@ == old(self)@.noted(Stage::Finalize, name, result),
    {
        let ghost before = self.failures@;
        match result {
            Ok(_) => {
                self.finalized_count = self.finalized_count + 1;
            },
            Err(error) => {
                self.failures.push(FinalizeFailure { provider: name, error: error.into_finalize(name) });
                proof {
                    assert(self@.failures == before.map_values(|failure: FinalizeFailure| failure@).push(
                        (name, error.finalize_error(name)),
                    ));
                }
            },
        }
    }

    pub fn is_complete(&self) -> (yes: bool)
        ensures
            yes == (self@.failures.len() == 0),
    {
        self.failures.is_empty()
    }

    pub fn finalized_count(&self) -> (count: usize)
        ensures
            count == self@.passed,
    {
        self.finalized_count
    }

    pub fn failed_count(&self) -> (count: usize)
        ensures
            count == self@.failures.len(),
    {
        self.failures.len()
    }

    pub fn failures(&self) -> (failures: &[FinalizeFailure])
        ensures
            failures@.map_values(|failure: FinalizeFailure| failure@) == self@.failures,
    {
        self.failures.as_slice()
    }

    pub fn into_failures(self) -> (failures: Vec<FinalizeFailure>)
        ensures
            failures@.map_values(|failure: FinalizeFailure| failure@) == self@.failures,
    {
        self.failures
    }
}

impl Default for FinalizeOutcome {
    fn default() -> (outcome: Self)
        ensures
            outcome@ == PassSummary::start(),
    {
        let outcome = FinalizeOutcome { finalized_count: 0, failures: Vec::new() };
        proof {
            assert(outcome@.failures == Seq::<(&'static str, Error)>::empty());
        }
        outcome
    }
}

} // verus!

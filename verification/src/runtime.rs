//! The owner of the live generations of every registered runnable service.
//!
//! A [`Runtime`] decides which generation of which service exists. The tasks
//! themselves, the channels and the waiting belong to the caller: it performs what
//! the runtime asks for and reports back what happened.
pub mod command;
pub mod ending;
pub mod entry;
pub mod laws;
pub mod task;
pub mod turn;

use tokio::task::Id;
use tokio_util::sync::CancellationToken;
use vstd::prelude::*;

use self::entry::ServiceEntry;
#[allow(unused_imports)]
use self::entry::ServiceModel;
use self::task::{same_task, TaskIdentity};
#[allow(unused_imports)]
use crate::cancellation::is_child;
use crate::cancellation::Scope;
#[allow(unused_imports)]
use crate::pairs::{has_distinct_keys, has_key, lemma_put, lemma_take_out, lookup};
#[allow(unused_imports)]
use crate::permutation::is_permutation;
use crate::registry::error::Error;
use crate::registry::{Registry, RunnableEntry};
use crate::service::{ServiceManagerError, ServiceSnapshot, ServiceStartPolicy, ServiceStatus};
#[allow(unused_imports)]
use crate::service::SnapshotView;
#[allow(unused_imports)]
use crate::sorting::is_sorted;
use crate::sorting::{sorted_positions, SortKey};
use crate::state::SharedState;
#[allow(unused_imports)]
use crate::state::{gives_shutdown_token, gives_shutting_down};
use crate::text::{same_text, text3};

verus! {

/// Owns the live generations of every registered runnable service. `R` is where the
/// answer to a command about a single service goes.
#[verifier::reject_recursive_types(S)]
pub struct Runtime<S: 'static, R> {
    services: Vec<ServiceEntry<S, R>>,
    tasks: Vec<(Id, TaskIdentity)>,
    state: Option<S>,
    shutting_down: bool,
}

/// A generation that is to be run: a task with these parts.
pub struct Launch<S> {
    /// Which generation of which service it is.
    pub identity: TaskIdentity,
    /// The place of its provider in the order of registration.
    pub position: usize,
    /// The scope in which it runs.
    pub cancellation: CancellationToken,
    pub state: S,
}

/// What became of taking over the runnable providers.
pub struct SpawnReport<S> {
    /// The generations that are to be run, also where a later one could not be started.
    pub launches: Vec<Launch<S>>,
    /// How many services there are now.
    pub result: Result<usize, Error>,
}

/// An answer that is due.
pub struct Reply<R> {
    pub to: R,
    pub result: Result<ServiceSnapshot, ServiceManagerError>,
}

/// A targeted reload that the provider has to perform now.
pub struct PendingReload<S, R> {
    /// The place of the service.
    pub at: usize,
    /// The name of the service.
    pub service: &'static str,
    /// The place of its provider in the order of registration.
    pub position: usize,
    /// The state to reload with.
    pub state: S,
    /// The revision once the reload has been completed.
    pub next_revision: u64,
    /// The name in the command.
    pub name: String,
    pub reply: R,
}

/// What follows from a command.
#[allow(inconsistent_fields)]
pub enum CommandOutcome<S, L, R> {
    /// Answer with a list.
    List { reply: L, result: Result<Vec<ServiceSnapshot>, ServiceManagerError> },
    /// Answer at once.
    Answer { reply: R, result: Result<ServiceSnapshot, ServiceManagerError> },
    /// Run a generation, then answer with the snapshot.
    Started { reply: R, launch: Launch<S>, snapshot: ServiceSnapshot },
    /// The answer is due when the live generation has ended.
    Waiting,
    /// Have the provider reload, then report back with [`Runtime::finish_reload`].
    Reloading(PendingReload<S, R>),
}

/// What follows from the end of a task.
pub struct Completion<R> {
    /// The answers for those who waited for it.
    pub replies: Vec<Reply<R>>,
    /// An error where the runtime has to come down.
    pub result: Result<(), Error>,
}

/// What is found out on the way to a new generation.
pub struct StartFindings<S> {
    /// The clone of the state that the generation gets.
    pub state: S,
    /// Whether that state says that it is shutting down.
    pub parent_cancelled: bool,
    pub start_policy: ServiceStartPolicy,
    /// The shutdown token that the state gives.
    pub parent: CancellationToken,
}

/// `copy` is a clone of `original`.
pub open spec fn is_clone<S: Clone>(original: S, copy: S) -> bool {
    call_ensures(S::clone, (&original,), copy)
}

/// Starting is ruled out by a shutdown.
pub open spec fn stopped_by_shutdown(
    shutting_down: bool,
    allow_cancelled_parent: bool,
    parent_cancelled: bool,
) -> bool {
    shutting_down || (!allow_cancelled_parent && parent_cancelled)
}

/// Why no new generation of the service `name` can be started, if so.
pub open spec fn refusal(
    name: Seq<char>,
    generation: u64,
    shutting_down: bool,
    allow_cancelled_parent: bool,
    parent_cancelled: bool,
    start_policy: ServiceStartPolicy,
) -> Option<Seq<char>> {
    if stopped_by_shutdown(shutting_down, allow_cancelled_parent, parent_cancelled) {
        Some("service runtime is shutting down"@)
    } else if start_policy is Unavailable {
        Some("runnable service '"@ + name + "' is unavailable on this runtime"@)
    } else if generation == u64::MAX {
        Some("service '"@ + name + "' generation overflow"@)
    } else {
        None
    }
}

/// The number of the next generation, or why there is none.
pub fn next_generation(name: &str, generation: u64, start_policy: ServiceStartPolicy) -> (result:
    Result<u64, Error>)
    ensures
        match refusal(name@, generation, false, false, false, start_policy) {
            Some(reason) => result matches Err(error) && error.says(reason),
            None => result == Ok::<u64, Error>((generation + 1) as u64),
        },
{
    if start_policy == ServiceStartPolicy::Unavailable {
        return Err(
            Error::other(
                text3("runnable service '", name, "' is unavailable on this runtime"),
            ),
        );
    }
    match generation.checked_add(1) {
        Some(next) => Ok(next),
        None => Err(Error::other(text3("service '", name, "' generation overflow"))),
    }
}

/// The name of the entry at `k` occurs before it.
pub open spec fn is_duplicate<S: 'static>(entries: Seq<RunnableEntry<S>>, k: int) -> bool {
    &&& 0 <= k < entries.len()
    &&& exists|i: int| 0 <= i < k && (#[trigger] entries[i]).name@ == entries[k].name@
}

/// `service` is what becomes of `entry` when it is taken over with `state`: it runs its
/// first generation where its policy is to start by itself, and is stopped otherwise.
pub open spec fn taken_over<S: SharedState, R>(
    entry: RunnableEntry<S>,
    state: S,
    service: ServiceModel<S, R>,
) -> bool {
    ||| exists|policy: ServiceStartPolicy| #[trigger]
        entry.runnable.starts(&state, policy) && policy !is Automatic && service
            == ServiceModel::<S, R>::fresh(entry)
    ||| {
        &&& entry.runnable.starts(&state, ServiceStartPolicy::Automatic)
        &&& service.cancellation matches Some(cancellation)
        &&& service == ServiceModel::<S, R>::fresh(entry).started(cancellation)
        &&& exists|findings: StartFindings<S>| #[trigger]
            is_clone(state, findings.state) && entry.runnable.starts(
                &findings.state,
                findings.start_policy,
            ) && findings.start_policy !is Unavailable && gives_shutdown_token(
                &findings.state,
                findings.parent,
            ) && is_child(findings.parent, cancellation)
    }
}

/// `launch` has a task run the live generation of `service`, with a clone of `state`.
pub open spec fn is_launch_of<S: SharedState, R>(
    launch: Launch<S>,
    service: ServiceModel<S, R>,
    state: S,
) -> bool {
    &&& launch.identity.name == service.name
    &&& launch.identity.generation == service.generation
    &&& launch.position == service.position
    &&& service.cancellation == Some(launch.cancellation)
    &&& is_clone(state, launch.state)
}

/// `launches` are the launches of those services that run, in their order.
pub open spec fn are_launches_of<S: SharedState, R>(
    launches: Seq<Launch<S>>,
    services: Seq<ServiceModel<S, R>>,
    state: S,
) -> bool
    decreases services.len(),
{
    if services.len() == 0 {
        launches.len() == 0
    } else if services.last().status is Running {
        &&& launches.len() > 0
        &&& is_launch_of(launches.last(), services.last(), state)
        &&& are_launches_of(launches.drop_last(), services.drop_last(), state)
    } else {
        are_launches_of(launches, services.drop_last(), state)
    }
}

impl<S: 'static, R> Runtime<S, R> {
    /// The services, in the order in which they have been taken over.
    pub closed spec fn services(self) -> Seq<ServiceModel<S, R>> {
        self.services@.map_values(|service: ServiceEntry<S, R>| service@)
    }

    /// Which generation the task `id` runs.
    pub closed spec fn task(self, id: Id) -> Option<TaskIdentity> {
        lookup(self.tasks@, id)
    }

    /// The state that services are started with.
    pub closed spec fn state(self) -> Option<S> {
        self.state
    }

    /// Shutdown has begun.
    pub closed spec fn is_shutting_down(self) -> bool {
        self.shutting_down
    }

    /// The service called `name` is the one at `at`.
    pub open spec fn is_at(self, name: Seq<char>, at: int) -> bool {
        0 <= at < self.services().len() && (#[trigger] self.services()[at]).name@ == name
    }

    /// There is a service called `name`.
    pub open spec fn knows(self, name: Seq<char>) -> bool {
        exists|at: int| self.is_at(name, at)
    }

    /// The place of the service called `name`.
    pub open spec fn place(self, name: Seq<char>) -> int {
        choose|at: int| self.is_at(name, at)
    }

    /// Names are the identity of services, so no two are the same. There are services
    /// only once there is a state to start them with.
    pub closed spec fn wf(self) -> bool {
        &&& forall|i: int, j: int|
            0 <= i < j < self.services().len() ==> (#[trigger] self.services()[i]).name@ != (
            #[trigger] self.services()[j]).name@
        &&& forall|i: int| 0 <= i < self.services().len() ==> (#[trigger] self.services()[i]).wf()
        &&& self.services().len() > 0 ==> self.state is Some
        &&& has_distinct_keys(self.tasks@)
    }

    /// Two services never have the same name.
    pub proof fn lemma_names_differ(self, i: int, j: int)
        requires
            self.wf(),
            0 <= i < self.services().len(),
            0 <= j < self.services().len(),
            i != j,
        ensures
            self.services()[i].name@ != self.services()[j].name@,
    {
    }

    /// Every service is valid.
    pub proof fn lemma_services_are_valid(self, i: int)
        requires
            self.wf(),
            0 <= i < self.services().len(),
        ensures
            self.services()[i].wf(),
    {
    }

    /// A name leads to one service only.
    pub proof fn lemma_place_is_unique(self, name: Seq<char>, at: int)
        requires
            self.wf(),
            self.is_at(name, at),
        ensures
            self.knows(name),
            self.place(name) == at,
    {
        assert(self.is_at(name, self.place(name)));
        if self.place(name) != at {
            self.lemma_names_differ(self.place(name), at);
        }
    }

    /// Nothing but the services can differ.
    pub open spec fn same_frame(self, after: Self) -> bool {
        &&& after.state() == self.state()
        &&& after.is_shutting_down() == self.is_shutting_down()
        &&& forall|id: Id| after.task(id) == self.task(id)
    }

    /// `after` is `self` with the service at `at` replaced by `service`.
    pub open spec fn with_service(
        self,
        at: int,
        service: ServiceModel<S, R>,
        after: Self,
    ) -> bool {
        &&& self.same_frame(after)
        &&& after.services() == self.services().update(at, service)
    }

    /// Creates a runtime without services.
    pub fn new() -> (runtime: Self)
        ensures
            runtime.wf(),
            runtime.services() == Seq::<ServiceModel<S, R>>::empty(),
            forall|id: Id| runtime.task(id) is None,
            runtime.state() is None,
            !runtime.is_shutting_down(),
    {
        let runtime = Runtime {
            services: Vec::new(),
            tasks: Vec::new(),
            state: None,
            shutting_down: false,
        };
        proof {
            assert(runtime.services() == Seq::<ServiceModel<S, R>>::empty());
        }
        runtime
    }

    /// Notes which generation a task runs that has just been started.
    pub fn register_task(&mut self, id: Id, identity: TaskIdentity)
        requires
            old(self).wf(),
        ensures
            final(self).wf(),
            final(self).services() == old(self).services(),
            final(self).state() == old(self).state(),
            final(self).is_shutting_down() == old(self).is_shutting_down(),
            final(self).task(id) == Some(identity),
            forall|other: Id| other != id ==> #[trigger] final(self).task(other) == old(self).task(
                other,
            ),
    {
        let ghost before = self.tasks@;
        let at: usize = self.task_place(&id);
        if at < self.tasks.len() {
            self.tasks.set(at, (id, identity));
        } else {
            self.tasks.push((id, identity));
        }
        proof {
            lemma_put(before, self.tasks@, at as int);
        }
    }

    /// The place of the task `id`, or the number of tasks if it is not there.
    fn task_place(&self, id: &Id) -> (at: usize)
        ensures
            at <= self.tasks@.len(),
            at < self.tasks@.len() ==> self.tasks@[at as int].0 == *id,
            at == self.tasks@.len() ==> !has_key(self.tasks@, *id),
    {
        let mut i: usize = 0;
        while i < self.tasks.len() && !same_task(&self.tasks[i].0, id)
            invariant
                i <= self.tasks@.len(),
                forall|j: int| 0 <= j < i ==> (#[trigger] self.tasks@[j]).0 != *id,
            decreases self.tasks.len() - i,
        {
            i = i + 1;
        }
        i
    }

    /// `after` is `self` without the task `id`.
    pub open spec fn without_task(self, id: Id, after: Self) -> bool {
        &&& after.services() == self.services()
        &&& after.state() == self.state()
        &&& after.is_shutting_down() == self.is_shutting_down()
        &&& after.task(id) is None
        &&& forall|other: Id| other != id ==> #[trigger] after.task(other) == self.task(other)
    }

    /// Forgets a task that has ended, and says which generation it ran.
    pub fn forget_task(&mut self, id: &Id) -> (identity: Option<TaskIdentity>)
        requires
            old(self).wf(),
        ensures
            final(self).wf(),
            identity == old(self).task(*id),
            old(self).without_task(*id, *final(self)),
    {
        let at: usize = self.task_place(id);
        if at < self.tasks.len() {
            proof {
                lemma_take_out(self.tasks@, at as int);
            }
            let (_, identity) = self.tasks.remove(at);
            Some(identity)
        } else {
            None
        }
    }

    /// Whether the end of some task is still to come.
    pub fn has_tasks(&self) -> (yes: bool)
        requires
            self.wf(),
        ensures
            yes <==> exists|id: Id| self.task(id) is Some,
    {
        let yes = self.tasks.len() > 0;
        proof {
            if yes {
                assert(has_key(self.tasks@, self.tasks@[0].0));
                assert(self.task(self.tasks@[0].0) is Some);
            }
        }
        yes
    }

    /// Whether there is a state to start services with.
    pub fn is_initialized(&self) -> (yes: bool)
        ensures
            yes == (self.state() is Some),
    {
        self.state.is_some()
    }

    /// The place of the service called `name`.
    fn find(&self, name: &str) -> (found: Option<usize>)
        ensures
            match found {
                Some(at) => self.is_at(name@, at as int),
                None => !self.knows(name@),
            },
    {
        let mut i: usize = 0;
        while i < self.services.len()
            invariant
                i <= self.services@.len(),
                self.services().len() == self.services@.len(),
                forall|j: int| 0 <= j < i ==> (#[trigger] self.services()[j]).name@ != name@,
            decreases self.services.len() - i,
        {
            if same_text(self.services[i].name, name) {
                assert(self.services()[i as int].name@ == name@);
                return Some(i);
            }
            i = i + 1;
        }
        None
    }
}

impl<S: SharedState, R> Runtime<S, R> {
    /// What can be found out of the state before any service is looked at.
    pub open spec fn finds_parent(
        self,
        allow_cancelled_parent: bool,
        findings: StartFindings<S>,
    ) -> bool {
        &&& self.state() matches Some(state)
        &&& is_clone(state, findings.state)
        &&& !self.is_shutting_down() && !allow_cancelled_parent ==> gives_shutting_down(
            &findings.state,
            findings.parent_cancelled,
        )
    }

    /// Why no generation of a service that is not there can be started.
    pub open spec fn absence(
        self,
        name: Seq<char>,
        allow_cancelled_parent: bool,
        findings: StartFindings<S>,
    ) -> Seq<char> {
        if stopped_by_shutdown(
            self.is_shutting_down(),
            allow_cancelled_parent,
            findings.parent_cancelled,
        ) {
            "service runtime is shutting down"@
        } else {
            "runnable service '"@ + name + "' is not registered"@
        }
    }

    /// What can be found out on the way to a new generation of the service at `at`. Each
    /// question is asked only where the answers before it leave the start open.
    pub open spec fn finds(
        self,
        at: int,
        allow_cancelled_parent: bool,
        findings: StartFindings<S>,
    ) -> bool {
        let service = self.services()[at];
        let shutdown = stopped_by_shutdown(
            self.is_shutting_down(),
            allow_cancelled_parent,
            findings.parent_cancelled,
        );
        &&& self.finds_parent(allow_cancelled_parent, findings)
        &&& !shutdown ==> service.runnable.starts(&findings.state, findings.start_policy)
        &&& self.refusal(at, allow_cancelled_parent, findings) is None ==> gives_shutdown_token(
            &findings.state,
            findings.parent,
        )
    }

    /// Why no new generation of the service at `at` can be started, if so.
    pub open spec fn refusal(
        self,
        at: int,
        allow_cancelled_parent: bool,
        findings: StartFindings<S>,
    ) -> Option<Seq<char>> {
        refusal(
            self.services()[at].name@,
            self.services()[at].generation,
            self.is_shutting_down(),
            allow_cancelled_parent,
            findings.parent_cancelled,
            findings.start_policy,
        )
    }

    /// With these findings no new generation can be started, and `error` says why.
    pub open spec fn refuses(
        self,
        at: int,
        allow_cancelled_parent: bool,
        findings: StartFindings<S>,
        error: Error,
    ) -> bool {
        self.refusal(at, allow_cancelled_parent, findings) matches Some(reason) && error.says(
            reason,
        )
    }

    /// With these findings, asking for a new generation of the service at `at` gives
    /// `result` and leaves `after`.
    pub open spec fn starts_generation(
        self,
        at: int,
        allow_cancelled_parent: bool,
        findings: StartFindings<S>,
        after: Self,
        result: Result<(Launch<S>, SnapshotView), Error>,
    ) -> bool {
        match (self.refusal(at, allow_cancelled_parent, findings), result) {
            (Some(reason), Err(error)) => {
                &&& after == self
                &&& error.says(
                    reason,
                )
            },
            (None, Ok((launch, snapshot))) => {
                let service = self.services()[at].started(launch.cancellation);
                &&& self.with_service(at, service, after)
                &&& is_child(findings.parent, launch.cancellation)
                &&& launch.identity.name == service.name
                &&& launch.identity.generation == service.generation
                &&& launch.position == service.position
                &&& launch.state == findings.state
                &&& service.observed(&findings.state, snapshot)
            },
            _ => false,
        }
    }

    /// Asking for a new generation of the service called `name` can give `result` and leave
    /// `after`.
    pub open spec fn on_generation(
        self,
        name: Seq<char>,
        allow_cancelled_parent: bool,
        after: Self,
        result: Result<(Launch<S>, SnapshotView), Error>,
    ) -> bool {
        if self.state() is None {
            &&& after == self
            &&& result matches Err(error)
            &&& error.says(
                "service runtime is not initialized"@,
            )
        } else if self.knows(name) {
            let at = self.place(name);
            exists|findings: StartFindings<S>| #[trigger]
                self.finds(at, allow_cancelled_parent, findings) && self.starts_generation(
                    at,
                    allow_cancelled_parent,
                    findings,
                    after,
                    result,
                )
        } else {
            &&& after == self
            &&& result matches Err(error)
            &&& exists|findings: StartFindings<S>| #[trigger]
                self.finds_parent(allow_cancelled_parent, findings) && error.says(
                    self.absence(name, allow_cancelled_parent, findings),
                )
        }
    }

    /// Starts a new generation of a service that has no live one. Where
    /// `allow_cancelled_parent` is set, a state that is shutting down is no obstacle.
    pub fn start_generation(&mut self, name: &str, allow_cancelled_parent: bool) -> (result:
        Result<(Launch<S>, ServiceSnapshot), Error>)
        requires
            old(self).wf(),
            old(self).knows(name@) ==> old(self).services()[old(self).place(name@)].is_idle(),
        ensures
            final(self).wf(),
            old(self).on_generation(
                name@,
                allow_cancelled_parent,
                *final(self),
                match result {
                    Ok((launch, snapshot)) => Ok((launch, snapshot@)),
                    Err(error) => Err(error),
                },
            ),
    {
        let ghost place = self.place(name@);
        let ghost mut findings: StartFindings<S> = arbitrary();
        let state = match &self.state {
            Some(state) => state.clone(),
            None => {
                return Err(Error::msg("service runtime is not initialized"));
            },
        };
        proof {
            findings.state = state;
        }
        let parent_cancelled = !self.shutting_down && !allow_cancelled_parent
            && state.is_shutting_down();
        proof {
            findings.parent_cancelled = parent_cancelled;
        }
        if self.shutting_down || parent_cancelled {
            assert(old(self).finds_parent(allow_cancelled_parent, findings));
            assert(old(self).finds(place, allow_cancelled_parent, findings));
            return Err(Error::msg("service runtime is shutting down"));
        }
        let at: usize = match self.find(name) {
            Some(at) => at,
            None => {
                assert(old(self).finds_parent(allow_cancelled_parent, findings));
                return Err(
                    Error::other(text3("runnable service '", name, "' is not registered")),
                );
            },
        };
        proof {
            self.lemma_place_is_unique(name@, at as int);
        }
        assert(self.services@[at as int]@ == self.services()[at as int]);
        let start_policy = self.services[at].runnable.start_policy(&state);
        proof {
            findings.start_policy = start_policy;
        }
        let name = self.services[at].name;
        let generation = match next_generation(name, self.services[at].generation, start_policy) {
            Ok(generation) => generation,
            Err(error) => {
                assert(old(self).finds(at as int, allow_cancelled_parent, findings));
                return Err(error);
            },
        };
        let parent = state.shutdown_token();
        proof {
            findings.parent = parent;
        }
        let (scope, cancellation) = Scope::below(&parent);
        let service = &mut self.services[at];
        service.generation = generation;
        service.status = ServiceStatus::Running;
        service.last_error = None;
        service.cancellation = Some(scope);
        let snapshot = service.snapshot(&state);
        let position: usize = service.position;
        let launch = Launch {
            identity: TaskIdentity { name, generation },
            position,
            cancellation,
            state,
        };
        proof {
            let started = old(self).services()[at as int].started(cancellation);
            assert(self.services() == old(self).services().update(at as int, started));
            assert(old(self).finds(at as int, allow_cancelled_parent, findings));
        }
        Ok((launch, snapshot))
    }

    /// The first services of `self` are those that the first `count` entries became.
    pub open spec fn took_over(
        self,
        entries: Seq<RunnableEntry<S>>,
        count: int,
        state: S,
        launches: Seq<Launch<S>>,
    ) -> bool {
        &&& 0 <= count <= entries.len()
        &&& count <= self.services().len()
        &&& forall|i: int|
            0 <= i < count ==> taken_over(entries[i], state, #[trigger] self.services()[i])
        &&& are_launches_of(launches, self.services().take(count), state)
    }

    /// Taking over `entries` with `state` gives `launches` and `result` and leaves `after`.
    pub open spec fn adopts(
        self,
        entries: Seq<RunnableEntry<S>>,
        state: S,
        after: Self,
        launches: Seq<Launch<S>>,
        result: Result<usize, Error>,
    ) -> bool {
        let unique = forall|k: int| !is_duplicate(entries, k);
        match result {
            Ok(count) => {
                &&& unique
                &&& count == entries.len()
                &&& after.services().len() == count
                &&& after.took_over(entries, count as int, state, launches)
                &&& after.state() == Some(state)
                &&& after.is_shutting_down() == self.is_shutting_down()
                &&& forall|id: Id| after.task(id) == self.task(id)
            },
            Err(error) => {
                if unique {
                    let k = after.services().len() - 1;
                    &&& after.took_over(entries, k, state, launches)
                    &&& k < entries.len()
                    &&& after.services()[k] == ServiceModel::<S, R>::fresh(entries[k])
                    &&& entries[k].runnable.starts(&state, ServiceStartPolicy::Automatic)
                    &&& after.state() == Some(state)
                    &&& after.is_shutting_down() == self.is_shutting_down()
                    &&& forall|id: Id| after.task(id) == self.task(id)
                    &&& exists|findings: StartFindings<S>| #[trigger]
                        after.finds(k, true, findings) && after.refuses(k, true, findings, error)
                } else {
                    &&& after == self
                    &&& launches.len() == 0
                    &&& exists|k: int| #[trigger]
                        is_duplicate(entries, k) && (forall|j: int|
                            0 <= j < k ==> !is_duplicate(entries, j)) && error.says(
                            "duplicate runnable service name '"@ + entries[k].name@ + "'"@,
                        )
                }
            },
        }
    }

    /// Takes over the runnable providers in the given order, and starts those that
    /// start by themselves.
    ///
    /// Boot may have been interrupted after providers registered work but before they
    /// were taken over. The first generation is started even in a scope that is
    /// cancelled already, so that each service can perform its own final drain.
    pub fn adopt(&mut self, entries: Vec<RunnableEntry<S>>, state: S) -> (report: SpawnReport<S>)
        requires
            old(self).wf(),
            old(self).state() is None,
        ensures
            final(self).wf(),
            old(self).adopts(entries@, state, *final(self), report.launches@, report.result),
    {
        let mut k: usize = 0;
        while k < entries.len()
            invariant
                *self == *old(self),
                self.wf(),
                k <= entries@.len(),
                forall|j: int| 0 <= j < k ==> !is_duplicate(entries@, j),
            decreases entries.len() - k,
        {
            let mut i: usize = 0;
            while i < k && !same_text(entries[i].name, entries[k].name)
                invariant
                    i <= k < entries@.len(),
                    forall|j: int| 0 <= j < i ==> (#[trigger] entries@[j]).name@ != entries@[k as int].name@,
                decreases k - i,
            {
                i = i + 1;
            }
            if i < k {
                assert(entries@[i as int].name@ == entries@[k as int].name@);
                assert(is_duplicate(entries@, k as int));
                return SpawnReport {
                    launches: Vec::new(),
                    result: Err(
                        Error::other(
                            text3("duplicate runnable service name '", entries[k].name, "'"),
                        ),
                    ),
                };
            }
            k = k + 1;
        }
        let mut launches: Vec<Launch<S>> = Vec::new();
        let ghost given = state;
        self.state = Some(state);
        let mut at: usize = 0;
        while at < entries.len()
            invariant
                given == state,
                at <= entries@.len(),
                forall|j: int| !is_duplicate(entries@, j),
                self.wf(),
                self.services().len() == at,
                self.services@.len() == at,
                self.took_over(entries@, at as int, given, launches@),
                self.state() == Some(given),
                self.is_shutting_down() == old(self).is_shutting_down(),
                forall|id: Id| self.task(id) == old(self).task(id),
                forall|j: int|
                    0 <= j < at ==> (#[trigger] self.services()[j]).name == entries@[j].name,
            decreases entries.len() - at,
        {
            let entry = RunnableEntry {
                name: entries[at].name,
                position: entries[at].position,
                provider: entries[at].provider.share(),
                runnable: entries[at].runnable.share(),
            };
            let name = entry.name;
            let ghost earlier = *self;
            let policy = match &self.state {
                Some(state) => entry.runnable.start_policy(state),
                None => ServiceStartPolicy::Manual,
            };
            self.services.push(ServiceEntry::new(entry));
            let ghost fresh = ServiceModel::<S, R>::fresh(entries@[at as int]);
            proof {
                assert(entry == entries@[at as int]);
                assert(self.services() == earlier.services().push(fresh));
                assert forall|i: int| 0 <= i < at implies (#[trigger] self.services()[i]).name@
                    != fresh.name@ by {
                    assert(!is_duplicate(entries@, at as int));
                    assert(self.services()[i] == earlier.services()[i]);
                    assert(entries@[i].name@ != entries@[at as int].name@);
                }
                assert(self.wf());
                assert(self.services().take(at as int) == earlier.services());
                assert(earlier.services().take(at as int) == earlier.services());
            }
            if policy == ServiceStartPolicy::Automatic {
                let ghost middle = *self;
                assert(self.services()[at as int] == fresh);
                proof {
                    self.lemma_place_is_unique(fresh.name@, at as int);
                }
                match self.start_generation(name, true) {
                    Ok((launch, _)) => {
                        let ghost before = launches@;
                        launches.push(launch);
                        proof {
                            let started = fresh.started(launch.cancellation);
                            assert(self.services() == middle.services().update(at as int, started));
                            assert(self.services().take(at + 1).drop_last()
                                == earlier.services());
                            assert(self.services().take(at + 1).last() == started);
                            assert(launches@.drop_last() == before);
                            let findings = choose|findings: StartFindings<S>| #[trigger]
                                middle.finds(at as int, true, findings)
                                    && middle.refusal(at as int, true, findings) is None
                                    && is_child(findings.parent, launch.cancellation)
                                    && launch.state == findings.state;
                            assert(is_clone(given, findings.state));
                            assert(taken_over(entries@[at as int], given, started));
                            assert forall|i: int| 0 <= i < at + 1 implies taken_over(
                                entries@[i],
                                given,
                                #[trigger] self.services()[i],
                            ) by {
                                if i < at {
                                    assert(self.services()[i] == earlier.services()[i]);
                                }
                            }
                        }
                    },
                    Err(error) => {
                        proof {
                            assert(*self == middle);
                            assert(self.services().len() - 1 == at);
                            assert forall|i: int| 0 <= i < at implies taken_over(
                                entries@[i],
                                given,
                                #[trigger] self.services()[i],
                            ) by {
                                assert(self.services()[i] == earlier.services()[i]);
                            }
                            assert(self.took_over(entries@, at as int, given, launches@));
                        }
                        return SpawnReport { launches, result: Err(error) };
                    },
                }
            } else {
                proof {
                    assert(self.services().take(at + 1).drop_last() == earlier.services());
                    assert(self.services().take(at + 1).last() == fresh);
                    assert(taken_over(entries@[at as int], given, fresh));
                    assert forall|i: int| 0 <= i < at + 1 implies taken_over(
                        entries@[i],
                        given,
                        #[trigger] self.services()[i],
                    ) by {
                        if i < at {
                            assert(self.services()[i] == earlier.services()[i]);
                        }
                    }
                }
            }
            at = at + 1;
        }
        SpawnReport { launches, result: Ok(self.services.len()) }
    }

    /// Takes over and starts all runnable providers of the registry.
    ///
    /// Runnable names must be unique because they are the stable management identity.
    /// The runtime may only be initialized once.
    pub fn spawn_all(&mut self, registry: &Registry<S>, state: S) -> (report: SpawnReport<S>)
        requires
            old(self).wf(),
        ensures
            final(self).wf(),
            old(self).state() is Some ==> {
                &&& *final(self) == *old(self)
                &&& report.launches@.len() == 0
                &&& report.result matches Err(error)
                &&& error.says(
                    "runtime runnable set is already initialized"@,
                )
            },
            old(self).state() is None ==> exists|entries: Seq<RunnableEntry<S>>| #[trigger]
                registry.lists_runnables(entries) && old(self).adopts(
                    entries,
                    state,
                    *final(self),
                    report.launches@,
                    report.result,
                ),
    {
        if self.state.is_some() {
            return SpawnReport {
                launches: Vec::new(),
                result: Err(
                    Error::msg("runtime runnable set is already initialized"),
                ),
            };
        }
        let entries = registry.runnable_entries();
        self.adopt(entries, state)
    }
}

impl<S: 'static, R> Default for Runtime<S, R> {
    fn default() -> (runtime: Self)
        ensures
            runtime.wf(),
            runtime.services() == Seq::<ServiceModel<S, R>>::empty(),
            forall|id: Id| runtime.task(id) is None,
            runtime.state() is None,
            !runtime.is_shutting_down(),
    {
        Runtime::new()
    }
}

/// The names of the services as keys to sort by.
pub open spec fn name_keys<S: 'static, R>(services: Seq<ServiceModel<S, R>>) -> Seq<SortKey> {
    services.map_values(|service: ServiceModel<S, R>| (0u8, service.name))
}

impl<S: 'static, R> Runtime<S, R> {
    /// `snapshots` are snapshots that can be taken of the services, one of each, in the
    /// order of their names.
    pub open spec fn lists(self, snapshots: Seq<ServiceSnapshot>) -> bool {
        exists|order: Seq<usize>| #[trigger]
            is_permutation(order, self.services().len()) && is_sorted(
                name_keys(self.services()),
                order,
            ) && self.observes_in(order, snapshots)
    }

    /// `snapshots` are snapshots that can be taken of the services in the given order.
    pub open spec fn observes_in(
        self,
        order: Seq<usize>,
        snapshots: Seq<ServiceSnapshot>,
    ) -> bool {
        &&& snapshots.len() == order.len()
        &&& self.state() matches Some(state)
        &&& forall|k: int|
            0 <= k < snapshots.len() ==> self.services()[order[k] as int].observed(
                &state,
                (#[trigger] snapshots[k])@,
            )
    }

    /// A snapshot of every service, in the order of their names.
    pub fn snapshots(&self) -> (snapshots: Vec<ServiceSnapshot>)
        requires
            self.wf(),
            self.state() is Some,
        ensures
            self.lists(snapshots@),
    {
        let mut keys: Vec<SortKey> = Vec::new();
        let mut i: usize = 0;
        while i < self.services.len()
            invariant
                i <= self.services@.len(),
                keys@.len() == i,
                forall|j: int|
                    0 <= j < i ==> #[trigger] keys@[j] == (0u8, self.services()[j].name),
            decreases self.services.len() - i,
        {
            keys.push((0, self.services[i].name));
            i = i + 1;
        }
        proof {
            assert(keys@ == name_keys(self.services()));
        }
        let order = sorted_positions(&keys);
        let mut snapshots: Vec<ServiceSnapshot> = Vec::new();
        if let Some(state) = &self.state {
            let mut k: usize = 0;
            while k < order.len()
                invariant
                    k <= order@.len(),
                    is_permutation(order@, self.services@.len()),
                    snapshots@.len() == k,
                    forall|j: int|
                        0 <= j < k ==> self.services()[order@[j] as int].observed(
                            state,
                            (#[trigger] snapshots@[j])@,
                        ),
                decreases order.len() - k,
            {
                let at: usize = order[k];
                assert(self.services()[at as int] == self.services@[at as int]@);
                snapshots.push(self.services[at].snapshot(state));
                k = k + 1;
            }
        }
        snapshots
    }
}

} // verus!

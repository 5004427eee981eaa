//! One service as the runtime keeps it.
use tokio_util::sync::CancellationToken;
use vstd::prelude::*;

use crate::cancellation::Scope;
use crate::registry::provider::{ProviderHandle, RunnableHandle};
use crate::registry::RunnableEntry;
#[allow(unused_imports)]
use crate::service::{text_of, SnapshotView};
use crate::service::{copy_text, ServiceSnapshot, ServiceStartPolicy, ServiceStatus};

verus! {

/// What the runtime knows of one service. `R` is where the answer to a command goes.
#[verifier::reject_recursive_types(S)]
pub struct ServiceModel<S: 'static, R> {
    /// The management identity of the service.
    pub name: &'static str,
    /// The place of its provider in the order of registration.
    pub position: usize,
    pub provider: ProviderHandle<S>,
    pub runnable: RunnableHandle<S>,
    pub status: ServiceStatus,
    /// How often it has been started.
    pub generation: u64,
    /// The scope of the live generation.
    pub cancellation: Option<CancellationToken>,
    /// The runtime has cancelled that scope.
    pub ended: bool,
    pub last_error: Option<Seq<char>>,
    /// How often a targeted reload of it has been completed.
    pub reload_revision: u64,
    pub last_reload_error: Option<Seq<char>>,
    /// Who waits for the live generation to end.
    pub stop_waiters: Seq<R>,
}

impl<S: 'static, R> ServiceModel<S, R> {
    /// A service that has never been started.
    pub open spec fn fresh(entry: RunnableEntry<S>) -> Self {
        ServiceModel {
            name: entry.name,
            position: entry.position,
            provider: entry.provider,
            runnable: entry.runnable,
            status: ServiceStatus::Stopped,
            generation: 0,
            cancellation: None,
            ended: false,
            last_error: None,
            reload_revision: 0,
            last_reload_error: None,
            stop_waiters: Seq::empty(),
        }
    }

    /// A live generation has a scope, and nobody waits for one that has not been told to stop.
    /// The scope of one that runs has not been cancelled by the runtime, and that of one that
    /// is stopping has.
    pub open spec fn wf(self) -> bool {
        &&& self.status is Running || self.status is Stopping ==> self.cancellation is Some
        &&& self.status is Running ==> !self.ended
        &&& self.status is Stopping ==> self.ended
        &&& self.ended ==> self.cancellation is Some
        &&& self.stop_waiters.len() > 0 ==> self.status is Stopping
    }

    /// The service can be started: no generation of it is live.
    pub open spec fn is_idle(self) -> bool {
        self.status is Stopped || self.status is Failed
    }

    /// The service once a new generation of it runs in the scope `cancellation`.
    pub open spec fn started(self, cancellation: CancellationToken) -> Self {
        ServiceModel {
            status: ServiceStatus::Running,
            generation: (self.generation + 1) as u64,
            cancellation: Some(cancellation),
            ended: false,
            last_error: None,
            ..self
        }
    }

    /// The snapshot of this service, where it gives `start_policy` and answers
    /// `reloadable` when asked whether it can reload.
    pub open spec fn snapshot_with(
        self,
        start_policy: ServiceStartPolicy,
        reloadable: bool,
    ) -> SnapshotView {
        SnapshotView {
            name: self.name,
            status: self.status,
            start_policy,
            reloadable,
            generation: self.generation,
            last_error: self.last_error,
            reload_revision: self.reload_revision,
            last_reload_error: self.last_reload_error,
        }
    }

    /// `snapshot` is one that can be taken of this service now.
    pub open spec fn observed(self, state: &S, snapshot: SnapshotView) -> bool {
        &&& self.runnable.starts(state, snapshot.start_policy)
        &&& self.provider.answers_reloadable(snapshot.reloadable)
        &&& snapshot == self.snapshot_with(snapshot.start_policy, snapshot.reloadable)
    }
}

/// One service as the runtime keeps it.
#[verifier::reject_recursive_types(S)]
pub struct ServiceEntry<S: 'static, R> {
    pub name: &'static str,
    pub position: usize,
    pub provider: ProviderHandle<S>,
    pub runnable: RunnableHandle<S>,
    pub status: ServiceStatus,
    pub generation: u64,
    pub cancellation: Option<Scope>,
    pub last_error: Option<String>,
    pub reload_revision: u64,
    pub last_reload_error: Option<String>,
    pub stop_waiters: Vec<R>,
}

impl<S: 'static, R> View for ServiceEntry<S, R> {
    type V = ServiceModel<S, R>;

    open spec fn view(&self) -> ServiceModel<S, R> {
        ServiceModel {
            name: self.name,
            position: self.position,
            provider: self.provider,
            runnable: self.runnable,
            status: self.status,
            generation: self.generation,
            cancellation: match self.cancellation {
                Some(scope) => Some(scope.token()),
                None => None,
            },
            ended: self.cancellation matches Some(scope) && scope.is_ended(),
            last_error: text_of(self.last_error),
            reload_revision: self.reload_revision,
            last_reload_error: text_of(self.last_reload_error),
            stop_waiters: self.stop_waiters@,
        }
    }
}

impl<S: 'static, R> ServiceEntry<S, R> {
    /// Takes over a runnable provider, without starting it.
    pub fn new(entry: RunnableEntry<S>) -> (service: Self)
        ensures
            service@ == ServiceModel::<S, R>::fresh(entry),
    {
        ServiceEntry {
            name: entry.name,
            position: entry.position,
            provider: entry.provider,
            runnable: entry.runnable,
            status: ServiceStatus::Stopped,
            generation: 0,
            cancellation: None,
            last_error: None,
            reload_revision: 0,
            last_reload_error: None,
            stop_waiters: Vec::new(),
        }
    }

    /// The snapshot for a given start policy and reload capability.
    pub fn snapshot_from(&self, start_policy: ServiceStartPolicy, reloadable: bool) -> (snapshot:
        ServiceSnapshot)
        ensures
            snapshot@ == self@.snapshot_with(start_policy, reloadable),
    {
        ServiceSnapshot::new(
            self.name,
            self.status,
            start_policy,
            reloadable,
            self.generation,
            copy_text(&self.last_error),
            self.reload_revision,
            copy_text(&self.last_reload_error),
        )
    }

    /// A snapshot of the service as it is now.
    pub fn snapshot(&self, state: &S) -> (snapshot: ServiceSnapshot)
        ensures
            self@.observed(state, snapshot@),
    {
        let start_policy = self.runnable.start_policy(state);
        let reloadable = self.provider.is_reloadable();
        self.snapshot_from(start_policy, reloadable)
    }
}

} // verus!

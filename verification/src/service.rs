//! Services as their manager sees them: policy, status, snapshots, commands and replies.
use tokio_util::sync::CancellationToken;
use vstd::prelude::*;

use crate::cancellation::{is_cancelled, same_scope};
#[allow(unused_imports)]
use crate::cancellation::{lemma_asked, reports};
use crate::text::{text3, text4};

verus! {

/// How many commands the channel of a service manager holds.
pub const COMMAND_CAPACITY: usize = 64;

/// Initial activation policy for one registered runnable service.
///
/// The runtime samples this policy after provider boot and re-evaluates it for
/// observation and explicit starts, so a provider config reload changes the
/// effective policy without duplicating it in the manager. It is independent
/// from [`ServiceStatus`]: a manually started service is both `Manual` and
/// `Running`.
#[derive(Clone, Copy, Debug, PartialEq, Eq, Structural)]
pub enum ServiceStartPolicy {
    /// Start an initial generation when the runtime is initialized.
    Automatic,
    /// Keep the service stopped initially, while allowing an explicit start.
    Manual,
    /// Keep the service stopped and reject explicit start or restart requests.
    Unavailable,
}

impl ServiceStartPolicy {
    /// The word for this policy.
    pub open spec fn word(self) -> Seq<char> {
        match self {
            ServiceStartPolicy::Automatic => "automatic"@,
            ServiceStartPolicy::Manual => "manual"@,
            ServiceStartPolicy::Unavailable => "unavailable"@,
        }
    }

    pub fn as_str(self) -> (text: &'static str)
        ensures
            text@ == self.word(),
    {
        match self {
            ServiceStartPolicy::Automatic => "automatic",
            ServiceStartPolicy::Manual => "manual",
            ServiceStartPolicy::Unavailable => "unavailable",
        }
    }

    /// The word for this policy, as an owned text.
    pub fn to_string(&self) -> (text: String)
        ensures
            text@ == self.word(),
    {
        self.as_str().to_owned()
    }
}

impl Default for ServiceStartPolicy {
    fn default() -> (policy: Self)
        ensures
            policy == ServiceStartPolicy::Automatic,
    {
        ServiceStartPolicy::Automatic
    }
}

/// Cancellation scope for one live generation of a runnable service.
///
/// The process shutdown token is its parent. A service therefore observes the
/// same cancellation path whether the whole process is draining or only that
/// service was stopped through its manager.
pub struct RunContext {
    cancellation: CancellationToken,
}

impl RunContext {
    /// The scope of the generation.
    pub closed spec fn scope(self) -> CancellationToken {
        self.cancellation
    }

    /// Builds a generation context around an existing cancellation token.
    ///
    /// The runtime normally constructs this from a child of the process shutdown
    /// token. The public constructor is useful to focused provider harnesses that
    /// drive one service directly while preserving the same cancellation contract.
    pub fn new(cancellation: CancellationToken) -> (context: Self)
        ensures
            context.scope() == cancellation,
    {
        RunContext { cancellation }
    }

    /// This generation's cancellation token, for APIs that need an owned token, such
    /// as a protocol server's graceful-shutdown future.
    pub fn cancellation_token(&self) -> (token: CancellationToken)
        ensures
            token == self.scope(),
    {
        same_scope(&self.cancellation)
    }

    /// Whether this generation must stop.
    pub fn is_cancelled(&self) -> (yes: bool)
        ensures
            reports(self.scope(), yes),
    {
        let yes = is_cancelled(&self.cancellation);
        proof {
            lemma_asked();
        }
        yes
    }
}

impl Clone for RunContext {
    fn clone(&self) -> (context: Self)
        ensures
            context == *self,
    {
        RunContext { cancellation: same_scope(&self.cancellation) }
    }
}

/// Observable state of one registered runnable service.
#[derive(Clone, Copy, Debug, PartialEq, Eq, Structural)]
pub enum ServiceStatus {
    Running,
    Stopping,
    Stopped,
    Failed,
}

impl ServiceStatus {
    /// The word for this status.
    pub open spec fn word(self) -> Seq<char> {
        match self {
            ServiceStatus::Running => "running"@,
            ServiceStatus::Stopping => "stopping"@,
            ServiceStatus::Stopped => "stopped"@,
            ServiceStatus::Failed => "failed"@,
        }
    }

    /// The word for this status, as an owned text.
    pub fn to_string(&self) -> (text: String)
        ensures
            text@ == self.word(),
    {
        let word = match self {
            ServiceStatus::Running => "running",
            ServiceStatus::Stopping => "stopping",
            ServiceStatus::Stopped => "stopped",
            ServiceStatus::Failed => "failed",
        };
        word.to_owned()
    }
}

/// An optional text.
pub open spec fn text_of(text: Option<String>) -> Option<Seq<char>> {
    match text {
        Some(text) => Some(text@),
        None => None,
    }
}

/// Another copy of an optional text.
pub fn copy_text(text: &Option<String>) -> (copy: Option<String>)
    ensures
        copy == *text,
{
    match text {
        Some(text) => Some(text.clone()),
        None => None,
    }
}

/// What a snapshot says.
pub struct SnapshotView {
    pub name: &'static str,
    pub status: ServiceStatus,
    pub start_policy: ServiceStartPolicy,
    pub reloadable: bool,
    pub generation: u64,
    pub last_error: Option<Seq<char>>,
    pub reload_revision: u64,
    pub last_reload_error: Option<Seq<char>>,
}

/// Point-in-time view of a runnable service owned by the runtime.
#[derive(Debug, PartialEq, Eq)]
pub struct ServiceSnapshot {
    pub(crate) name: &'static str,
    pub(crate) status: ServiceStatus,
    pub(crate) start_policy: ServiceStartPolicy,
    pub(crate) reloadable: bool,
    pub(crate) generation: u64,
    pub(crate) last_error: Option<String>,
    pub(crate) reload_revision: u64,
    pub(crate) last_reload_error: Option<String>,
}

impl View for ServiceSnapshot {
    type V = SnapshotView;

    closed spec fn view(&self) -> SnapshotView {
        SnapshotView {
            name: self.name,
            status: self.status,
            start_policy: self.start_policy,
            reloadable: self.reloadable,
            generation: self.generation,
            last_error: text_of(self.last_error),
            reload_revision: self.reload_revision,
            last_reload_error: text_of(self.last_reload_error),
        }
    }
}

impl Clone for ServiceSnapshot {
    fn clone(&self) -> (snapshot: Self)
        ensures
            snapshot == *self,
    {
        ServiceSnapshot {
            name: self.name,
            status: self.status,
            start_policy: self.start_policy,
            reloadable: self.reloadable,
            generation: self.generation,
            last_error: copy_text(&self.last_error),
            reload_revision: self.reload_revision,
            last_reload_error: copy_text(&self.last_reload_error),
        }
    }
}

impl ServiceSnapshot {
    pub(crate) fn new(
        name: &'static str,
        status: ServiceStatus,
        start_policy: ServiceStartPolicy,
        reloadable: bool,
        generation: u64,
        last_error: Option<String>,
        reload_revision: u64,
        last_reload_error: Option<String>,
    ) -> (snapshot: Self)
        ensures
            snapshot@ == (SnapshotView {
                name,
                status,
                start_policy,
                reloadable,
                generation,
                last_error: text_of(last_error),
                reload_revision,
                last_reload_error: text_of(last_reload_error),
            }),
    {
        ServiceSnapshot {
            name,
            status,
            start_policy,
            reloadable,
            generation,
            last_error,
            reload_revision,
            last_reload_error,
        }
    }

    pub fn name(&self) -> (name: &'static str)
        ensures
            name == self@.name,
    {
        self.name
    }

    pub fn status(&self) -> (status: ServiceStatus)
        ensures
            status == self@.status,
    {
        self.status
    }

    pub fn start_policy(&self) -> (policy: ServiceStartPolicy)
        ensures
            policy == self@.start_policy,
    {
        self.start_policy
    }

    pub fn is_reloadable(&self) -> (yes: bool)
        ensures
            yes == self@.reloadable,
    {
        self.reloadable
    }

    /// Monotonically increasing local start generation.
    pub fn generation(&self) -> (generation: u64)
        ensures
            generation == self@.generation,
    {
        self.generation
    }

    pub fn last_error(&self) -> (text: Option<&str>)
        ensures
            match text {
                Some(text) => self@.last_error == Some(text@),
                None => self@.last_error is None,
            },
    {
        match &self.last_error {
            Some(text) => Some(text.as_str()),
            None => None,
        }
    }

    /// Monotonically increasing revision of completed targeted reload calls.
    /// Both successful and failed attempts advance the revision; inspect
    /// [`ServiceSnapshot::last_reload_error`] for the latest outcome.
    pub fn reload_revision(&self) -> (revision: u64)
        ensures
            revision == self@.reload_revision,
    {
        self.reload_revision
    }

    pub fn last_reload_error(&self) -> (text: Option<&str>)
        ensures
            match text {
                Some(text) => self@.last_reload_error == Some(text@),
                None => self@.last_reload_error is None,
            },
    {
        match &self.last_reload_error {
            Some(text) => Some(text.as_str()),
            None => None,
        }
    }
}

/// Why a service command was not carried out.
#[derive(Debug)]
pub enum ServiceManagerError {
    RuntimeUnavailable,
    NotFound(String),
    Unavailable(String),
    NotReloadable(String),
    Busy { name: String, status: ServiceStatus },
    ShuttingDown,
    OperationFailed { name: String, message: String },
}

impl ServiceManagerError {
    /// The text that stands for this error in logs and replies.
    pub open spec fn display(self) -> Seq<char> {
        match self {
            ServiceManagerError::RuntimeUnavailable => "service runtime is unavailable"@,
            ServiceManagerError::NotFound(name) => "runnable service '"@ + name@
                + "' is not registered"@,
            ServiceManagerError::Unavailable(name) => "runnable service '"@ + name@
                + "' is unavailable on this runtime"@,
            ServiceManagerError::NotReloadable(name) => "runnable service '"@ + name@
                + "' is not reloadable"@,
            ServiceManagerError::Busy { name, status } => "service '"@ + name@
                + "' is currently "@ + status.word(),
            ServiceManagerError::ShuttingDown => "service runtime is shutting down"@,
            ServiceManagerError::OperationFailed { name, message } => "service '"@ + name@
                + "' operation failed: "@ + message@,
        }
    }

    /// The text of the error.
    pub fn to_string(&self) -> (text: String)
        ensures
            text@ == self.display(),
    {
        match self {
            ServiceManagerError::RuntimeUnavailable => "service runtime is unavailable".to_owned(),
            ServiceManagerError::NotFound(name) => text3(
                "runnable service '",
                name.as_str(),
                "' is not registered",
            ),
            ServiceManagerError::Unavailable(name) => text3(
                "runnable service '",
                name.as_str(),
                "' is unavailable on this runtime",
            ),
            ServiceManagerError::NotReloadable(name) => text3(
                "runnable service '",
                name.as_str(),
                "' is not reloadable",
            ),
            ServiceManagerError::Busy { name, status } => {
                let word = status.to_string();
                text4("service '", name.as_str(), "' is currently ", word.as_str())
            },
            ServiceManagerError::ShuttingDown => "service runtime is shutting down".to_owned(),
            ServiceManagerError::OperationFailed { name, message } => text4(
                "service '",
                name.as_str(),
                "' operation failed: ",
                message.as_str(),
            ),
        }
    }
}

/// A request to the runtime that owns the services. `L` and `R` are where the answer
/// goes: for a list of all services, and for what is asked of a single one.
#[allow(inconsistent_fields)]
pub enum ServiceCommand<L, R> {
    List { reply: L },
    Start { name: String, reply: R },
    Stop { name: String, reply: R },
    Reload { name: String, reply: R },
}

/// What one who sent a command is told. Without a reply, because the command or its
/// answer was lost, the runtime is gone.
pub fn reply_or_unavailable<T>(reply: Option<Result<T, ServiceManagerError>>) -> (result: Result<
    T,
    ServiceManagerError,
>)
    ensures
        result == match reply {
            Some(told) => told,
            None => Err(ServiceManagerError::RuntimeUnavailable),
        },
{
    match reply {
        Some(told) => told,
        None => Err(ServiceManagerError::RuntimeUnavailable),
    }
}

/// What one who restarts a service is told has happened.
pub enum RestartEvent {
    Begin,
    /// The stop command was answered.
    Stopped(Result<ServiceSnapshot, ServiceManagerError>),
    /// The start command was answered.
    Started(Result<ServiceSnapshot, ServiceManagerError>),
}

/// What one who restarts a service does next.
pub enum RestartStep {
    /// Send a stop command.
    Stop,
    /// Send a start command.
    Start,
    Done(Result<ServiceSnapshot, ServiceManagerError>),
}

/// Restarts a service: stops the current generation completely before starting its
/// successor. A stop that fails ends the restart.
pub fn restart(event: RestartEvent) -> (step: RestartStep)
    ensures
        match event {
            RestartEvent::Begin => step is Stop,
            RestartEvent::Stopped(Ok(_)) => step is Start,
            RestartEvent::Stopped(Err(error)) => step == RestartStep::Done(Err(error)),
            RestartEvent::Started(result) => step == RestartStep::Done(result),
        },
{
    match event {
        RestartEvent::Begin => RestartStep::Stop,
        RestartEvent::Stopped(Ok(_)) => RestartStep::Start,
        RestartEvent::Stopped(Err(error)) => RestartStep::Done(Err(error)),
        RestartEvent::Started(result) => RestartStep::Done(result),
    }
}

} // verus!

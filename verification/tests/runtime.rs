use std::sync::atomic::{AtomicBool, AtomicU64, Ordering};
use std::sync::{Arc, Mutex};

use continuo::runtime::task::{ServiceExit, TaskIdentity};
use continuo::runtime::turn::{RuntimeEvent, Turn};
use continuo::runtime::{CommandOutcome, Completion, Launch, PendingReload};
use continuo::service::{ServiceCommand, ServiceStartPolicy};
use continuo::{
    Error, Provider, Registry, Reloadable, Runnable, Runtime, ServiceManagerError, ServiceSnapshot,
    ServiceStatus, SharedState,
};
use tokio_util::sync::CancellationToken;

#[derive(Clone)]
struct TestState {
    shutdown: CancellationToken,
}

impl TestState {
    fn new() -> Self {
        TestState { shutdown: CancellationToken::new() }
    }
}

impl SharedState for TestState {
    fn shutdown_token(&self) -> CancellationToken {
        self.shutdown.clone()
    }
}

/// Answers are told apart by a number.
type TestRuntime = Runtime<TestState, u32>;
type Outcome = CommandOutcome<TestState, u32, u32>;

fn list(runtime: &mut TestRuntime) -> Vec<ServiceSnapshot> {
    match runtime.handle_command(ServiceCommand::List { reply: 7u32 }) {
        CommandOutcome::List { reply: 7, result } => result.expect("list services"),
        _ => panic!("a list is answered at once"),
    }
}

fn start(runtime: &mut TestRuntime, name: &str, reply: u32) -> Outcome {
    runtime.handle_command(ServiceCommand::Start { name: name.to_owned(), reply })
}

fn stop(runtime: &mut TestRuntime, name: &str, reply: u32) -> Outcome {
    runtime.handle_command(ServiceCommand::Stop { name: name.to_owned(), reply })
}

fn reload(runtime: &mut TestRuntime, name: &str, reply: u32) -> Outcome {
    runtime.handle_command(ServiceCommand::Reload { name: name.to_owned(), reply })
}

fn answer(outcome: Outcome, to: u32) -> Result<ServiceSnapshot, ServiceManagerError> {
    match outcome {
        CommandOutcome::Answer { reply, result } => {
            assert_eq!(reply, to);
            result
        }
        _ => panic!("an answer is due at once"),
    }
}

fn started(outcome: Outcome, to: u32) -> (Launch<TestState>, ServiceSnapshot) {
    match outcome {
        CommandOutcome::Started { reply, launch, snapshot } => {
            assert_eq!(reply, to);
            (launch, snapshot)
        }
        _ => panic!("a generation is due"),
    }
}

fn pending(outcome: Outcome) -> PendingReload<TestState, u32> {
    match outcome {
        CommandOutcome::Reloading(pending) => pending,
        _ => panic!("a reload is due"),
    }
}

fn replies(completion: Completion<u32>) -> Vec<(u32, Result<ServiceSnapshot, ServiceManagerError>)> {
    completion.replies.into_iter().map(|reply| (reply.to, reply.result)).collect()
}

struct ManagedCounter {
    reloads: AtomicU64,
    fail_reload: AtomicBool,
}

impl ManagedCounter {
    fn new() -> Self {
        ManagedCounter { reloads: AtomicU64::new(0), fail_reload: AtomicBool::new(false) }
    }

    fn perform_reload(&self) -> Result<(), Error> {
        self.reloads.fetch_add(1, Ordering::SeqCst);
        if self.fail_reload.swap(false, Ordering::SeqCst) {
            return Err(Error::msg("configured reload failure"));
        }
        Ok(())
    }
}

impl Reloadable<TestState> for ManagedCounter {}
impl Runnable<TestState> for ManagedCounter {}

impl Provider<TestState> for ManagedCounter {
    fn name(&self) -> &'static str {
        "counter"
    }

    fn as_runnable(self: Arc<Self>) -> Option<Arc<dyn Runnable<TestState>>> {
        Some(self)
    }

    fn as_reloadable(&self) -> Option<&dyn Reloadable<TestState>> {
        Some(self)
    }
}

#[test]
fn manager_owns_stop_start_and_restart_generations() {
    let state = TestState::new();
    let counter = Arc::new(ManagedCounter::new());
    let mut registry = Registry::<TestState>::new();
    registry.insert(counter.clone(), "ManagedCounter").expect("counter registration");

    let mut runtime = TestRuntime::default();
    let report = runtime.spawn_all(&registry, state.clone());
    assert_eq!(report.result.expect("runtime initialization"), 1);
    assert_eq!(report.launches.len(), 1);
    let first = &report.launches[0];
    assert_eq!(first.identity.name, "counter");
    assert_eq!(first.identity.generation, 1);
    assert_eq!(first.position, 0);
    assert!(!first.cancellation.is_cancelled());

    assert!(matches!(stop(&mut runtime, "counter", 1), CommandOutcome::Waiting));
    assert!(first.cancellation.is_cancelled());
    assert!(!state.is_shutting_down());
    let completion = runtime.complete_service(first.identity.exit(Ok(())));
    assert!(completion.result.is_ok());
    let told = replies(completion);
    assert_eq!(told.len(), 1);
    assert_eq!(told[0].0, 1);
    let stopped = told[0].1.as_ref().expect("stop counter");
    assert_eq!(stopped.status(), ServiceStatus::Stopped);

    let (second, snapshot) = started(start(&mut runtime, "counter", 2), 2);
    assert_eq!(snapshot.generation(), 2);
    assert_eq!(snapshot.status(), ServiceStatus::Running);
    assert_eq!(second.identity.generation, 2);
    assert!(!second.cancellation.is_cancelled());

    // A restart is a stop, waited for, and a start.
    assert!(matches!(stop(&mut runtime, "counter", 3), CommandOutcome::Waiting));
    let completion = runtime.complete_service(second.identity.exit(Ok(())));
    assert_eq!(replies(completion)[0].0, 3);
    let (third, restarted) = started(start(&mut runtime, "counter", 4), 4);
    assert_eq!(restarted.generation(), 3);

    let request = pending(reload(&mut runtime, "counter", 5));
    assert_eq!(request.position, 0);
    assert_eq!(request.service, "counter");
    let reply = runtime.finish_reload(request, counter.perform_reload());
    assert_eq!(reply.to, 5);
    let reloaded = reply.result.expect("reload counter");
    assert_eq!(reloaded.status(), ServiceStatus::Running);
    assert_eq!(reloaded.generation(), 3);
    assert_eq!(reloaded.reload_revision(), 1);
    assert_eq!(reloaded.last_reload_error(), None);
    assert_eq!(counter.reloads.load(Ordering::SeqCst), 1);

    counter.fail_reload.store(true, Ordering::SeqCst);
    let request = pending(reload(&mut runtime, "counter", 6));
    let reply = runtime.finish_reload(request, counter.perform_reload());
    assert_eq!(reply.to, 6);
    let error = reply.result.expect_err("the reload has failed");
    assert_eq!(
        error.to_string(),
        "service 'counter' operation failed: reload of 'counter' failed: configured reload failure"
    );
    let snapshots = list(&mut runtime);
    let failed_reload = snapshots
        .iter()
        .find(|snapshot| snapshot.name() == "counter")
        .expect("counter snapshot");
    assert_eq!(failed_reload.status(), ServiceStatus::Running);
    assert_eq!(failed_reload.reload_revision(), 2);
    assert_eq!(
        failed_reload.last_reload_error(),
        Some("reload of 'counter' failed: configured reload failure")
    );

    state.initiate_shutdown();
    let event = RuntimeEvent::<u32, u32>::Shutdown(Vec::new());
    match runtime.wait_until_shutdown(event) {
        Turn::Leave { outcomes, replies, result } => {
            assert!(outcomes.is_empty());
            assert!(replies.is_empty());
            result.expect("runtime shutdown");
        }
        _ => panic!("shutdown ends the wait"),
    }
    assert!(third.cancellation.is_cancelled());
    let completion = runtime.complete_service(third.identity.exit(Ok(())));
    assert!(completion.result.is_ok());
    match runtime.drain::<u32>(None) {
        Turn::Leave { result, .. } => result.expect("runtime drain"),
        _ => panic!("nothing is left to wait for"),
    }
}

#[test]
fn interrupted_boot_submits_one_cancelled_initial_generation() {
    let state = TestState::new();
    let mut registry = Registry::<TestState>::new();
    registry
        .insert(Arc::new(ManagedCounter::new()), "ManagedCounter")
        .expect("counter registration");
    state.shutdown.cancel();

    let mut runtime = TestRuntime::default();
    let report = runtime.spawn_all(&registry, state.clone());
    assert_eq!(report.result.unwrap(), 1);
    assert_eq!(report.launches.len(), 1);
    assert!(report.launches[0].cancellation.is_cancelled());
    let completion = runtime.complete_service(report.launches[0].identity.exit(Ok(())));
    assert!(completion.result.is_ok());

    // An explicit start is refused by then.
    let error = answer(start(&mut runtime, "counter", 1), 1).expect_err("the parent is cancelled");
    assert_eq!(
        error.to_string(),
        "service 'counter' operation failed: service runtime is shutting down"
    );
}

struct PolicyService {
    name: &'static str,
    policy: Mutex<ServiceStartPolicy>,
}

impl PolicyService {
    fn new(name: &'static str, policy: ServiceStartPolicy) -> Self {
        PolicyService { name, policy: Mutex::new(policy) }
    }

    fn set_policy(&self, policy: ServiceStartPolicy) {
        *self.policy.lock().expect("policy lock") = policy;
    }
}

impl Provider<TestState> for PolicyService {
    fn name(&self) -> &'static str {
        self.name
    }

    fn as_runnable(self: Arc<Self>) -> Option<Arc<dyn Runnable<TestState>>> {
        Some(self)
    }
}

impl Runnable<TestState> for PolicyService {
    fn start_policy(&self, _state: &TestState) -> ServiceStartPolicy {
        *self.policy.lock().expect("policy lock")
    }
}

#[test]
fn start_policy_controls_initial_and_explicit_generations() {
    {
        let state = TestState::new();
        let manual = Arc::new(PolicyService::new("manual", ServiceStartPolicy::Manual));
        let mut registry = Registry::<TestState>::new();
        registry.insert(manual.clone(), "PolicyService").expect("manual registration");
        let mut runtime = TestRuntime::default();
        let report = runtime.spawn_all(&registry, state.clone());
        assert_eq!(report.result.unwrap(), 1);
        assert!(report.launches.is_empty());
        assert!(!runtime.has_tasks());

        let snapshots = list(&mut runtime);
        assert_eq!(snapshots.len(), 1);
        assert_eq!(snapshots[0].status(), ServiceStatus::Stopped);
        assert_eq!(snapshots[0].start_policy(), ServiceStartPolicy::Manual);

        manual.set_policy(ServiceStartPolicy::Unavailable);
        assert!(matches!(
            answer(start(&mut runtime, "manual", 1), 1),
            Err(ServiceManagerError::Unavailable(name)) if name == "manual"
        ));
        manual.set_policy(ServiceStartPolicy::Manual);
        let (launch, snapshot) = started(start(&mut runtime, "manual", 2), 2);
        assert_eq!(launch.identity.generation, 1);
        assert_eq!(snapshot.status(), ServiceStatus::Running);
        assert_eq!(snapshot.start_policy(), ServiceStartPolicy::Manual);

        // A running service answers a start with what it is.
        let running = answer(start(&mut runtime, "manual", 3), 3).expect("it runs already");
        assert_eq!(running.generation(), 1);
    }

    {
        let state = TestState::new();
        let unavailable =
            Arc::new(PolicyService::new("unavailable", ServiceStartPolicy::Unavailable));
        let mut registry = Registry::<TestState>::new();
        registry.insert(unavailable, "PolicyService").expect("unavailable registration");
        let mut runtime = TestRuntime::default();
        let report = runtime.spawn_all(&registry, state);
        assert_eq!(report.result.unwrap(), 1);
        assert!(report.launches.is_empty());

        let snapshots = list(&mut runtime);
        assert_eq!(snapshots.len(), 1);
        assert_eq!(snapshots[0].status(), ServiceStatus::Stopped);
        assert_eq!(snapshots[0].start_policy(), ServiceStartPolicy::Unavailable);
        assert!(matches!(
            answer(start(&mut runtime, "unavailable", 1), 1),
            Err(ServiceManagerError::Unavailable(name)) if name == "unavailable"
        ));
    }
}

struct Named<const N: usize> {
    name: &'static str,
    priority: Option<u8>,
}

impl<const N: usize> Runnable<TestState> for Named<N> {}

impl<const N: usize> Provider<TestState> for Named<N> {
    fn name(&self) -> &'static str {
        self.name
    }

    fn run_priority(&self) -> Option<u8> {
        self.priority
    }

    fn as_runnable(self: Arc<Self>) -> Option<Arc<dyn Runnable<TestState>>> {
        Some(self)
    }
}

fn named<const N: usize>(name: &'static str, priority: Option<u8>) -> Arc<Named<N>> {
    Arc::new(Named { name, priority })
}

/// A runtime with the services `zeta`, `alpha` and `mid`, all running.
fn three_services() -> (TestRuntime, Vec<Launch<TestState>>) {
    let mut registry = Registry::<TestState>::new();
    registry
        .insert(named::<0>("zeta", None), "zeta")
        .expect("registration")
        .insert(named::<1>("mid", Some(200)), "mid")
        .expect("registration")
        .insert(named::<2>("alpha", None), "alpha")
        .expect("registration");
    let mut runtime = TestRuntime::new();
    let report = runtime.spawn_all(&registry, TestState::new());
    assert_eq!(report.result.unwrap(), 3);
    (runtime, report.launches)
}

#[test]
fn tasks_start_by_priority_and_name_and_are_listed_by_name() {
    let (mut runtime, launches) = three_services();
    let order: Vec<_> = launches.iter().map(|l| (l.identity.name, l.position)).collect();
    assert_eq!(order, vec![("alpha", 2), ("zeta", 0), ("mid", 1)]);
    let names: Vec<_> = list(&mut runtime).iter().map(|s| s.name()).collect();
    assert_eq!(names, vec!["alpha", "mid", "zeta"]);
}

#[test]
fn a_runtime_is_initialized_once_and_names_are_unique() {
    let mut registry = Registry::<TestState>::new();
    registry
        .insert(named::<0>("twin", None), "first")
        .expect("registration")
        .insert(named::<1>("twin", None), "second")
        .expect("registration");
    let mut runtime = TestRuntime::new();
    let report = runtime.spawn_all(&registry, TestState::new());
    assert!(report.launches.is_empty());
    assert_eq!(
        report.result.unwrap_err().to_string(),
        "duplicate runnable service name 'twin'"
    );
    assert!(!runtime.is_initialized());

    let empty = Registry::<TestState>::new();
    assert_eq!(runtime.spawn_all(&empty, TestState::new()).result.unwrap(), 0);
    assert!(runtime.is_initialized());
    assert_eq!(
        runtime.spawn_all(&empty, TestState::new()).result.unwrap_err().to_string(),
        "runtime runnable set is already initialized"
    );
}

#[test]
fn commands_for_unknown_services_are_answered_with_their_name() {
    let (mut runtime, _launches) = three_services();
    for outcome in [
        start(&mut runtime, "nobody", 1),
        stop(&mut runtime, "nobody", 1),
        reload(&mut runtime, "nobody", 1),
    ] {
        let error = answer(outcome, 1).expect_err("there is no such service");
        assert!(matches!(&error, ServiceManagerError::NotFound(name) if name == "nobody"));
        assert_eq!(error.to_string(), "runnable service 'nobody' is not registered");
    }
    let error = answer(reload(&mut runtime, "mid", 2), 2).expect_err("it cannot reload");
    assert!(matches!(&error, ServiceManagerError::NotReloadable(name) if name == "mid"));
}

#[test]
fn a_stopping_service_is_busy_and_answers_all_who_wait() {
    let (mut runtime, launches) = three_services();
    assert!(matches!(stop(&mut runtime, "mid", 1), CommandOutcome::Waiting));
    assert!(matches!(stop(&mut runtime, "mid", 2), CommandOutcome::Waiting));
    for outcome in [start(&mut runtime, "mid", 3), reload(&mut runtime, "mid", 3)] {
        let error = answer(outcome, 3).expect_err("it is stopping");
        assert!(matches!(
            &error,
            ServiceManagerError::Busy { name, status: ServiceStatus::Stopping } if name == "mid"
        ));
        assert_eq!(error.to_string(), "service 'mid' is currently stopping");
    }
    let completion = runtime.complete_service(launches[2].identity.exit(Ok(())));
    let told = replies(completion);
    assert_eq!(told.iter().map(|(to, _)| *to).collect::<Vec<_>>(), vec![1, 2]);
    assert!(told.iter().all(|(_, result)| result.is_ok()));
    // Asking again is answered at once.
    let snapshot = answer(stop(&mut runtime, "mid", 4), 4).expect("it has stopped");
    assert_eq!(snapshot.status(), ServiceStatus::Stopped);
}

#[test]
fn failures_are_kept_and_only_recoverable_ones_are_survived() {
    let (mut runtime, launches) = three_services();
    assert!(matches!(stop(&mut runtime, "alpha", 1), CommandOutcome::Waiting));
    let fatal = launches[0].identity.exit(Err(Error::msg("disk full")));
    assert!(matches!(&fatal.result, Err(Error::Run { name: "alpha", .. })));
    let completion = runtime.complete_service(fatal);
    let text = "runnable 'alpha' failed: disk full";
    assert_eq!(completion.result.as_ref().unwrap_err().to_string(), text);
    let told = replies(completion);
    assert_eq!(told[0].0, 1);
    assert!(matches!(
        told[0].1.as_ref().unwrap_err(),
        ServiceManagerError::OperationFailed { name, message } if name == "alpha" && message == text
    ));

    let mild = launches[1].identity.exit(Err(Error::recoverable("peer is gone")));
    let completion = runtime.complete_service(mild);
    assert!(completion.result.is_ok());
    let snapshots = list(&mut runtime);
    assert_eq!(snapshots[0].status(), ServiceStatus::Failed);
    assert_eq!(snapshots[0].last_error(), Some(text));
    assert_eq!(snapshots[1].status(), ServiceStatus::Running);
    assert_eq!(snapshots[2].status(), ServiceStatus::Failed);
    assert_eq!(
        snapshots[2].last_error(),
        Some("runnable 'zeta' failed (recoverable): peer is gone")
    );
    // A failed service can be started again, and its failure is forgotten.
    let (launch, snapshot) = started(start(&mut runtime, "alpha", 2), 2);
    assert_eq!(launch.identity.generation, 2);
    assert_eq!(snapshot.last_error(), None);
}

#[test]
fn ends_of_other_generations_are_errors() {
    let (mut runtime, _launches) = three_services();
    let stale = TaskIdentity { name: "mid", generation: 12 }.exit(Ok(()));
    let completion = runtime.complete_service(stale);
    assert!(completion.replies.is_empty());
    assert_eq!(
        completion.result.unwrap_err().to_string(),
        "service 'mid' completed stale generation 12 while generation 1 is current"
    );
    let unknown = ServiceExit { name: "nobody", generation: 1, result: Ok(()) };
    assert_eq!(
        runtime.complete_service(unknown).result.unwrap_err().to_string(),
        "completed runnable service 'nobody' is not registered"
    );
}

#[test]
fn shutdown_refuses_what_is_pending_and_what_comes_later() {
    let (mut runtime, launches) = three_services();
    assert!(matches!(stop(&mut runtime, "zeta", 1), CommandOutcome::Waiting));
    let pending = vec![
        ServiceCommand::List { reply: 10 },
        ServiceCommand::Start { name: "mid".to_owned(), reply: 11 },
    ];
    let outcomes = runtime.begin_shutdown(pending);
    assert_eq!(outcomes.len(), 2);
    assert!(matches!(
        &outcomes[0],
        CommandOutcome::List { reply: 10, result: Err(ServiceManagerError::ShuttingDown) }
    ));
    assert!(matches!(
        &outcomes[1],
        CommandOutcome::Answer { reply: 11, result: Err(ServiceManagerError::ShuttingDown) }
    ));
    assert!(launches.iter().all(|launch| launch.cancellation.is_cancelled()));

    let error = answer(stop(&mut runtime, "mid", 12), 12).expect_err("shutdown has begun");
    assert_eq!(error.to_string(), "service runtime is shutting down");
    assert!(matches!(
        runtime.handle_command(ServiceCommand::List { reply: 13 }),
        Outcome::List { reply: 13, result: Err(ServiceManagerError::ShuttingDown) }
    ));
    // Who waited before is still answered.
    let completion = runtime.complete_service(launches[1].identity.exit(Ok(())));
    assert_eq!(replies(completion)[0].0, 1);
}

#[test]
fn a_runtime_that_was_shut_down_first_starts_nothing() {
    let mut registry = Registry::<TestState>::new();
    registry.insert(named::<0>("late", None), "late").expect("registration");
    let mut runtime = TestRuntime::new();
    assert!(runtime.abort_and_drain::<u32>(Vec::new()).is_empty());
    let report = runtime.spawn_all(&registry, TestState::new());
    assert!(report.launches.is_empty());
    assert_eq!(
        report.result.unwrap_err().to_string(),
        "service runtime is shutting down"
    );
}

#[test]
fn a_closed_command_channel_ends_the_wait() {
    let (mut runtime, _launches) = three_services();
    match runtime.wait_until_shutdown(RuntimeEvent::<u32, u32>::Command(None)) {
        Turn::Leave { result, .. } => assert_eq!(
            result.unwrap_err().to_string(),
            "service manager command channel closed"
        ),
        _ => panic!("the wait is over"),
    }
    assert!(matches!(
        runtime.wait_until_shutdown(RuntimeEvent::<u32, u32>::Joined(None)),
        Turn::Replies(replies) if replies.is_empty()
    ));
    let command = ServiceCommand::Stop { name: "mid".to_owned(), reply: 1 };
    assert!(matches!(
        runtime.wait_until_shutdown(RuntimeEvent::<u32, u32>::Command(Some(command))),
        Turn::Command(CommandOutcome::Waiting)
    ));
}

/// Runs tasks to their ends: one that finishes, one that is aborted and one that panics.
fn joined_tasks() -> (
    tokio::task::Id,
    (tokio::task::Id, tokio::task::JoinError),
    (tokio::task::Id, tokio::task::JoinError),
) {
    let tokio = tokio::runtime::Builder::new_current_thread().build().expect("runtime");
    let finished = tokio.spawn(std::future::ready(()));
    let finished_id = finished.id();
    tokio.block_on(finished).expect("it finishes");
    let aborted = tokio.spawn(std::future::pending::<()>());
    let aborted_id = aborted.id();
    aborted.abort();
    let aborted_error = tokio.block_on(aborted).expect_err("it was aborted");
    let panicked = tokio.spawn(std::future::poll_fn(|_| -> std::task::Poll<()> { panic!("boom") }));
    let panicked_id = panicked.id();
    let panicked_error = tokio.block_on(panicked).expect_err("it panicked");
    (finished_id, (aborted_id, aborted_error), (panicked_id, panicked_error))
}

#[test]
fn joined_tasks_end_their_generations() {
    let (mut runtime, launches) = three_services();
    let (finished, (aborted, aborted_error), (panicked, panicked_error)) = joined_tasks();
    runtime.register_task(finished, launches[0].identity);
    runtime.register_task(aborted, launches[1].identity);
    runtime.register_task(panicked, launches[2].identity);
    assert!(runtime.has_tasks());
    assert!(matches!(stop(&mut runtime, "zeta", 1), CommandOutcome::Waiting));

    let exit = launches[0].identity.exit(Ok(()));
    match runtime.wait_until_shutdown(RuntimeEvent::<u32, u32>::Joined(Some(Ok((finished, exit))))) {
        Turn::Replies(replies) => assert!(replies.is_empty()),
        _ => panic!("a clean end keeps the runtime up"),
    }

    let text = aborted_error.to_string();
    assert_eq!(text, format!("task {aborted} was cancelled"));
    match runtime.wait_until_shutdown(RuntimeEvent::<u32, u32>::Joined(Some(Err(aborted_error)))) {
        Turn::Leave { replies, result, .. } => {
            assert_eq!(replies.len(), 1);
            assert_eq!(replies[0].to, 1);
            assert!(matches!(
                &replies[0].result,
                Err(ServiceManagerError::OperationFailed { name, message })
                    if name == "zeta" && *message == text
            ));
            assert_eq!(result.unwrap_err().to_string(), text);
        }
        _ => panic!("a lost task brings the runtime down"),
    }
    let text = panicked_error.to_string();
    let completion = runtime.complete_join(Err(panicked_error));
    assert_eq!(completion.result.unwrap_err().to_string(), text);
    assert!(!runtime.has_tasks());

    let snapshots = list(&mut runtime);
    assert_eq!(snapshots[0].status(), ServiceStatus::Stopped);
    assert_eq!(snapshots[1].status(), ServiceStatus::Failed);
    assert_eq!(snapshots[1].last_error(), Some(text.as_str()));
    assert_eq!(snapshots[2].status(), ServiceStatus::Failed);
}

#[test]
fn a_lost_task_of_an_older_generation_is_only_reported() {
    let (mut runtime, launches) = three_services();
    let (_, (aborted, aborted_error), (panicked, panicked_error)) = joined_tasks();
    runtime.register_task(aborted, TaskIdentity { name: "mid", generation: 0 });
    let completion = runtime.complete_join(Err(aborted_error));
    assert!(completion.result.is_err());
    assert!(completion.replies.is_empty());
    // A task that nobody knows changes nothing either.
    assert!(runtime.complete_join(Err(panicked_error)).result.is_err());
    assert!(list(&mut runtime).iter().all(|s| s.status() == ServiceStatus::Running));
    runtime.register_task(panicked, launches[0].identity);
    let forgotten = runtime.forget_task(&panicked).expect("it is known");
    assert_eq!(forgotten.name, "alpha");
    assert_eq!(forgotten.generation, 1);
    assert!(runtime.forget_task(&panicked).is_none());
}

#[test]
fn aborted_tasks_are_forgotten_without_a_trace() {
    let (mut runtime, launches) = three_services();
    let (finished, (aborted, aborted_error), _) = joined_tasks();
    runtime.register_task(finished, launches[0].identity);
    runtime.register_task(aborted, launches[1].identity);
    assert!(runtime.abort_and_drain::<u32>(Vec::new()).is_empty());
    assert!(launches[0].cancellation.is_cancelled());
    runtime.discard_join(Ok((finished, launches[0].identity.exit(Ok(())))));
    assert!(runtime.has_tasks());
    runtime.discard_join(Err(aborted_error));
    assert!(!runtime.has_tasks());
}

#[test]
fn generations_are_refused_for_a_reason() {
    let mut runtime = TestRuntime::new();
    let error = runtime.start_generation("mid", true).err().expect("there is no state yet");
    assert_eq!(error.to_string(), "service runtime is not initialized");

    let state = TestState::new();
    let empty = Registry::<TestState>::new();
    assert_eq!(runtime.spawn_all(&empty, state.clone()).result.unwrap(), 0);
    let error = runtime.start_generation("mid", false).err().expect("there is no such service");
    assert_eq!(error.to_string(), "runnable service 'mid' is not registered");

    // A shutdown is seen before the service is looked for, unless it is no obstacle.
    state.shutdown.cancel();
    let error = runtime.start_generation("mid", false).err().expect("the parent is cancelled");
    assert_eq!(error.to_string(), "service runtime is shutting down");
    let error = runtime.start_generation("mid", true).err().expect("there is no such service");
    assert_eq!(error.to_string(), "runnable service 'mid' is not registered");
}

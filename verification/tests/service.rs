use continuo::registry::plan::{order_provider_entries, PlanEntry};
use continuo::registry::provider::lifecycle_priority;
use continuo::service::{
    reply_or_unavailable, restart, RestartEvent, RestartStep, ServiceStartPolicy, COMMAND_CAPACITY,
};
use continuo::sorting::{name_le, sorted_positions};
use continuo::text::{decimal, join_names, same_text};
use continuo::{
    Error, Failure, Provider, ProviderOrder, RunContext, ServiceManagerError, ServiceStatus, SharedState,
};
use tokio_util::sync::CancellationToken;

#[derive(Clone)]
struct AppState(CancellationToken);

impl SharedState for AppState {
    fn shutdown_token(&self) -> CancellationToken {
        self.0.clone()
    }
}

#[test]
fn shutdown_is_seen_through_every_handle() {
    let state = AppState(CancellationToken::new());
    let other = state.clone();
    assert!(!other.is_shutting_down());
    state.initiate_shutdown();
    assert!(other.is_shutting_down());
    assert!(other.shutdown_token().is_cancelled());
}

#[test]
fn run_contexts_share_their_scope() {
    let token = CancellationToken::new();
    let context = RunContext::new(token.clone());
    let copy = context.clone();
    assert!(!context.is_cancelled());
    context.cancellation_token().cancel();
    assert!(context.is_cancelled());
    assert!(copy.is_cancelled());
    assert!(token.is_cancelled());
}

#[test]
fn policies_and_statuses_have_words() {
    assert_eq!(ServiceStartPolicy::default(), ServiceStartPolicy::Automatic);
    assert_eq!(ServiceStartPolicy::Automatic.as_str(), "automatic");
    assert_eq!(ServiceStartPolicy::Manual.as_str(), "manual");
    assert_eq!(ServiceStartPolicy::Unavailable.as_str(), "unavailable");
    assert_eq!(ServiceStartPolicy::Manual.to_string(), "manual");
    assert_eq!(ServiceStatus::Running.to_string(), "running");
    assert_eq!(ServiceStatus::Stopping.to_string(), "stopping");
    assert_eq!(ServiceStatus::Stopped.to_string(), "stopped");
    assert_eq!(ServiceStatus::Failed.to_string(), "failed");
    assert_eq!(COMMAND_CAPACITY, 64);
}

#[test]
fn manager_errors_say_what_was_refused() {
    let name = || "web".to_owned();
    let cases = [
        (ServiceManagerError::RuntimeUnavailable, "service runtime is unavailable"),
        (ServiceManagerError::NotFound(name()), "runnable service 'web' is not registered"),
        (
            ServiceManagerError::Unavailable(name()),
            "runnable service 'web' is unavailable on this runtime",
        ),
        (ServiceManagerError::NotReloadable(name()), "runnable service 'web' is not reloadable"),
        (
            ServiceManagerError::Busy { name: name(), status: ServiceStatus::Failed },
            "service 'web' is currently failed",
        ),
        (ServiceManagerError::ShuttingDown, "service runtime is shutting down"),
        (
            ServiceManagerError::OperationFailed { name: name(), message: "no".to_owned() },
            "service 'web' operation failed: no",
        ),
    ];
    for (error, text) in cases {
        assert_eq!(error.to_string(), text);
    }
}

#[test]
fn lost_replies_mean_that_the_runtime_is_gone() {
    let lost = reply_or_unavailable::<u8>(None).expect_err("nothing came back");
    assert_eq!(lost.to_string(), "service runtime is unavailable");
    assert_eq!(reply_or_unavailable(Some(Ok(3))).expect("it came back"), 3);
    let refused = reply_or_unavailable::<u8>(Some(Err(ServiceManagerError::ShuttingDown)));
    assert!(matches!(refused, Err(ServiceManagerError::ShuttingDown)));
}

#[test]
fn a_restart_stops_before_it_starts() {
    assert!(matches!(restart(RestartEvent::Begin), RestartStep::Stop));
    let failed = RestartEvent::Stopped(Err(ServiceManagerError::ShuttingDown));
    assert!(matches!(
        restart(failed),
        RestartStep::Done(Err(ServiceManagerError::ShuttingDown))
    ));
    let failed = RestartEvent::Started(Err(ServiceManagerError::NotFound("web".to_owned())));
    assert!(matches!(
        restart(failed),
        RestartStep::Done(Err(ServiceManagerError::NotFound(name))) if name == "web"
    ));
}

#[test]
fn errors_say_where_they_happened() {
    let source = || Failure::new("why".to_owned());
    let cases = [
        (
            Error::DuplicateProvider { type_label: "Db" },
            "provider type 'Db' is already registered",
        ),
        (Error::Boot { name: "db", source: source() }, "provider 'db' failed during boot: why"),
        (
            Error::Validate { name: "db", source: source() },
            "provider 'db' failed during validate: why",
        ),
        (Error::Reload { name: "db", source: source() }, "reload of 'db' failed: why"),
        (Error::Finalize { name: "db", source: source() }, "finalize of 'db' failed: why"),
        (Error::Run { name: "db", source: source() }, "runnable 'db' failed: why"),
        (
            Error::Recoverable { name: "db", source: source() },
            "runnable 'db' failed (recoverable): why",
        ),
        (Error::Other(source()), "why"),
        (Error::msg("plain"), "plain"),
        (Error::recoverable("mild"), "runnable '' failed (recoverable): mild"),
    ];
    for (error, text) in cases {
        assert_eq!(error.to_string(), text);
    }
}

#[test]
fn sources_can_be_walked_through_every_stage() {
    let chain = || Failure {
        text: "cannot load".to_owned(),
        causes: vec!["no such file".to_owned(), "os error 2".to_owned()],
    };
    for error in [
        Error::Other(chain()),
        Error::Other(chain()).into_boot("a"),
        Error::Other(chain()).into_validate("a"),
        Error::Other(chain()).into_reload("a"),
        Error::Other(chain()).into_finalize("a"),
        Error::Other(chain()).into_run("a"),
        Error::Recoverable { name: "", source: chain() }.into_run("a"),
    ] {
        let source = error.source().expect("there is one");
        assert_eq!(source.text, "cannot load");
        assert_eq!(source.causes, vec!["no such file", "os error 2"]);
        assert!(error.to_string().ends_with("cannot load"));
    }
    assert!(Error::msg("plain").source().expect("there is one").causes.is_empty());
    assert!(Error::DuplicateProvider { type_label: "Db" }.source().is_none());
}

#[test]
fn errors_take_the_stage_on_once() {
    assert!(matches!(Error::msg("x").into_boot("a"), Error::Boot { name: "a", .. }));
    assert!(matches!(Error::msg("x").into_validate("a"), Error::Validate { name: "a", .. }));
    assert!(matches!(Error::msg("x").into_reload("a"), Error::Reload { name: "a", .. }));
    assert!(matches!(Error::msg("x").into_finalize("a"), Error::Finalize { name: "a", .. }));
    assert!(matches!(Error::msg("x").into_run("a"), Error::Run { name: "a", .. }));
    let typed = Error::msg("x").into_boot("a");
    assert!(matches!(typed.into_reload("b"), Error::Boot { name: "a", .. }));
    let mild = Error::recoverable("x").into_run("a");
    assert!(matches!(&mild, Error::Recoverable { name: "a", .. }));
    assert!(matches!(mild.into_run("b"), Error::Recoverable { name: "a", .. }));
}

struct First;
struct Second;
struct Third;

fn entry<T: 'static>(name: &'static str, priority: u8, order: ProviderOrder) -> PlanEntry {
    PlanEntry { type_id: std::any::TypeId::of::<T>(), name, priority, order }
}

#[test]
fn plans_follow_hints_then_priorities_then_registration() {
    let entries = vec![
        entry::<First>("first", 100, ProviderOrder::new().after::<Third>()),
        entry::<Second>("second", 100, ProviderOrder::new()),
        entry::<Third>("third", 150, ProviderOrder::new()),
    ];
    assert_eq!(order_provider_entries(&entries).expect("no cycle"), vec![1, 2, 0]);

    let entries = vec![
        entry::<First>("first", 100, ProviderOrder::new()),
        entry::<Second>("second", 100, ProviderOrder::new().before::<First>()),
        entry::<Third>("third", 0, ProviderOrder::new()),
    ];
    assert_eq!(order_provider_entries(&entries).expect("no cycle"), vec![2, 1, 0]);

    // Hints about oneself and about types that are not there mean nothing.
    let own = ProviderOrder::new().after::<First>().before::<First>().after::<u8>();
    assert_eq!(own.after_types().len(), 2);
    assert_eq!(own.before_types().len(), 1);
    let entries = vec![entry::<First>("first", 100, own)];
    assert_eq!(order_provider_entries(&entries).expect("no cycle"), vec![0]);
    assert!(order_provider_entries(&Vec::new()).expect("nothing to order").is_empty());
}

#[test]
fn a_cycle_names_all_that_it_blocks() {
    let entries = vec![
        entry::<First>("first", 0, ProviderOrder::new().after::<Second>()),
        entry::<Second>("second", 0, ProviderOrder::new().after::<First>()),
        entry::<Third>("third", 0, ProviderOrder::new().after::<First>()),
        entry::<u8>("free", 255, ProviderOrder::new()),
    ];
    assert_eq!(
        order_provider_entries(&entries).expect_err("first and second wait").to_string(),
        "provider lifecycle order cycle detected: first, second, third"
    );
}

#[test]
fn lifecycle_priorities_fall_back() {
    assert_eq!(lifecycle_priority(Some(3), Some(7)), 3);
    assert_eq!(lifecycle_priority(None, Some(7)), 7);
    assert_eq!(lifecycle_priority(None, None), 100);
}

#[test]
fn names_are_ordered_as_strings() {
    let names = ["", "a", "aa", "ab", "b", "A", "z", "\u{e9}", "\u{1f600}", "\u{ffff}"];
    for a in names {
        for b in names {
            assert_eq!(name_le(a, b), a <= b, "{a:?} and {b:?}");
            assert_eq!(same_text(a, b), a == b, "{a:?} and {b:?}");
        }
    }
    let keys = vec![(100, "b"), (50, "z"), (100, "a"), (50, "z"), (100, "b")];
    assert_eq!(sorted_positions(&keys), vec![1, 3, 2, 0, 4]);
}

#[test]
fn numbers_and_names_are_written_out() {
    for n in [0, 7, 10, 99, 100, 12345, u64::MAX] {
        assert_eq!(decimal(n), n.to_string());
    }
    assert_eq!(join_names(&vec![], ", "), "");
    assert_eq!(join_names(&vec!["one"], ", "), "one");
    assert_eq!(join_names(&vec!["one", "two", "three"], ", "), "one, two, three");
}

struct Plain;

impl Provider<()> for Plain {}

#[test]
fn providers_have_defaults() {
    let plain = std::sync::Arc::new(Plain);
    assert_eq!(plain.name(), "provider");
    assert_eq!(plain.boot_priority(), None);
    assert_eq!(plain.run_priority(), None);
    assert!(plain.order().before_types().is_empty());
    assert!(plain.order().after_types().is_empty());
    assert!(plain.validate(&()).is_ok());
    assert!(plain.as_reloadable().is_none());
    assert!(plain.as_finalizable().is_none());
    assert!(plain.as_runnable().is_none());
}

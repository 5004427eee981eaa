use std::sync::{Arc, Mutex};

use continuo::registry::pass::{BootNext, FinalizeNext, ReloadNext};
use continuo::{Error, Failure, Finalizable, Provider, ProviderOrder, Registry, Reloadable};

#[derive(Clone, Default)]
struct TestState {
    seen: Arc<Mutex<Vec<&'static str>>>,
}

impl TestState {
    fn note(&self, entry: &'static str) {
        self.seen.lock().expect("test log poisoned").push(entry);
    }

    fn log(&self) -> Vec<&'static str> {
        self.seen.lock().expect("test log poisoned").clone()
    }
}

struct DbProvider;
struct CacheProvider;
struct ApiProvider;
struct MetricsProvider;
struct FailsValidation;

impl Provider<TestState> for DbProvider {
    fn name(&self) -> &'static str {
        "db"
    }

    fn validate(&self, state: &TestState) -> Result<(), Error> {
        state.note("db");
        Ok(())
    }
}

impl Provider<TestState> for CacheProvider {
    fn name(&self) -> &'static str {
        "cache"
    }

    fn order(&self) -> ProviderOrder {
        ProviderOrder::new().after::<DbProvider>()
    }

    fn validate(&self, state: &TestState) -> Result<(), Error> {
        state.note("cache");
        Ok(())
    }
}

impl Provider<TestState> for ApiProvider {
    fn name(&self) -> &'static str {
        "api"
    }

    fn order(&self) -> ProviderOrder {
        ProviderOrder::new().after::<CacheProvider>()
    }

    fn validate(&self, state: &TestState) -> Result<(), Error> {
        state.note("api");
        Ok(())
    }
}

impl Provider<TestState> for MetricsProvider {
    fn name(&self) -> &'static str {
        "metrics"
    }

    fn order(&self) -> ProviderOrder {
        ProviderOrder::new().before::<ApiProvider>()
    }

    fn validate(&self, state: &TestState) -> Result<(), Error> {
        state.note("metrics");
        Ok(())
    }
}

impl Provider<TestState> for FailsValidation {
    fn name(&self) -> &'static str {
        "fails-validation"
    }

    fn validate(&self, _: &TestState) -> Result<(), Error> {
        Err(Error::msg("validation rejected"))
    }
}

#[test]
fn lifecycle_order_uses_type_dependencies() {
    let state = TestState::default();
    let mut registry = Registry::<TestState>::new();

    registry
        .insert(Arc::new(ApiProvider), "ApiProvider")
        .expect("api registration should succeed")
        .insert(Arc::new(CacheProvider), "CacheProvider")
        .expect("cache registration should succeed")
        .insert(Arc::new(DbProvider), "DbProvider")
        .expect("database registration should succeed");

    let outcome = registry.validate_all(&state).expect("validation should run");
    assert!(outcome.is_valid());
    assert_eq!(outcome.validated_count(), 3);
    assert_eq!(state.log(), vec!["db", "cache", "api"]);
}

#[test]
fn duplicate_provider_registration_is_rejected_without_replacement() {
    let mut registry = Registry::<TestState>::new();
    let original = Arc::new(ApiProvider);

    registry
        .insert(original.clone(), "ApiProvider")
        .expect("first registration should succeed");
    let error = match registry.insert(Arc::new(ApiProvider), "ApiProvider") {
        Err(error) => error,
        Ok(_) => panic!("duplicate registration must be rejected"),
    };

    assert_eq!(error.to_string(), "provider type 'ApiProvider' is already registered");
    assert!(matches!(error, Error::DuplicateProvider { type_label } if type_label == "ApiProvider"));
    let resolved = registry.resolve::<ApiProvider>().expect("original provider should remain");
    assert!(Arc::ptr_eq(&resolved, &original));
}

#[test]
fn lifecycle_order_supports_before_edges_and_diagnostics() {
    let state = TestState::default();
    let mut registry = Registry::<TestState>::new();

    registry
        .insert(Arc::new(ApiProvider), "ApiProvider")
        .expect("api registration should succeed")
        .insert(Arc::new(MetricsProvider), "MetricsProvider")
        .expect("metrics registration should succeed")
        .insert(Arc::new(CacheProvider), "CacheProvider")
        .expect("cache registration should succeed")
        .insert(Arc::new(DbProvider), "DbProvider")
        .expect("database registration should succeed");

    let names = registry.lifecycle_names().expect("plan should build");
    assert_eq!(names, vec!["metrics", "db", "cache", "api"]);

    let outcome = registry.validate_all(&state).expect("validation should run");
    assert!(outcome.is_valid());
    assert_eq!(outcome.validated_count(), 4);
    assert_eq!(state.log(), vec!["metrics", "db", "cache", "api"]);
}

#[test]
fn validate_all_retains_provider_failures_and_continues() {
    let state = TestState::default();
    let mut registry = Registry::<TestState>::new();
    registry
        .insert(Arc::new(FailsValidation), "FailsValidation")
        .expect("failing validator should register")
        .insert(Arc::new(DbProvider), "DbProvider")
        .expect("successful validator should register");

    let outcome = registry.validate_all(&state).expect("validation should complete");

    assert!(!outcome.is_valid());
    assert_eq!(outcome.validated_count(), 1);
    assert_eq!(outcome.failed_count(), 1);
    let failure = &outcome.failures()[0];
    assert_eq!(failure.provider(), "fails-validation");
    assert!(matches!(failure.error(), Error::Validate { name: "fails-validation", .. }));
    assert_eq!(
        failure.error().to_string(),
        "provider 'fails-validation' failed during validate: validation rejected"
    );
    assert_eq!(state.log().as_slice(), &["db"]);
    let failures = outcome.into_failures();
    assert_eq!(failures.len(), 1);
    for failure in failures {
        assert!(matches!(failure.into_error(), Error::Validate { .. }));
    }
}

trait LogSink: Send + Sync {
    fn line(&self) -> &'static str;
}

struct ConsoleLogger;
struct FileLogger;

impl LogSink for ConsoleLogger {
    fn line(&self) -> &'static str {
        "console"
    }
}

impl LogSink for FileLogger {
    fn line(&self) -> &'static str {
        "file"
    }
}

impl Provider<TestState> for ConsoleLogger {
    fn name(&self) -> &'static str {
        "console-logger"
    }
}

impl Provider<TestState> for FileLogger {
    fn name(&self) -> &'static str {
        "file-logger"
    }
}

/// Boots every provider of the registry; the one at place `k` notes `entries[k]`.
fn boot(
    registry: &mut Registry<TestState>,
    state: &TestState,
    entries: &[&'static str],
) -> Result<(), Error> {
    let mut pass = registry.boot_all()?;
    loop {
        match pass.next() {
            BootNext::Done => return Ok(()),
            BootNext::Step(step) => {
                state.note(entries[step.provider().position]);
                pass = step.complete(Ok(()))?;
            }
        }
    }
}

#[test]
fn bind_dyn_resolves_trait_object_and_allows_replacement() {
    let state = TestState::default();
    let mut registry = Registry::<TestState>::new();

    registry
        .insert(Arc::new(ConsoleLogger), "ConsoleLogger")
        .expect("console logger should register");
    registry
        .bind_dyn::<dyn LogSink, ConsoleLogger>(|logger| logger, "ConsoleLogger")
        .expect("dyn binding should succeed");

    let sink = registry.resolve_dyn::<dyn LogSink>().expect("LogSink should be bound");
    assert_eq!(sink.line(), "console");

    registry.insert(Arc::new(FileLogger), "FileLogger").expect("file logger should register");
    registry
        .bind_dyn::<dyn LogSink, FileLogger>(|logger| logger, "FileLogger")
        .expect("dyn binding replacement should succeed");

    let sink = registry.resolve_dyn::<dyn LogSink>().expect("LogSink should be rebound");
    assert_eq!(sink.line(), "file");

    boot(&mut registry, &state, &["console-logger", "file-logger"]).expect("boot should succeed");
    assert_eq!(state.log(), vec!["console-logger", "file-logger"]);
}

#[test]
fn bind_dyn_needs_a_registered_provider() {
    let mut registry = Registry::<TestState>::new();
    let error = match registry.bind_dyn::<dyn LogSink, FileLogger>(|logger| logger, "FileLogger") {
        Err(error) => error,
        Ok(_) => panic!("nothing is registered"),
    };
    assert_eq!(error.to_string(), "bind_dyn: provider type 'FileLogger' is not registered");
    assert!(registry.resolve_dyn::<dyn LogSink>().is_none());
    assert!(registry.resolve::<FileLogger>().is_none());
}

struct BootRecorder;
struct BootDependency;

impl Finalizable<TestState> for BootRecorder {}
impl Finalizable<TestState> for BootDependency {}

impl Provider<TestState> for BootRecorder {
    fn name(&self) -> &'static str {
        "boot-recorder"
    }

    fn order(&self) -> ProviderOrder {
        ProviderOrder::new().after::<BootDependency>()
    }

    fn as_finalizable(&self) -> Option<&dyn Finalizable<TestState>> {
        Some(self)
    }
}

impl Provider<TestState> for BootDependency {
    fn name(&self) -> &'static str {
        "boot-dependency"
    }

    fn as_finalizable(&self) -> Option<&dyn Finalizable<TestState>> {
        Some(self)
    }
}

#[test]
fn boot_and_finalize_share_lifecycle_plan() {
    let state = TestState::default();
    let mut registry = Registry::<TestState>::new();

    registry
        .insert(Arc::new(BootRecorder), "BootRecorder")
        .expect("boot recorder should register")
        .insert(Arc::new(BootDependency), "BootDependency")
        .expect("boot dependency should register");

    boot(&mut registry, &state, &["boot-recorder", "boot-dependency"]).expect("boot should succeed");
    let entries = ["finalize-recorder", "finalize-dependency"];
    let mut pass = registry.finalize_all().expect("finalize should succeed");
    let outcome = loop {
        match pass.next() {
            FinalizeNext::Done(outcome) => break outcome,
            FinalizeNext::Step(step) => {
                state.note(entries[step.provider().position]);
                pass = step.complete(Ok(()));
            }
        }
    };
    assert!(outcome.is_complete());
    assert_eq!(outcome.finalized_count(), 2);
    assert_eq!(
        state.log(),
        vec!["boot-dependency", "boot-recorder", "finalize-recorder", "finalize-dependency"]
    );
}

struct CycleA;
struct CycleB;

impl Provider<TestState> for CycleA {
    fn name(&self) -> &'static str {
        "cycle-a"
    }

    fn order(&self) -> ProviderOrder {
        ProviderOrder::new().after::<CycleB>()
    }
}

impl Provider<TestState> for CycleB {
    fn name(&self) -> &'static str {
        "cycle-b"
    }

    fn order(&self) -> ProviderOrder {
        ProviderOrder::new().after::<CycleA>()
    }
}

#[test]
fn lifecycle_order_rejects_cycles() {
    let state = TestState::default();
    let mut registry = Registry::<TestState>::new();

    registry
        .insert(Arc::new(CycleA), "CycleA")
        .expect("cycle A should register")
        .insert(Arc::new(CycleB), "CycleB")
        .expect("cycle B should register");

    let err = registry.validate_all(&state).expect_err("cycle must be rejected");
    assert!(err.to_string().contains("provider lifecycle order cycle detected"));
    assert_eq!(
        err.to_string(),
        "provider lifecycle order cycle detected: cycle-a, cycle-b"
    );
    let err = registry.lifecycle_names().expect_err("cycle must be rejected");
    assert_eq!(
        err.to_string(),
        "provider lifecycle order cycle detected: cycle-a, cycle-b"
    );
}

struct Reloads;
struct FailsReload;
struct Finalizes;
struct FailsFinalize;

impl Finalizable<TestState> for Finalizes {}
impl Finalizable<TestState> for FailsFinalize {}
impl Reloadable<TestState> for Reloads {}
impl Reloadable<TestState> for FailsReload {}

impl Provider<TestState> for Finalizes {
    fn name(&self) -> &'static str {
        "finalizes"
    }

    fn as_finalizable(&self) -> Option<&dyn Finalizable<TestState>> {
        Some(self)
    }
}

impl Provider<TestState> for FailsFinalize {
    fn name(&self) -> &'static str {
        "fails-finalize"
    }

    fn as_finalizable(&self) -> Option<&dyn Finalizable<TestState>> {
        Some(self)
    }
}

impl Provider<TestState> for Reloads {
    fn name(&self) -> &'static str {
        "reloads"
    }

    fn as_reloadable(&self) -> Option<&dyn Reloadable<TestState>> {
        Some(self)
    }
}

impl Provider<TestState> for FailsReload {
    fn name(&self) -> &'static str {
        "fails-reload"
    }

    fn as_reloadable(&self) -> Option<&dyn Reloadable<TestState>> {
        Some(self)
    }
}

#[test]
fn reload_all_retains_provider_failures_and_continues() {
    let mut registry = Registry::<TestState>::new();
    registry
        .insert(Arc::new(FailsReload), "FailsReload")
        .expect("failing reloader should register")
        .insert(Arc::new(DbProvider), "DbProvider")
        .expect("a provider that does not reload should register")
        .insert(Arc::new(Reloads), "Reloads")
        .expect("successful reloader should register");

    let mut results = vec![Ok(()), Ok(()), Err(Error::msg("reload rejected"))];
    results.reverse();
    let mut turns: Vec<usize> = Vec::new();
    let mut pass = registry.reload_all(Ok(())).expect("broadcast should start");
    let outcome = loop {
        match pass.next() {
            ReloadNext::Done(outcome) => break outcome,
            ReloadNext::Step(step) => {
                let position = step.provider().position;
                turns.push(position);
                let result = std::mem::replace(&mut results[position], Ok(()));
                pass = step.complete(result);
            }
        }
    };

    assert_eq!(turns, vec![0, 2]);
    assert!(!outcome.is_complete());
    assert_eq!(outcome.reloaded_count(), 1);
    assert_eq!(outcome.failed_count(), 1);
    let failure = &outcome.failures()[0];
    assert_eq!(failure.provider(), "fails-reload");
    assert!(matches!(failure.error(), Error::Reload { name: "fails-reload", .. }));
    assert_eq!(failure.error().to_string(), "reload of 'fails-reload' failed: reload rejected");
}

#[test]
fn reload_all_stops_where_the_state_fails_to_reload() {
    let mut registry = Registry::<TestState>::new();
    registry.insert(Arc::new(Reloads), "Reloads").expect("reloader should register");
    let error = match registry.reload_all(Err(Error::msg("no configuration"))) {
        Err(error) => error,
        Ok(_) => panic!("the state has failed"),
    };
    assert!(matches!(error, Error::Other(_)));
    assert_eq!(error.to_string(), "no configuration");
}

#[test]
fn finalize_all_retains_provider_failures_and_continues() {
    let mut registry = Registry::<TestState>::new();
    registry
        .insert(Arc::new(Finalizes), "Finalizes")
        .expect("successful finalizer should register")
        .insert(Arc::new(DbProvider), "DbProvider")
        .expect("a provider that does not finalize should register")
        .insert(Arc::new(FailsFinalize), "FailsFinalize")
        .expect("failing finalizer should register");

    let mut turns: Vec<usize> = Vec::new();
    let mut pass = registry.finalize_all().expect("finalization should start");
    let outcome = loop {
        match pass.next() {
            FinalizeNext::Done(outcome) => break outcome,
            FinalizeNext::Step(step) => {
                let position = step.provider().position;
                turns.push(position);
                let result = if position == 2 {
                    Err(Error::msg("finalize rejected"))
                } else {
                    Ok(())
                };
                pass = step.complete(result);
            }
        }
    };

    assert_eq!(turns, vec![2, 0]);
    assert!(!outcome.is_complete());
    assert_eq!(outcome.finalized_count(), 1);
    assert_eq!(outcome.failed_count(), 1);
    let failure = &outcome.failures()[0];
    assert_eq!(failure.provider(), "fails-finalize");
    assert!(matches!(failure.error(), Error::Finalize { name: "fails-finalize", .. }));
    assert_eq!(
        failure.error().to_string(),
        "finalize of 'fails-finalize' failed: finalize rejected"
    );
}

#[test]
fn boot_stops_at_the_first_failure() {
    let mut registry = Registry::<TestState>::new();
    registry
        .insert(Arc::new(DbProvider), "DbProvider")
        .expect("database registration should succeed")
        .insert(Arc::new(CacheProvider), "CacheProvider")
        .expect("cache registration should succeed");
    let pass = registry.boot_all().expect("plan should build");
    let step = match pass.next() {
        BootNext::Step(step) => step,
        BootNext::Done => panic!("two providers are to boot"),
    };
    assert_eq!(step.provider().provider.name(), "db");
    let error = match step.complete(Err(Error::msg("no route"))) {
        Err(error) => error,
        Ok(_) => panic!("a failure ends the pass"),
    };
    assert!(matches!(error, Error::Boot { name: "db", .. }));
    assert_eq!(error.to_string(), "provider 'db' failed during boot: no route");

    // An error that names its stage already is left as it is.
    let pass = registry.boot_all().expect("plan should build");
    if let BootNext::Step(step) = pass.next() {
        let typed = Error::Run { name: "other", source: Failure::new("late".to_owned()) };
        let error = step.complete(Err(typed)).err().expect("a failure ends the pass");
        assert!(matches!(error, Error::Run { name: "other", .. }));
    }
}

#[test]
fn one_provider_is_reloaded_by_name() {
    let mut registry = Registry::<TestState>::new();
    registry
        .insert(Arc::new(DbProvider), "DbProvider")
        .expect("registration should succeed")
        .insert(Arc::new(Reloads), "Reloads")
        .expect("registration should succeed");
    let target = registry.reload_one("reloads").ok().expect("it reloads");
    assert_eq!(target.provider().position, 1);
    assert!(target.complete(Ok(())).is_ok());
    let target = registry.reload_one("reloads").ok().expect("it reloads");
    let error = target.complete(Err(Error::msg("bad file"))).expect_err("it has failed");
    assert_eq!(error.to_string(), "reload of 'reloads' failed: bad file");
    assert_eq!(
        registry.reload_one("db").err().expect("it does not reload").to_string(),
        "reload_by_name: provider 'db' is not reloadable"
    );
    assert_eq!(
        registry.reload_one("nobody").err().expect("there is none").to_string(),
        "reload_by_name: no provider registered with name 'nobody'"
    );
}

#[test]
fn registered_instances_are_found_by_type() {
    let mut registry = Registry::<TestState>::default();
    assert!(registry.resolve::<DbProvider>().is_none());
    assert!(registry.with_typed::<DbProvider, u8>(|_| 1).is_none());
    let db = Arc::new(DbProvider);
    let api = Arc::new(ApiProvider);
    registry
        .insert(api.clone(), "ApiProvider")
        .expect("registration should succeed")
        .insert(db.clone(), "DbProvider")
        .expect("registration should succeed");
    assert!(Arc::ptr_eq(&registry.resolve::<DbProvider>().expect("registered"), &db));
    assert!(Arc::ptr_eq(&registry.resolve::<ApiProvider>().expect("registered"), &api));
    assert!(registry.resolve::<CacheProvider>().is_none());
    assert_eq!(registry.with_typed::<DbProvider, &'static str>(|db| db.name()), Some("db"));
    assert_eq!(registry.list_names(), vec!["api", "db"]);
    let providers = registry.providers();
    assert_eq!(providers.len(), 2);
    assert_eq!(providers[0].name(), "api");
    assert_eq!(providers[1].name(), "db");
}

struct Ranked<const N: usize> {
    name: &'static str,
    boot: Option<u8>,
    reload: Option<Option<u8>>,
}

impl<const N: usize> Reloadable<TestState> for Ranked<N> {
    fn priority(&self) -> Option<u8> {
        self.reload.flatten()
    }
}

impl<const N: usize> Provider<TestState> for Ranked<N> {
    fn name(&self) -> &'static str {
        self.name
    }

    fn boot_priority(&self) -> Option<u8> {
        self.boot
    }

    fn as_reloadable(&self) -> Option<&dyn Reloadable<TestState>> {
        if self.reload.is_some() {
            Some(self)
        } else {
            None
        }
    }
}

#[test]
fn priorities_order_what_is_ready() {
    let mut registry = Registry::<TestState>::new();
    registry
        .insert(Arc::new(Ranked::<0> { name: "plain", boot: None, reload: None }), "0")
        .expect("registration")
        .insert(Arc::new(Ranked::<1> { name: "last", boot: Some(255), reload: Some(Some(0)) }), "1")
        .expect("registration")
        .insert(Arc::new(Ranked::<2> { name: "reloads", boot: None, reload: Some(Some(50)) }), "2")
        .expect("registration")
        .insert(Arc::new(Ranked::<3> { name: "normal", boot: Some(100), reload: None }), "3")
        .expect("registration")
        .insert(Arc::new(Ranked::<4> { name: "unranked", boot: None, reload: Some(None) }), "4")
        .expect("registration")
        .insert(Arc::new(Ranked::<5> { name: "first", boot: Some(0), reload: None }), "5")
        .expect("registration");
    assert_eq!(
        registry.lifecycle_names().expect("plan should build"),
        vec!["first", "reloads", "plain", "normal", "unranked", "last"]
    );
}

#[test]
fn the_plan_is_kept_until_the_next_registration() {
    struct Moody(Mutex<u8>);
    impl Provider<TestState> for Moody {
        fn name(&self) -> &'static str {
            "moody"
        }

        fn boot_priority(&self) -> Option<u8> {
            Some(*self.0.lock().expect("lock"))
        }
    }
    let mut registry = Registry::<TestState>::new();
    let moody = Arc::new(Moody(Mutex::new(0)));
    registry
        .insert(Arc::new(DbProvider), "DbProvider")
        .expect("registration")
        .insert(moody.clone(), "Moody")
        .expect("registration");
    assert_eq!(registry.lifecycle_names().expect("plan"), vec!["moody", "db"]);
    *moody.0.lock().expect("lock") = 200;
    assert_eq!(registry.lifecycle_names().expect("plan"), vec!["moody", "db"]);
    registry.insert(Arc::new(CacheProvider), "CacheProvider").expect("registration");
    assert_eq!(registry.lifecycle_names().expect("plan"), vec!["db", "cache", "moody"]);
    // A refused registration leaves the plan alone.
    *moody.0.lock().expect("lock") = 0;
    assert!(registry.insert(Arc::new(DbProvider), "DbProvider").is_err());
    assert_eq!(registry.lifecycle_names().expect("plan"), vec!["db", "cache", "moody"]);
}

#[test]
fn both_lists_have_the_same_names() {
    let mut registry = Registry::<TestState>::new();
    registry
        .insert(Arc::new(ApiProvider), "ApiProvider")
        .expect("registration")
        .insert(Arc::new(Ranked::<0> { name: "db", boot: Some(0), reload: None }), "Ranked")
        .expect("registration")
        .insert(Arc::new(CacheProvider), "CacheProvider")
        .expect("registration")
        .insert(Arc::new(DbProvider), "DbProvider")
        .expect("registration");
    let mut listed = registry.list_names();
    assert_eq!(listed, vec!["api", "db", "cache", "db"]);
    let mut lifecycle = registry.lifecycle_names().expect("plan");
    assert_eq!(lifecycle, vec!["db", "db", "cache", "api"]);
    listed.sort();
    lifecycle.sort();
    assert_eq!(listed, lifecycle);

    let mut knotted = Registry::<TestState>::new();
    knotted
        .insert(Arc::new(CycleA), "CycleA")
        .expect("registration")
        .insert(Arc::new(CycleB), "CycleB")
        .expect("registration");
    assert!(knotted.lifecycle_names().is_err());
    assert_eq!(knotted.list_names(), vec!["cycle-a", "cycle-b"]);
}

#[test]
fn phases_can_run_on_a_snapshot() {
    let state = TestState::default();
    let mut registry = Registry::<TestState>::new();
    let moody = Arc::new(Ranked::<0> { name: "ranked", boot: Some(0), reload: None });
    registry
        .insert(Arc::new(DbProvider), "DbProvider")
        .expect("registration")
        .insert(moody.clone(), "Ranked")
        .expect("registration")
        .bind_dyn::<dyn LogSink, DbProvider>(|_| Arc::new(ConsoleLogger), "DbProvider")
        .expect("binding");

    let mut copy = registry.snapshot();
    assert!(Arc::ptr_eq(&copy.resolve::<Ranked<0>>().expect("registered"), &moody));
    assert!(copy.resolve_dyn::<dyn LogSink>().is_none());
    assert!(registry.resolve_dyn::<dyn LogSink>().is_some());
    assert_eq!(copy.lifecycle_names().expect("plan"), vec!["ranked", "db"]);
    assert_eq!(copy.validate_all(&state).expect("validation").validated_count(), 2);
    registry.keep_order(&copy);
    assert_eq!(registry.lifecycle_names().expect("plan"), vec!["ranked", "db"]);

    // What is registered in the meantime makes the order void.
    registry.insert(Arc::new(CacheProvider), "CacheProvider").expect("registration");
    registry.keep_order(&copy);
    assert_eq!(registry.lifecycle_names().expect("plan"), vec!["ranked", "db", "cache"]);
}

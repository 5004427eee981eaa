//! What a service offers the registry, and what the registry asks of it.
//!
//! The traits are implemented by applications, so nothing is known beforehand of
//! what their methods return. The `gives_*` predicates say that a value is one
//! that such a call can return, and contracts elsewhere are stated over them.
use std::any::TypeId;
use std::sync::Arc;

use vstd::prelude::*;

use super::error::Error;
use super::order::ProviderOrder;
use super::priority;
use crate::service::ServiceStartPolicy;

verus! {

/// Any service that can be registered.
///
/// # Lifecycle convention
///
/// 1. **Registration**: synchronous, called once during bootstrap. Constructs the
///    provider in an empty state and inserts it into the registry.
/// 2. **Boot**: asynchronous, after every registration, in lifecycle order. The
///    provider becomes usable.
/// 3. **[`validate`](Provider::validate)**: a synchronous readiness check after boot
///    and before runnable tasks start.
/// 4. **Run**: the only place for long-lived loops; see [`Runnable`].
/// 5. **Finalize**: best-effort release of resources after the runnable tasks have
///    drained; see [`Finalizable`].
///
/// The asynchronous phases are performed by whoever drives the passes of the
/// registry; what a provider says of itself here decides who takes part and when.
pub trait Provider<S>: Send + Sync + 'static {
    /// Human-readable label for logs and diagnostics.
    fn name(&self) -> (name: &'static str)
        default_ensures
            name@ == "provider"@,
    {
        "provider"
    }

    /// Optional boot priority. Lower values run earlier among otherwise-ready
    /// providers. `None` means [`priority::NORMAL`]. Prefer [`Provider::order`]
    /// for dependency relationships; priority is only a coarse tie-breaker.
    fn boot_priority(&self) -> (priority: Option<u8>)
        default_ensures
            priority is None,
    {
        None
    }

    /// Optional runtime task start priority. Lower values run earlier.
    /// `None` means [`priority::NORMAL`].
    fn run_priority(&self) -> (priority: Option<u8>)
        default_ensures
            priority is None,
    {
        None
    }

    /// Optional type-based ordering hints.
    ///
    /// The registry builds one ordered lifecycle plan and uses it for boot,
    /// validate, finalize, and reload.
    fn order(&self) -> (order: ProviderOrder)
        default_ensures
            order.comes_before() == Seq::<TypeId>::empty(),
            order.comes_after() == Seq::<TypeId>::empty(),
    {
        ProviderOrder::default()
    }

    /// Synchronous readiness validation after boot and before runnable tasks are
    /// spawned.
    fn validate(&self, _state: &S) -> (result: Result<(), Error>)
        default_ensures
            result is Ok,
    {
        Ok(())
    }

    /// Optional capability hook.
    fn as_reloadable(&self) -> (capability: Option<&dyn Reloadable<S>>)
        default_ensures
            capability is None,
    {
        None
    }

    /// Optional capability hook.
    fn as_finalizable(&self) -> (capability: Option<&dyn Finalizable<S>>)
        default_ensures
            capability is None,
    {
        None
    }

    /// Optional capability hook.
    fn as_runnable(self: Arc<Self>) -> (capability: Option<Arc<dyn Runnable<S>>>)
        default_ensures
            capability is None,
    {
        None
    }
}

/// Anything that can hot-reload itself when its configuration changes.
///
/// A reload must not change which providers are registered; it only refreshes the
/// state of an already-registered provider.
pub trait Reloadable<S>: Send + Sync + 'static {
    /// Optional reload priority.
    ///
    /// Lower values run earlier among otherwise-ready providers. `None` means
    /// [`priority::NORMAL`]. Prefer [`Provider::order`] for real dependency
    /// relationships.
    fn priority(&self) -> (priority: Option<u8>)
        default_ensures
            priority is None,
    {
        None
    }
}

/// Capability of providers that produce a long-running runtime task.
pub trait Runnable<S>: Send + Sync + 'static {
    /// Whether a generation of this service is started with the runtime, on request
    /// only, or not at all. The runtime asks again for every observation and every
    /// explicit start, so a reload of the provider can change the answer.
    fn start_policy(&self, _state: &S) -> (policy: ServiceStartPolicy)
        default_ensures
            policy == ServiceStartPolicy::Automatic,
    {
        ServiceStartPolicy::Automatic
    }
}

/// Capability of providers that must release non-running resources at the end of
/// the process lifecycle, after the runnable tasks have drained.
pub trait Finalizable<S>: Send + Sync + 'static {

}

/// A state that can reload itself, before the providers reload theirs.
pub trait ReloadState: Send + Sync + Sized + 'static {

}

/// A shared instance behind one pointer.
pub struct Handle<T: ?Sized> {
    pub instance: Arc<T>,
}

/// Wraps a shared instance.
pub fn hold<T: ?Sized>(instance: Arc<T>) -> (handle: Handle<T>)
    ensures
        handle.instance == instance,
{
    Handle { instance }
}

impl<T: ?Sized> Handle<T> {
    /// Another handle of the same instance.
    pub fn share(&self) -> (handle: Self)
        ensures
            handle == *self,
    {
        Handle { instance: self.instance.clone() }
    }
}

/// A registered provider whose concrete type has been forgotten.
pub type ProviderHandle<S> = Handle<dyn Provider<S>>;

/// The runnable capability of a registered provider.
pub type RunnableHandle<S> = Handle<dyn Runnable<S>>;

/// `name` is a label that the provider can give.
pub open spec fn gives_name<S, P: Provider<S> + ?Sized>(provider: &P, name: &'static str) -> bool {
    call_ensures(<P as Provider<S>>::name, (provider,), name)
}

/// `priority` is a boot priority that the provider can give.
pub open spec fn gives_boot_priority<S, P: Provider<S> + ?Sized>(
    provider: &P,
    priority: Option<u8>,
) -> bool {
    call_ensures(<P as Provider<S>>::boot_priority, (provider,), priority)
}

/// `priority` is a start priority that the provider can give.
pub open spec fn gives_run_priority<S, P: Provider<S> + ?Sized>(
    provider: &P,
    priority: Option<u8>,
) -> bool {
    call_ensures(<P as Provider<S>>::run_priority, (provider,), priority)
}

/// `order` is a set of hints that the provider can give.
pub open spec fn gives_order<S, P: Provider<S> + ?Sized>(provider: &P, order: ProviderOrder) -> bool {
    call_ensures(<P as Provider<S>>::order, (provider,), order)
}

/// `result` is a verdict that the provider can reach on `state`.
pub open spec fn gives_verdict<S, P: Provider<S> + ?Sized>(
    provider: &P,
    state: &S,
    result: Result<(), Error>,
) -> bool {
    call_ensures(<P as Provider<S>>::validate, (provider, state), result)
}

/// The provider can show `capability` as its reload capability.
pub open spec fn gives_reloadable<S, P: Provider<S> + ?Sized>(
    provider: &P,
    capability: Option<&dyn Reloadable<S>>,
) -> bool {
    call_ensures(<P as Provider<S>>::as_reloadable, (provider,), capability)
}

/// `capability` is `Some` of a finalize capability, or `None`, as the provider can answer.
pub open spec fn gives_finalizable<S, P: Provider<S> + ?Sized>(
    provider: &P,
    capability: Option<&dyn Finalizable<S>>,
) -> bool {
    call_ensures(<P as Provider<S>>::as_finalizable, (provider,), capability)
}

/// The provider can show `capability` as its run capability.
pub open spec fn gives_runnable<S, P: Provider<S> + ?Sized>(
    provider: Handle<P>,
    capability: Option<Arc<dyn Runnable<S>>>,
) -> bool {
    call_ensures(<P as Provider<S>>::as_runnable, (provider.instance,), capability)
}

/// `priority` is a reload priority that the capability can give.
pub open spec fn gives_reload_priority<S, R: Reloadable<S> + ?Sized>(
    reloadable: &R,
    priority: Option<u8>,
) -> bool {
    call_ensures(<R as Reloadable<S>>::priority, (reloadable,), priority)
}

/// `policy` is a start policy that the capability can give for `state`.
pub open spec fn gives_start_policy<S, R: Runnable<S> + ?Sized>(
    runnable: &R,
    state: &S,
    policy: ServiceStartPolicy,
) -> bool {
    call_ensures(<R as Runnable<S>>::start_policy, (runnable, state), policy)
}

fn ask_name<S, P: Provider<S> + ?Sized>(provider: &P) -> (name: &'static str)
    ensures
        gives_name::<S, P>(provider, name),
{
    provider.name()
}

fn ask_boot_priority<S, P: Provider<S> + ?Sized>(provider: &P) -> (priority: Option<u8>)
    ensures
        gives_boot_priority::<S, P>(provider, priority),
{
    provider.boot_priority()
}

fn ask_run_priority<S, P: Provider<S> + ?Sized>(provider: &P) -> (priority: Option<u8>)
    ensures
        gives_run_priority::<S, P>(provider, priority),
{
    provider.run_priority()
}

fn ask_order<S, P: Provider<S> + ?Sized>(provider: &P) -> (order: ProviderOrder)
    ensures
        gives_order::<S, P>(provider, order),
{
    provider.order()
}

fn ask_verdict<S, P: Provider<S> + ?Sized>(provider: &P, state: &S) -> (result: Result<(), Error>)
    ensures
        gives_verdict::<S, P>(provider, state, result),
{
    provider.validate(state)
}

fn ask_reloadable<'a, S, P: Provider<S> + ?Sized>(provider: &'a P) -> (capability: Option<
    &'a dyn Reloadable<S>,
>)
    ensures
        gives_reloadable::<S, P>(provider, capability),
{
    provider.as_reloadable()
}

fn ask_finalizable<'a, S, P: Provider<S> + ?Sized>(provider: &'a P) -> (capability: Option<
    &'a dyn Finalizable<S>,
>)
    ensures
        gives_finalizable::<S, P>(provider, capability),
{
    provider.as_finalizable()
}

fn ask_runnable<S, P: Provider<S> + ?Sized>(provider: Handle<P>) -> (capability: Option<
    Arc<dyn Runnable<S>>,
>)
    ensures
        gives_runnable::<S, P>(provider, capability),
{
    provider.instance.as_runnable()
}

fn ask_reload_priority<S, R: Reloadable<S> + ?Sized>(reloadable: &R) -> (priority: Option<u8>)
    ensures
        gives_reload_priority::<S, R>(reloadable, priority),
{
    reloadable.priority()
}

fn ask_start_policy<S, R: Runnable<S> + ?Sized>(runnable: &R, state: &S) -> (policy:
    ServiceStartPolicy)
    ensures
        gives_start_policy::<S, R>(runnable, state, policy),
{
    runnable.start_policy(state)
}

/// Turns a clone of an `Arc<P>` into an `Arc<dyn Provider<S>>` of the same
/// allocation, by the unsizing coercion of `Arc`. The claim is that a call through
/// the trait object reaches the method of `P`.
#[verifier::external_body]
pub(crate) fn as_provider<S: 'static, P: Provider<S>>(item: &Arc<P>) -> (handle: ProviderHandle<S>)
    ensures
        handle.stands_for(*item),
{
    Handle { instance: item.clone() }
}

impl<S: 'static> Handle<dyn Provider<S>> {
    /// `name` is a label that this provider can give.
    pub open spec fn names(&self, name: &'static str) -> bool {
        gives_name::<S, dyn Provider<S>>(&*self.instance, name)
    }

    /// `priority` is a boot priority that this provider can give.
    pub open spec fn boots_at(&self, priority: Option<u8>) -> bool {
        gives_boot_priority::<S, dyn Provider<S>>(&*self.instance, priority)
    }

    /// `priority` is a start priority that this provider can give.
    pub open spec fn runs_at(&self, priority: Option<u8>) -> bool {
        gives_run_priority::<S, dyn Provider<S>>(&*self.instance, priority)
    }

    /// `order` is a set of hints that this provider can give.
    pub open spec fn orders(&self, order: ProviderOrder) -> bool {
        gives_order::<S, dyn Provider<S>>(&*self.instance, order)
    }

    /// `result` is a verdict that this provider can reach on `state`.
    pub open spec fn decides(&self, state: &S, result: Result<(), Error>) -> bool {
        gives_verdict::<S, dyn Provider<S>>(&*self.instance, state, result)
    }

    /// This provider can show `capability` as its reload capability.
    pub open spec fn reloads(&self, capability: Option<&dyn Reloadable<S>>) -> bool {
        gives_reloadable::<S, dyn Provider<S>>(&*self.instance, capability)
    }

    /// This provider can show `capability` as its finalize capability.
    pub open spec fn finalizes(&self, capability: Option<&dyn Finalizable<S>>) -> bool {
        gives_finalizable::<S, dyn Provider<S>>(&*self.instance, capability)
    }

    /// This provider can show `capability` as its run capability.
    pub open spec fn shows_runnable(&self, capability: Option<Arc<dyn Runnable<S>>>) -> bool {
        gives_runnable::<S, dyn Provider<S>>(*self, capability)
    }

    /// A call through this handle is a call of the same method of `item`.
    pub open spec fn stands_for<P: Provider<S>>(&self, item: Arc<P>) -> bool {
        &&& forall|name: &'static str|
            self.names(name) <==> #[trigger] gives_name::<S, P>(&*item, name)
        &&& forall|priority: Option<u8>|
            self.boots_at(priority) <==> #[trigger] gives_boot_priority::<S, P>(&*item, priority)
        &&& forall|priority: Option<u8>|
            self.runs_at(priority) <==> #[trigger] gives_run_priority::<S, P>(&*item, priority)
        &&& forall|order: ProviderOrder|
            self.orders(order) <==> #[trigger] gives_order::<S, P>(&*item, order)
        &&& forall|state: &S, result: Result<(), Error>|
            self.decides(state, result) <==> #[trigger] gives_verdict::<S, P>(
                &*item,
                state,
                result,
            )
        &&& forall|capability: Option<&dyn Reloadable<S>>|
            self.reloads(capability) <==> #[trigger] gives_reloadable::<S, P>(&*item, capability)
        &&& forall|capability: Option<&dyn Finalizable<S>>|
            self.finalizes(capability) <==> #[trigger] gives_finalizable::<S, P>(
                &*item,
                capability,
            )
        &&& forall|capability: Option<Arc<dyn Runnable<S>>>|
            self.shows_runnable(capability) <==> #[trigger] gives_runnable::<S, P>(
                Handle { instance: item },
                capability,
            )
    }

    pub fn name(&self) -> (name: &'static str)
        ensures
            self.names(name),
    {
        ask_name::<S, dyn Provider<S>>(&*self.instance)
    }

    pub fn order(&self) -> (order: ProviderOrder)
        ensures
            self.orders(order),
    {
        ask_order::<S, dyn Provider<S>>(&*self.instance)
    }

    pub fn validate(&self, state: &S) -> (result: Result<(), Error>)
        ensures
            self.decides(state, result),
    {
        ask_verdict::<S, dyn Provider<S>>(&*self.instance, state)
    }

    /// The provider can answer `yes` when asked whether it is reloadable.
    pub open spec fn answers_reloadable(&self, yes: bool) -> bool {
        exists|capability: Option<&dyn Reloadable<S>>| #[trigger]
            self.reloads(capability) && yes == (capability is Some)
    }

    /// Whether the provider shows the reload capability now.
    pub fn is_reloadable(&self) -> (yes: bool)
        ensures
            self.answers_reloadable(yes),
    {
        let capability = ask_reloadable::<S, dyn Provider<S>>(&*self.instance);
        assert(self.reloads(capability));
        capability.is_some()
    }

    /// The provider can answer `yes` when asked whether it is finalizable.
    pub open spec fn answers_finalizable(&self, yes: bool) -> bool {
        exists|capability: Option<&dyn Finalizable<S>>| #[trigger]
            self.finalizes(capability) && yes == (capability is Some)
    }

    /// Whether the provider shows the finalize capability now.
    pub fn is_finalizable(&self) -> (yes: bool)
        ensures
            self.answers_finalizable(yes),
    {
        let capability = ask_finalizable::<S, dyn Provider<S>>(&*self.instance);
        assert(self.finalizes(capability));
        capability.is_some()
    }

    /// The provider can answer with `runnable` when asked for its run capability.
    pub open spec fn answers_runnable(&self, runnable: Option<RunnableHandle<S>>) -> bool {
        exists|capability: Option<Arc<dyn Runnable<S>>>| #[trigger]
            self.shows_runnable(capability) && match (capability, runnable) {
                (Some(shown), Some(held)) => held.instance == shown,
                (None, None) => true,
                _ => false,
            }
    }

    /// The run capability that the provider shows now.
    pub fn as_runnable(&self) -> (runnable: Option<RunnableHandle<S>>)
        ensures
            self.answers_runnable(runnable),
    {
        let capability = ask_runnable::<S, dyn Provider<S>>(self.share());
        assert(self.shows_runnable(capability));
        match capability {
            Some(shown) => {
                let held = hold(shown);
                Some(held)
            },
            None => None,
        }
    }

    /// `priority` is a start priority that follows from an answer of the provider.
    pub open spec fn starts_at(&self, priority: u8) -> bool {
        exists|given: Option<u8>| #[trigger]
            self.runs_at(given) && priority == or_normal(given)
    }

    /// The start priority, with the normal one where the provider gives none.
    pub fn run_priority(&self) -> (priority: u8)
        ensures
            self.starts_at(priority),
    {
        let given = ask_run_priority::<S, dyn Provider<S>>(&*self.instance);
        assert(self.runs_at(given));
        given.unwrap_or(priority::NORMAL)
    }

    /// `value` is a lifecycle priority that follows from answers of the provider.
    pub open spec fn has_lifecycle_priority(&self, value: u8) -> bool {
        exists|boot: Option<u8>| #[trigger]
            self.boots_at(boot) && match boot {
                Some(_) => value == lifecycle_priority_from(boot, None),
                None => exists|reload: Option<u8>| #[trigger]
                    self.has_reload_priority(reload) && value == lifecycle_priority_from(
                        boot,
                        reload,
                    ),
            }
    }

    /// `priority` is a reload priority that the provider can give through its reload
    /// capability; it is `None` where the provider shows no such capability.
    pub open spec fn has_reload_priority(&self, priority: Option<u8>) -> bool {
        exists|capability: Option<&dyn Reloadable<S>>| #[trigger]
            self.reloads(capability) && match capability {
                Some(reloadable) => gives_reload_priority::<S, dyn Reloadable<S>>(
                    reloadable,
                    priority,
                ),
                None => priority is None,
            }
    }

    /// The priority of the provider in the lifecycle plan.
    pub fn lifecycle_priority(&self) -> (value: u8)
        ensures
            self.has_lifecycle_priority(value),
    {
        let boot = ask_boot_priority::<S, dyn Provider<S>>(&*self.instance);
        let mut reload: Option<u8> = None;
        if boot.is_none() {
            let capability = ask_reloadable::<S, dyn Provider<S>>(&*self.instance);
            assert(self.reloads(capability));
            if let Some(reloadable) = capability {
                reload = ask_reload_priority::<S, dyn Reloadable<S>>(reloadable);
            }
            assert(self.has_reload_priority(reload));
        }
        assert(self.boots_at(boot));
        lifecycle_priority(boot, reload)
    }
}

impl<S: 'static> Handle<dyn Runnable<S>> {
    /// `policy` is a start policy that this service can give for `state`.
    pub open spec fn starts(&self, state: &S, policy: ServiceStartPolicy) -> bool {
        gives_start_policy::<S, dyn Runnable<S>>(&*self.instance, state, policy)
    }

    /// The start policy of the service for `state`, as it is now.
    pub fn start_policy(&self, state: &S) -> (policy: ServiceStartPolicy)
        ensures
            self.starts(state, policy),
    {
        ask_start_policy::<S, dyn Runnable<S>>(&*self.instance, state)
    }
}

/// A priority that was given, or else the normal one.
pub open spec fn or_normal(given: Option<u8>) -> u8 {
    match given {
        Some(priority) => priority,
        None => priority::NORMAL,
    }
}

/// The lifecycle priority: the boot priority, or else the reload priority, or else the normal one.
pub open spec fn lifecycle_priority_from(boot: Option<u8>, reload: Option<u8>) -> u8 {
    match boot {
        Some(priority) => priority,
        None => or_normal(reload),
    }
}

/// The lifecycle priority that follows from a boot priority and a reload priority.
pub fn lifecycle_priority(boot: Option<u8>, reload: Option<u8>) -> (value: u8)
    ensures
        value == lifecycle_priority_from(boot, reload),
{
    match boot {
        Some(priority) => priority,
        None => reload.unwrap_or(priority::NORMAL),
    }
}

/// A provider that gives no start priority is ranked exactly as one that gives 100, and one
/// that gives a start priority is ranked by it.
pub proof fn law_no_start_priority_is_the_normal_one<S: 'static>(provider: ProviderHandle<S>)
    ensures
        provider.runs_at(None) ==> provider.starts_at(100),
        forall|value: u8| provider.runs_at(Some(value)) ==> #[trigger] provider.starts_at(value),
        forall|rank: u8| #[trigger]
            provider.starts_at(rank) ==> provider.runs_at(Some(rank)) || (rank == 100
                && provider.runs_at(None)),
        (forall|given: Option<u8>| #[trigger] provider.runs_at(given) ==> given is None) ==> forall|
            rank: u8,
        | #[trigger] provider.starts_at(rank) ==> rank == 100,
{
    assert forall|rank: u8| #[trigger] provider.starts_at(rank) implies provider.runs_at(Some(rank))
        || (rank == 100 && provider.runs_at(None)) by {
        let given = choose|given: Option<u8>| #[trigger]
            provider.runs_at(given) && rank == or_normal(given);
        assert(given is Some || given == None::<u8>);
    }
}

/// The rank of a provider in the lifecycle: its boot priority where it gives one, else the
/// priority of its reload capability where that gives one, else 100. A boot priority is never
/// outweighed by a reload priority.
pub proof fn law_boot_priority_outweighs_reload_priority<S: 'static>(
    provider: ProviderHandle<S>,
    rank: u8,
)
    requires
        provider.has_lifecycle_priority(rank),
    ensures
        provider.boots_at(Some(rank)) || provider.boots_at(None),
        !provider.boots_at(None) ==> provider.boots_at(Some(rank)),
        !provider.boots_at(Some(rank)) ==> provider.has_reload_priority(Some(rank)) || (rank == 100
            && provider.has_reload_priority(None)),
{
    let boot = choose|boot: Option<u8>| #[trigger]
        provider.boots_at(boot) && match boot {
            Some(_) => rank == lifecycle_priority_from(boot, None),
            None => exists|reload: Option<u8>| #[trigger]
                provider.has_reload_priority(reload) && rank == lifecycle_priority_from(
                    boot,
                    reload,
                ),
        };
    if boot is None {
        let reload = choose|reload: Option<u8>| #[trigger]
            provider.has_reload_priority(reload) && rank == lifecycle_priority_from(boot, reload);
        assert(boot == None::<u8>);
        assert(reload is Some || reload == None::<u8>);
    } else {
        assert(boot == Some(rank));
    }
}

/// A provider without a reload capability gives no reload priority.
pub proof fn law_reload_priority_takes_the_capability<S: 'static>(
    provider: ProviderHandle<S>,
    priority: Option<u8>,
)
    requires
        provider.has_reload_priority(priority),
        !provider.answers_reloadable(true),
    ensures
        priority is None,
{
    let capability = choose|capability: Option<&dyn Reloadable<S>>| #[trigger]
        provider.reloads(capability) && match capability {
            Some(reloadable) => gives_reload_priority::<S, dyn Reloadable<S>>(reloadable, priority),
            None => priority is None,
        };
    assert(capability is Some ==> provider.answers_reloadable(true));
}

/// How the lifecycle priority follows from the two priorities, for every pair of them.
pub proof fn law_lifecycle_priority(boot: Option<u8>, reload: Option<u8>, value: u8)
    requires
        call_ensures(lifecycle_priority, (boot, reload), value),
    ensures
        boot matches Some(given) ==> value == given,
        boot is None ==> (reload matches Some(given) ==> value == given),
        boot is None && reload is None ==> value == 100,
{
}

/// A capability is there exactly where the provider shows one: asked whether it can reload or
/// finalize, it can answer yes if it can show the capability, and no if it can show none; and
/// what it is run by is what it shows.
pub proof fn law_capability_is_what_is_shown<S: 'static>(
    provider: ProviderHandle<S>,
    held: RunnableHandle<S>,
)
    ensures
        provider.answers_reloadable(true) <==> exists|
            capability: Option<&dyn Reloadable<S>>,
        | #[trigger] provider.reloads(capability) && capability is Some,
        provider.answers_reloadable(false) <==> provider.reloads(None),
        provider.answers_finalizable(true) <==> exists|
            capability: Option<&dyn Finalizable<S>>,
        | #[trigger] provider.finalizes(capability) && capability is Some,
        provider.answers_finalizable(false) <==> provider.finalizes(None),
        provider.answers_runnable(Some(held)) <==> exists|
            capability: Option<Arc<dyn Runnable<S>>>,
        | #[trigger]
            provider.shows_runnable(capability) && (capability matches Some(shown)
                && held.instance == shown),
        provider.answers_runnable(None) <==> provider.shows_runnable(None),
{
}

/// Each question reaches the method of the provider that it is named after.
pub proof fn law_questions_reach_the_provider<S, P: Provider<S>>(
    provider: &P,
    state: &S,
    name: &'static str,
    priority: Option<u8>,
    order: ProviderOrder,
    result: Result<(), Error>,
)
    ensures
        gives_name::<S, P>(provider, name) <==> call_ensures(
            <P as Provider<S>>::name,
            (provider,),
            name,
        ),
        gives_boot_priority::<S, P>(provider, priority) <==> call_ensures(
            <P as Provider<S>>::boot_priority,
            (provider,),
            priority,
        ),
        gives_run_priority::<S, P>(provider, priority) <==> call_ensures(
            <P as Provider<S>>::run_priority,
            (provider,),
            priority,
        ),
        gives_order::<S, P>(provider, order) <==> call_ensures(
            <P as Provider<S>>::order,
            (provider,),
            order,
        ),
        gives_verdict::<S, P>(provider, state, result) <==> call_ensures(
            <P as Provider<S>>::validate,
            (provider, state),
            result,
        ),
{
}

} // verus!

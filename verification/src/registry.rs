//! A registry of services found by their concrete type.
//!
//! Providers are registered once, resolved as typed handles, optionally bound as
//! trait-object capabilities, and taken through their lifecycle in one
//! deterministic order.
pub mod error;
pub mod order;
pub mod outcome;
pub mod pass;
pub mod plan;
pub mod priority;
pub mod provider;
pub mod run;

use std::any::TypeId;
use std::sync::Arc;

use vstd::prelude::*;
#[allow(unused_imports)]
use vstd::string::*;

pub use self::error::{Error, Failure};
pub use self::order::ProviderOrder;
pub use self::outcome::{
    FinalizeFailure, FinalizeOutcome, ReloadFailure, ReloadOutcome, ValidationFailure,
    ValidationOutcome,
};
pub use self::provider::{Finalizable, Provider, ReloadState, Reloadable, Runnable};

#[allow(unused_imports)]
use self::outcome::{
    law_pass_accounts_for_all, law_pass_counts_each_once, law_summary_goes_on, PassSummary, Stage,
};
#[allow(unused_imports)]
use self::provider::law_no_start_priority_is_the_normal_one;
use self::plan::{order_provider_entries, PlanEntry};
#[allow(unused_imports)]
use self::plan::{
    cycle_message, is_lifecycle_order, is_orderable, law_every_hint_counts,
    law_only_a_hint_overtakes, law_order_is_a_permutation, law_order_respects_dependencies,
    must_precede,
};
use self::provider::{as_provider, ProviderHandle, RunnableHandle};
use crate::erasure::{
    downcast_boxed, downcast_shared, erase_boxed, erase_shared, key_of, same_key, BoxedAny,
    SharedAny,
};
#[allow(unused_imports)]
use crate::erasure::{
    boxed_type, boxes, lemma_erased_is_boxed, lemma_erased_is_shared, shared_type, shares,
    type_key,
};
#[allow(unused_imports)]
use crate::pairs::{has_distinct_keys, lemma_put, lookup};
#[allow(unused_imports)]
use crate::permutation::{
    is_permutation, lemma_permutation_is_complete, lemma_rearranged_has_the_same_items, rearranged,
};
use crate::sorting::{sorted_positions, SortKey};
#[allow(unused_imports)]
use crate::sorting::{bytes_le, is_sorted, is_stable};
use crate::text::text3;

verus! {

/// One registered provider.
#[verifier::reject_recursive_types(S)]
pub struct Slot<S: 'static> {
    /// The concrete type under which it is found.
    pub type_id: TypeId,
    /// The instance itself, for typed lookup.
    pub instance: SharedAny,
    /// The same instance as a provider, for the lifecycle.
    pub provider: ProviderHandle<S>,
}

/// One step of a lifecycle plan.
#[verifier::reject_recursive_types(S)]
pub struct Planned<S: 'static> {
    /// The place of the provider in the order of registration.
    pub position: usize,
    pub provider: ProviderHandle<S>,
}

/// A provider that offers a long-running task.
#[verifier::reject_recursive_types(S)]
pub struct RunnableEntry<S: 'static> {
    pub name: &'static str,
    /// The place of the provider in the order of registration.
    pub position: usize,
    pub provider: ProviderHandle<S>,
    pub runnable: RunnableHandle<S>,
}

/// The providers in the given order.
pub open spec fn in_order<S: 'static>(slots: Seq<Slot<S>>, order: Seq<usize>) -> Seq<Planned<S>> {
    order.map_values(
        |position: usize| Planned { position, provider: slots[position as int].provider },
    )
}

/// The entries for those providers that show a run capability, in the given order.
pub open spec fn runnables_of<S: 'static>(
    slots: Seq<Slot<S>>,
    keys: Seq<SortKey>,
    order: Seq<usize>,
    shown: Seq<Option<RunnableHandle<S>>>,
) -> Seq<RunnableEntry<S>>
    decreases shown.len(),
{
    if shown.len() == 0 {
        Seq::empty()
    } else {
        let earlier = runnables_of(slots, keys, order, shown.drop_last());
        let position = order[shown.len() - 1];
        match shown.last() {
            Some(runnable) => earlier.push(
                RunnableEntry {
                    name: keys[position as int].1,
                    position,
                    provider: slots[position as int].provider,
                    runnable,
                },
            ),
            None => earlier,
        }
    }
}

/// Type-erased provider registry used for service discovery and typed lookup.
///
/// Registration happens during bootstrap; at run time the registry is only read.
#[verifier::reject_recursive_types(S)]
pub struct Registry<S: 'static> {
    slots: Vec<Slot<S>>,
    bindings: Vec<(TypeId, BoxedAny)>,
    lifecycle_order: Option<Vec<usize>>,
}

impl<S: 'static> Registry<S> {
    /// The registered providers in order of registration.
    pub closed spec fn slots(self) -> Seq<Slot<S>> {
        self.slots@
    }

    /// The capability bound under `key`. A capability `I` is bound under the
    /// identifier of `Arc<I>`, the type of its handle.
    pub closed spec fn bound(self, key: TypeId) -> Option<BoxedAny> {
        lookup(self.bindings@, key)
    }

    /// The lifecycle order that has been computed since the last registration: the
    /// places of the providers in the order of registration.
    pub closed spec fn known_order(self) -> Option<Seq<usize>> {
        match self.lifecycle_order {
            Some(order) => Some(order@),
            None => None,
        }
    }

    /// Every concrete type is registered at most once, and under its own identifier.
    /// Every capability has at most one binding, under the identifier of its handle.
    /// A known order has every provider in it once.
    pub closed spec fn wf(self) -> bool {
        &&& forall|i: int, j: int|
            0 <= i < j < self.slots@.len() ==> (#[trigger] self.slots@[i]).type_id != (
            #[trigger] self.slots@[j]).type_id
        &&& forall|i: int|
            0 <= i < self.slots@.len() ==> shared_type((#[trigger] self.slots@[i]).instance)
                == self.slots@[i].type_id
        &&& has_distinct_keys(self.bindings@)
        &&& forall|i: int|
            0 <= i < self.bindings@.len() ==> boxed_type((#[trigger] self.bindings@[i]).1)
                == self.bindings@[i].0
        &&& self.lifecycle_order matches Some(order) ==> is_permutation(
            order@,
            self.slots@.len(),
        )
    }

    /// A provider of the type `key` is registered.
    pub open spec fn has_type(self, key: TypeId) -> bool {
        exists|i: int| 0 <= i < self.slots().len() && (#[trigger] self.slots()[i]).type_id == key
    }

    /// `item` is the registered instance of its type.
    pub open spec fn holds<T: Provider<S>>(self, item: Arc<T>) -> bool {
        exists|i: int|
            0 <= i < self.slots().len() && (#[trigger] self.slots()[i]).type_id == type_key::<T>()
                && shares(item, self.slots()[i].instance)
    }

    /// `handle` is what is bound as the capability `I`.
    pub open spec fn binds<I: ?Sized + Send + Sync + 'static>(self, handle: Arc<I>) -> bool {
        self.bound(type_key::<Arc<I>>()) matches Some(boxed) && boxes(handle, boxed)
    }

    /// `after` is `self` with `item` registered behind all the others. What was known
    /// of the lifecycle order is forgotten.
    pub open spec fn with_provider<P: Provider<S>>(self, item: Arc<P>, after: Self) -> bool {
        &&& after.slots().len() == self.slots().len() + 1
        &&& after.slots().drop_last() == self.slots()
        &&& after.slots().last().type_id == type_key::<P>()
        &&& shares(item, after.slots().last().instance)
        &&& after.slots().last().provider.stands_for(item)
        &&& forall|key: TypeId| after.bound(key) == self.bound(key)
        &&& after.known_order() is None
    }

    /// `after` is `self` with `handle` bound as the capability `I`, in place of what
    /// was bound as `I` before.
    pub open spec fn with_binding<I: ?Sized + Send + Sync + 'static>(
        self,
        handle: Arc<I>,
        after: Self,
    ) -> bool {
        &&& after.slots() == self.slots()
        &&& after.known_order() == self.known_order()
        &&& after.binds(handle)
        &&& forall|key: TypeId|
            key != type_key::<Arc<I>>() ==> #[trigger] after.bound(key) == self.bound(key)
    }

    /// `entries` is what the providers can say of themselves, in order of registration.
    pub open spec fn describes(self, entries: Seq<PlanEntry>) -> bool {
        &&& entries.len() == self.slots().len()
        &&& forall|i: int|
            0 <= i < entries.len() ==> {
                &&& (#[trigger] entries[i]).type_id == self.slots()[i].type_id
                &&& self.slots()[i].provider.names(entries[i].name)
                &&& self.slots()[i].provider.has_lifecycle_priority(entries[i].priority)
                &&& self.slots()[i].provider.orders(entries[i].order)
            }
    }

    /// Nothing but what is known of the lifecycle order can differ.
    pub open spec fn same_contents(self, after: Self) -> bool {
        &&& after.slots() == self.slots()
        &&& forall|key: TypeId| after.bound(key) == self.bound(key)
    }

    /// Asking for the lifecycle plan, where the providers describe themselves by
    /// `entries`, gives `plan` and leaves `after`.
    pub open spec fn plans_from(
        self,
        entries: Seq<PlanEntry>,
        after: Self,
        plan: Result<Seq<Planned<S>>, Error>,
    ) -> bool {
        match plan {
            Ok(steps) => {
                &&& is_orderable(entries)
                &&& self.same_contents(after)
                &&& after.known_order() matches Some(order)
                &&& is_lifecycle_order(entries, order)
                &&& steps == in_order(self.slots(), order)
            },
            Err(error) => {
                &&& !is_orderable(entries)
                &&& after == self
                &&& error.says(
                    cycle_message(entries),
                )
            },
        }
    }

    /// Asking for the lifecycle plan can give `plan` and leave `after`. An order that
    /// is known is used again; otherwise the providers are asked for their hints.
    pub open spec fn plans(self, after: Self, plan: Result<Seq<Planned<S>>, Error>) -> bool {
        match self.known_order() {
            Some(order) => after == self && plan == Ok::<Seq<Planned<S>>, Error>(
                in_order(self.slots(), order),
            ),
            None => exists|entries: Seq<PlanEntry>| #[trigger]
                self.describes(entries) && self.plans_from(entries, after, plan),
        }
    }

    /// Asking the providers for start priorities and names can give `keys`.
    pub open spec fn ranks(self, keys: Seq<SortKey>) -> bool {
        &&& keys.len() == self.slots().len()
        &&& forall|i: int|
            0 <= i < keys.len() ==> self.slots()[i].provider.starts_at((#[trigger] keys[i]).0)
                && self.slots()[i].provider.names(keys[i].1)
    }

    /// Asking the providers in the given order for their run capability can give `shown`.
    pub open spec fn shows(
        self,
        order: Seq<usize>,
        shown: Seq<Option<RunnableHandle<S>>>,
    ) -> bool {
        &&& shown.len() <= order.len()
        &&& forall|k: int|
            0 <= k < shown.len() ==> self.slots()[order[k] as int].provider.answers_runnable(
                #[trigger] shown[k],
            )
    }

    /// `entries` is a list of the runnable providers in the order in which their tasks start.
    pub open spec fn lists_runnables(self, entries: Seq<RunnableEntry<S>>) -> bool {
        exists|keys: Seq<SortKey>, order: Seq<usize>, shown: Seq<Option<RunnableHandle<S>>>|
            #[trigger]
            self.ranks(keys) && is_start_order(keys, order) && shown.len() == order.len()
                && #[trigger] self.shows(order, shown) && entries == runnables_of(
                self.slots(),
                keys,
                order,
                shown,
            )
    }

    /// `names` are labels that the providers can give, in order of registration.
    pub open spec fn lists_names(self, names: Seq<&'static str>) -> bool {
        &&& names.len() == self.slots().len()
        &&& forall|i: int|
            0 <= i < names.len() ==> self.slots()[i].provider.names(#[trigger] names[i])
    }

    /// Every provider gives one label, whenever it is asked.
    pub open spec fn has_fixed_names(self) -> bool {
        forall|i: int, a: &'static str, b: &'static str|
            0 <= i < self.slots().len() && #[trigger] self.slots()[i].provider.names(a)
                && #[trigger] self.slots()[i].provider.names(b) ==> a@ == b@
    }

    /// The same concrete types are registered in the same order.
    pub open spec fn same_types(self, other: Self) -> bool {
        &&& self.slots().len() == other.slots().len()
        &&& forall|i: int|
            0 <= i < self.slots().len() ==> (#[trigger] self.slots()[i]).type_id
                == other.slots()[i].type_id
    }

    /// Creates an empty registry.
    pub fn new() -> (registry: Self)
        ensures
            registry.wf(),
            registry.slots() == Seq::<Slot<S>>::empty(),
            forall|key: TypeId| registry.bound(key) is None,
            registry.known_order() is None,
    {
        Registry { slots: Vec::new(), bindings: Vec::new(), lifecycle_order: None }
    }

    /// The place of the provider of type `key` in the order of registration.
    fn find(&self, key: &TypeId) -> (found: Option<usize>)
        ensures
            match found {
                Some(at) => at < self.slots().len() && self.slots()[at as int].type_id == *key,
                None => !self.has_type(*key),
            },
    {
        let mut i: usize = 0;
        while i < self.slots.len()
            invariant
                i <= self.slots@.len(),
                forall|j: int| 0 <= j < i ==> (#[trigger] self.slots@[j]).type_id != *key,
            decreases self.slots.len() - i,
        {
            if same_key(&self.slots[i].type_id, key) {
                return Some(i);
            }
            i = i + 1;
        }
        None
    }

    /// Registers a provider.
    ///
    /// The service is stored type-erased but continues to point to the same
    /// underlying allocation. If another service with the same concrete type is
    /// already registered, registration is rejected and nothing changes.
    ///
    /// `type_label` names the type `P` in the error. The registry itself is handed
    /// back, to allow fallible chaining.
    pub fn insert<P: Provider<S>>(&mut self, item: Arc<P>, type_label: &'static str) -> (result:
        Result<&mut Self, Error>)
        requires
            old(self).wf(),
        ensures
            result is Ok <==> !old(self).has_type(type_key::<P>()),
            match result {
                Ok(registry) => old(self).with_provider(item, *registry) && registry.wf()
                    && *final(self) == *final(registry),
                Err(error) => error == (Error::DuplicateProvider { type_label }) && *final(self)
                    == *old(self),
            },
    {
        let type_id = key_of::<P>();
        if self.find(&type_id).is_some() {
            return Err(Error::DuplicateProvider { type_label });
        }
        let instance = erase_shared(&item);
        let provider = as_provider::<S, P>(&item);
        proof {
            lemma_erased_is_shared(item, instance);
        }
        self.slots.push(Slot { type_id, instance, provider });
        self.lifecycle_order = None;
        proof {
            assert(self.slots().drop_last() == old(self).slots());
        }
        Ok(self)
    }

    /// Resolves a concrete service as an owned handle of the registered instance.
    ///
    /// Returns `None` if the type is not registered.
    pub fn resolve<T: Provider<S>>(&self) -> (result: Option<Arc<T>>)
        requires
            self.wf(),
        ensures
            result is Some <==> self.has_type(type_key::<T>()),
            result matches Some(item) ==> self.holds(item),
            forall|item: Arc<T>| #[trigger] self.holds(item) ==> result == Some(item),
    {
        let type_id = key_of::<T>();
        match self.find(&type_id) {
            Some(at) => downcast_shared::<T>(&self.slots[at].instance),
            None => None,
        }
    }

    /// Runs a closure on the registered instance of `T`, if there is one.
    pub fn with_typed<T: Provider<S>, R>(&self, f: impl FnOnce(&T) -> R) -> (result: Option<R>)
        requires
            self.wf(),
            forall|item: Arc<T>| #[trigger] self.holds(item) ==> call_requires(f, (&*item,)),
        ensures
            result is Some <==> self.has_type(type_key::<T>()),
            forall|item: Arc<T>| #[trigger]
                self.holds(item) ==> (result matches Some(value) && call_ensures(
                    f,
                    (&*item,),
                    value,
                )),
    {
        match self.resolve::<T>() {
            Some(typed) => Some(f(&*typed)),
            None => None,
        }
    }

    /// Binds a registered concrete provider as a trait-object capability.
    ///
    /// This does not register a second lifecycle provider. It resolves the existing
    /// concrete provider `P`, casts the same instance into `Arc<I>`, and keeps that
    /// handle as the capability `I`.
    ///
    /// Returns an error if `P` has not been registered yet; `type_label` names it
    /// there. If `I` already has a binding, the new binding replaces it.
    pub fn bind_dyn<I: ?Sized + Send + Sync + 'static, P: Provider<S>>(
        &mut self,
        cast: impl FnOnce(Arc<P>) -> Arc<I>,
        type_label: &'static str,
    ) -> (result: Result<&mut Self, Error>)
        requires
            old(self).wf(),
            forall|item: Arc<P>| #[trigger] old(self).holds(item) ==> call_requires(cast, (item,)),
        ensures
            result is Ok <==> old(self).has_type(type_key::<P>()),
            match result {
                Ok(registry) => {
                    &&& registry.wf()
                    &&& *final(self) == *final(registry)
                    &&& exists|item: Arc<P>, handle: Arc<I>| #[trigger]
                        old(self).holds(item) && #[trigger] call_ensures(cast, (item,), handle)
                            && old(self).with_binding(handle, *registry)
                },
                Err(error) => {
                    &&& *final(self) == *old(self)
                    &&& error.says(
                        "bind_dyn: provider type '"@ + type_label@
                        + "' is not registered"@,
                    )
                },
            },
    {
        let concrete = match self.resolve::<P>() {
            Some(concrete) => concrete,
            None => {
                return Err(
                    Error::other(
                        text3("bind_dyn: provider type '", type_label, "' is not registered"),
                    ),
                );
            },
        };
        let key = key_of::<Arc<I>>();
        let ghost item = concrete;
        let cast_handle = cast(concrete);
        let ghost bound = cast_handle;
        let handle = erase_boxed(cast_handle);
        let ghost before = self.bindings@;
        let mut i: usize = 0;
        while i < self.bindings.len() && !same_key(&self.bindings[i].0, &key)
            invariant
                *self == *old(self),
                i <= self.bindings@.len(),
                forall|j: int| 0 <= j < i ==> (#[trigger] self.bindings@[j]).0 != key,
            decreases self.bindings.len() - i,
        {
            i = i + 1;
        }
        if i < self.bindings.len() {
            self.bindings.set(i, (key, handle));
        } else {
            self.bindings.push((key, handle));
        }
        proof {
            lemma_erased_is_boxed(bound, handle);
            lemma_put(before, self.bindings@, i as int);
            assert(old(self).holds(item));
            assert(call_ensures(cast, (item,), bound));
            assert(old(self).with_binding(bound, *self));
        }
        Ok(self)
    }

    /// Resolves a trait-object capability bound with [`Registry::bind_dyn`].
    pub fn resolve_dyn<I: ?Sized + Send + Sync + 'static>(&self) -> (result: Option<Arc<I>>)
        requires
            self.wf(),
        ensures
            result is Some <==> self.bound(type_key::<Arc<I>>()) is Some,
            result matches Some(handle) ==> self.binds(handle),
            forall|handle: Arc<I>| #[trigger] self.binds(handle) ==> result == Some(handle),
    {
        let key = key_of::<Arc<I>>();
        let mut i: usize = 0;
        while i < self.bindings.len()
            invariant
                self.wf(),
                key == type_key::<Arc<I>>(),
                i <= self.bindings@.len(),
                forall|j: int| 0 <= j < i ==> (#[trigger] self.bindings@[j]).0 != key,
            decreases self.bindings.len() - i,
        {
            if same_key(&self.bindings[i].0, &key) {
                proof {
                    assert(self.bindings@[i as int].0 == key);
                }
                return match downcast_boxed::<Arc<I>>(&self.bindings[i].1) {
                    Some(handle) => Some(handle.clone()),
                    None => None,
                };
            }
            i = i + 1;
        }
        None
    }

    /// A snapshot of the registered providers, in order of registration.
    pub fn providers(&self) -> (providers: Vec<ProviderHandle<S>>)
        ensures
            providers@ == self.slots().map_values(|slot: Slot<S>| slot.provider),
    {
        let mut providers: Vec<ProviderHandle<S>> = Vec::new();
        let mut i: usize = 0;
        while i < self.slots.len()
            invariant
                i <= self.slots@.len(),
                providers@ == self.slots@.take(i as int).map_values(
                    |slot: Slot<S>| slot.provider,
                ),
            decreases self.slots.len() - i,
        {
            let ghost seen = self.slots@.take(i as int);
            let provider = self.slots[i].provider.share();
            providers.push(provider);
            proof {
                assert(self.slots@.take(i + 1) == seen.push(self.slots@[i as int]));
                assert(seen.push(self.slots@[i as int]).map_values(|slot: Slot<S>| slot.provider)
                    == seen.map_values(|slot: Slot<S>| slot.provider).push(
                    self.slots@[i as int].provider,
                ));
            }
            i = i + 1;
        }
        proof {
            assert(self.slots@.take(self.slots@.len() as int) == self.slots@);
        }
        providers
    }

    /// A copy of the registry for lifecycle phases that are run apart from it: the same
    /// providers and the same known order, without the bound capabilities.
    pub fn snapshot(&self) -> (copy: Self)
        requires
            self.wf(),
        ensures
            copy.wf(),
            copy.slots() == self.slots(),
            copy.known_order() == self.known_order(),
            forall|key: TypeId| copy.bound(key) is None,
    {
        let mut slots: Vec<Slot<S>> = Vec::new();
        let mut i: usize = 0;
        while i < self.slots.len()
            invariant
                i <= self.slots@.len(),
                slots@ == self.slots@.take(i as int),
            decreases self.slots.len() - i,
        {
            let slot = &self.slots[i];
            let instance = slot.instance.clone();
            let provider = slot.provider.share();
            slots.push(Slot { type_id: slot.type_id, instance, provider });
            proof {
                assert(self.slots@.take(i + 1) == self.slots@.take(i as int).push(
                    self.slots@[i as int],
                ));
            }
            i = i + 1;
        }
        proof {
            assert(self.slots@.take(i as int) == self.slots@);
        }
        Registry { slots, bindings: Vec::new(), lifecycle_order: copy_order(&self.lifecycle_order) }
    }

    /// Takes over the lifecycle order that `other` knows, where the same types are
    /// registered there. It is for a [`Registry::snapshot`] that has worked the order
    /// out; what has been registered since makes it void.
    pub fn keep_order(&mut self, other: &Self)
        requires
            old(self).wf(),
            other.wf(),
        ensures
            final(self).wf(),
            old(self).same_contents(*final(self)),
            final(self).known_order() == if old(self).known_order() is None && old(
                self,
            ).same_types(*other) {
                other.known_order()
            } else {
                old(self).known_order()
            },
    {
        if self.lifecycle_order.is_some() || self.slots.len() != other.slots.len() {
            return;
        }
        let mut i: usize = 0;
        while i < self.slots.len()
            invariant
                *self == *old(self),
                self.wf(),
                self.slots@.len() == other.slots@.len(),
                i <= self.slots@.len(),
                forall|j: int|
                    0 <= j < i ==> (#[trigger] self.slots()[j]).type_id
                        == other.slots()[j].type_id,
            decreases self.slots.len() - i,
        {
            if !same_key(&self.slots[i].type_id, &other.slots[i].type_id) {
                assert(self.slots()[i as int].type_id != other.slots()[i as int].type_id);
                return;
            }
            i = i + 1;
        }
        self.lifecycle_order = copy_order(&other.lifecycle_order);
    }

    /// The display names of the providers, for diagnostics, in order of registration.
    pub fn list_names(&self) -> (names: Vec<&'static str>)
        ensures
            self.lists_names(names@),
    {
        let mut names: Vec<&'static str> = Vec::new();
        let mut i: usize = 0;
        while i < self.slots.len()
            invariant
                i <= self.slots@.len(),
                names@.len() == i,
                forall|j: int|
                    0 <= j < i ==> self.slots()[j].provider.names(#[trigger] names@[j]),
            decreases self.slots.len() - i,
        {
            names.push(self.slots[i].provider.name());
            i = i + 1;
        }
        names
    }

    /// What the providers say of themselves, in order of registration.
    fn provider_entries_snapshot(&self) -> (entries: Vec<PlanEntry>)
        ensures
            self.describes(entries@),
    {
        let mut entries: Vec<PlanEntry> = Vec::new();
        let mut i: usize = 0;
        while i < self.slots.len()
            invariant
                i <= self.slots@.len(),
                entries@.len() == i,
                forall|j: int|
                    0 <= j < i ==> {
                        &&& (#[trigger] entries@[j]).type_id == self.slots()[j].type_id
                        &&& self.slots()[j].provider.names(entries@[j].name)
                        &&& self.slots()[j].provider.has_lifecycle_priority(entries@[j].priority)
                        &&& self.slots()[j].provider.orders(entries@[j].order)
                    },
            decreases self.slots.len() - i,
        {
            let slot = &self.slots[i];
            let name = slot.provider.name();
            let priority = slot.provider.lifecycle_priority();
            let order = slot.provider.order();
            entries.push(PlanEntry { type_id: slot.type_id, name, priority, order });
            i = i + 1;
        }
        entries
    }

    /// The known lifecycle order, worked out first if need be.
    ///
    /// What is known is forgotten on [`Registry::insert`]. All lifecycle phases use
    /// the same order, so reload is a boot emulation over the same list.
    fn lifecycle_plan(&mut self) -> (result: Result<Vec<Planned<S>>, Error>)
        requires
            old(self).wf(),
        ensures
            final(self).wf(),
            match result {
                Ok(steps) => old(self).plans(*final(self), Ok(steps@)),
                Err(error) => old(self).plans(*final(self), Err(error)),
            },
    {
        if self.lifecycle_order.is_none() {
            let entries = self.provider_entries_snapshot();
            match order_provider_entries(&entries) {
                Ok(order) => {
                    proof {
                        assert(entries@.len() == entries.len());
                        law_order_is_a_permutation(entries@, order@);
                    }
                    self.lifecycle_order = Some(order);
                    let ghost steps = in_order(self.slots(), order@);
                    assert(old(self).plans_from(entries@, *self, Ok(steps)));
                },
                Err(error) => {
                    assert(old(self).plans_from(entries@, *self, Err(error)));
                    return Err(error);
                },
            }
        }
        let mut steps: Vec<Planned<S>> = Vec::new();
        match &self.lifecycle_order {
            Some(order) => {
                let mut k: usize = 0;
                while k < order.len()
                    invariant
                        is_permutation(order@, self.slots@.len()),
                        k <= order@.len(),
                        steps@ == in_order(self.slots(), order@.take(k as int)),
                    decreases order.len() - k,
                {
                    let ghost seen = order@.take(k as int);
                    let position: usize = order[k];
                    let provider = self.slots[position].provider.share();
                    steps.push(Planned { position, provider });
                    proof {
                        assert(order@.take(k + 1) == seen.push(position));
                        assert(in_order(self.slots(), seen.push(position)) == in_order(
                            self.slots(),
                            seen,
                        ).push(Planned { position, provider }));
                    }
                    k = k + 1;
                }
                proof {
                    assert(order@.take(order@.len() as int) == order@);
                }
            },
            None => {},
        }
        Ok(steps)
    }

    /// The display names of the providers in lifecycle order, for diagnostics and
    /// startup logging before the boot pass.
    pub fn lifecycle_names(&mut self) -> (result: Result<Vec<&'static str>, Error>)
        requires
            old(self).wf(),
        ensures
            final(self).wf(),
            match result {
                Ok(names) => exists|steps: Seq<Planned<S>>| #[trigger]
                    old(self).plans(*final(self), Ok(steps)) && are_names_of(names@, steps),
                Err(error) => old(self).plans(*final(self), Err(error)),
            },
    {
        let steps = match self.lifecycle_plan() {
            Ok(steps) => steps,
            Err(error) => {
                return Err(error);
            },
        };
        let mut names: Vec<&'static str> = Vec::new();
        let mut k: usize = 0;
        while k < steps.len()
            invariant
                k <= steps@.len(),
                are_names_of(names@, steps@.take(k as int)),
            decreases steps.len() - k,
        {
            names.push(steps[k].provider.name());
            k = k + 1;
        }
        proof {
            assert(steps@.take(k as int) == steps@);
        }
        Ok(names)
    }

    /// The providers that offer a long-running task, in the order in which their
    /// tasks start: by start priority, and with equal priorities by name.
    pub fn runnable_entries(&self) -> (entries: Vec<RunnableEntry<S>>)
        ensures
            self.lists_runnables(entries@),
    {
        let mut keys: Vec<SortKey> = Vec::new();
        let mut i: usize = 0;
        while i < self.slots.len()
            invariant
                i <= self.slots@.len(),
                keys@.len() == i,
                forall|j: int|
                    0 <= j < i ==> self.slots()[j].provider.starts_at((#[trigger] keys@[j]).0)
                        && self.slots()[j].provider.names(keys@[j].1),
            decreases self.slots.len() - i,
        {
            let rank: u8 = self.slots[i].provider.run_priority();
            let name = self.slots[i].provider.name();
            keys.push((rank, name));
            i = i + 1;
        }
        let order = sorted_positions(&keys);
        let mut entries: Vec<RunnableEntry<S>> = Vec::new();
        let ghost mut shown: Seq<Option<RunnableHandle<S>>> = Seq::empty();
        let mut k: usize = 0;
        while k < order.len()
            invariant
                k <= order@.len(),
                keys@.len() == self.slots@.len(),
                is_permutation(order@, keys@.len()),
                shown.len() == k,
                self.shows(order@, shown),
                entries@ == runnables_of(self.slots(), keys@, order@, shown),
            decreases order.len() - k,
        {
            let position: usize = order[k];
            let provider = self.slots[position].provider.share();
            let capability = provider.as_runnable();
            let ghost earlier = shown;
            proof {
                shown = shown.push(capability);
                assert(shown.drop_last() == earlier);
            }
            if let Some(runnable) = capability {
                entries.push(RunnableEntry { name: keys[position].1, position, provider, runnable });
            }
            k = k + 1;
        }
        proof {
            assert(self.ranks(keys@));
        }
        entries
    }

    /// Checks every provider in lifecycle order.
    ///
    /// A failure of the lifecycle plan is an error of the pass. A provider that is not
    /// valid does not keep later providers from being checked; every such failure is
    /// retained in the outcome.
    pub fn validate_all(&mut self, state: &S) -> (result: Result<ValidationOutcome, Error>)
        requires
            old(self).wf(),
        ensures
            final(self).wf(),
            match result {
                Ok(outcome) => exists|
                    steps: Seq<Planned<S>>,
                    names: Seq<&'static str>,
                    verdicts: Seq<Result<(), Error>>,
                | #[trigger]
                    old(self).plans(*final(self), Ok(steps)) && are_names_of(names, steps)
                        && are_verdicts_of(verdicts, steps, state) && outcome@
                        == #[trigger] PassSummary::of(Stage::Validate, names, verdicts),
                Err(error) => old(self).plans(*final(self), Err(error)),
            },
    {
        let steps = match self.lifecycle_plan() {
            Ok(steps) => steps,
            Err(error) => {
                return Err(error);
            },
        };
        let mut outcome = ValidationOutcome::default();
        let ghost mut names: Seq<&'static str> = Seq::empty();
        let ghost mut verdicts: Seq<Result<(), Error>> = Seq::empty();
        let mut k: usize = 0;
        while k < steps.len()
            invariant
                k <= steps@.len(),
                are_names_of(names, steps@.take(k as int)),
                are_verdicts_of(verdicts, steps@.take(k as int), state),
                outcome@ == PassSummary::of(Stage::Validate, names, verdicts),
            decreases steps.len() - k,
        {
            let name = steps[k].provider.name();
            let verdict = steps[k].provider.validate(state);
            proof {
                law_pass_accounts_for_all(Stage::Validate, names, verdicts);
                law_summary_goes_on(Stage::Validate, names, verdicts, name, verdict);
                names = names.push(name);
                verdicts = verdicts.push(verdict);
            }
            outcome.note(name, verdict);
            k = k + 1;
        }
        proof {
            assert(steps@.take(k as int) == steps@);
        }
        Ok(outcome)
    }
}

/// `names` are labels that the providers of the steps can give.
pub open spec fn are_names_of<S: 'static>(
    names: Seq<&'static str>,
    steps: Seq<Planned<S>>,
) -> bool {
    &&& names.len() == steps.len()
    &&& forall|k: int| 0 <= k < names.len() ==> steps[k].provider.names(#[trigger] names[k])
}

/// `verdicts` are verdicts that the providers of the steps can reach on `state`.
pub open spec fn are_verdicts_of<S: 'static>(
    verdicts: Seq<Result<(), Error>>,
    steps: Seq<Planned<S>>,
    state: &S,
) -> bool {
    &&& verdicts.len() == steps.len()
    &&& forall|k: int|
        0 <= k < verdicts.len() ==> steps[k].provider.decides(state, #[trigger] verdicts[k])
}

/// `order` puts the providers in the order in which their tasks start.
pub open spec fn is_start_order(keys: Seq<SortKey>, order: Seq<usize>) -> bool {
    &&& is_permutation(order, keys.len())
    &&& is_sorted(keys, order)
    &&& is_stable(keys, order)
}

fn copy_order(order: &Option<Vec<usize>>) -> (copy: Option<Vec<usize>>)
    ensures
        match (*order, copy) {
            (Some(order), Some(copy)) => copy@ == order@,
            (None, None) => true,
            _ => false,
        },
{
    match order {
        Some(order) => {
            let mut copy: Vec<usize> = Vec::new();
            let mut k: usize = 0;
            while k < order.len()
                invariant
                    k <= order@.len(),
                    copy@ == order@.take(k as int),
                decreases order.len() - k,
            {
                copy.push(order[k]);
                proof {
                    assert(order@.take(k + 1) == order@.take(k as int).push(order@[k as int]));
                }
                k = k + 1;
            }
            proof {
                assert(order@.take(k as int) == order@);
            }
            Some(copy)
        },
        None => None,
    }
}

impl<S: 'static> Default for Registry<S> {
    fn default() -> (registry: Self)
        ensures
            registry.wf(),
            registry.slots() == Seq::<Slot<S>>::empty(),
            forall|key: TypeId| registry.bound(key) is None,
            registry.known_order() is None,
    {
        Registry::new()
    }
}

/// What has been registered is found: the instance that [`Registry::insert`] took is
/// the one that [`Registry::resolve`] hands back.
pub proof fn law_inserted_is_found<S: 'static, P: Provider<S>>(
    before: Registry<S>,
    item: Arc<P>,
    after: Registry<S>,
)
    requires
        before.with_provider(item, after),
    ensures
        after.holds(item),
        after.has_type(type_key::<P>()),
{
    assert(after.slots()[after.slots().len() - 1].type_id == type_key::<P>());
}

/// A registration takes nothing away: what was found before is found after it, under
/// the same identity, and no other type comes with it.
pub proof fn law_insert_keeps_the_others<S: 'static, P: Provider<S>, T: Provider<S>>(
    before: Registry<S>,
    item: Arc<P>,
    after: Registry<S>,
    other: Arc<T>,
)
    requires
        before.with_provider(item, after),
    ensures
        before.holds(other) ==> after.holds(other),
        type_key::<T>() != type_key::<P>() ==> after.has_type(type_key::<T>()) == before.has_type(
            type_key::<T>(),
        ),
{
    let slots = after.slots();
    if before.holds(other) {
        let i = choose|i: int|
            0 <= i < before.slots().len() && (#[trigger] before.slots()[i]).type_id == type_key::<
                T,
            >() && shares(other, before.slots()[i].instance);
        assert(slots.drop_last()[i] == slots[i]);
    }
    if type_key::<T>() != type_key::<P>() {
        if before.has_type(type_key::<T>()) {
            let i = choose|i: int|
                0 <= i < before.slots().len() && (#[trigger] before.slots()[i]).type_id
                    == type_key::<T>();
            assert(slots.drop_last()[i] == slots[i]);
        }
        if after.has_type(type_key::<T>()) {
            let i = choose|i: int|
                0 <= i < slots.len() && (#[trigger] slots[i]).type_id == type_key::<T>();
            assert(slots.drop_last()[i] == slots[i]);
            assert(before.slots()[i].type_id == type_key::<T>());
        }
    }
}

/// A new binding of a capability takes the place of the one before it, and leaves the
/// other capabilities and the registered providers alone.
pub proof fn law_new_binding_replaces<S: 'static, I: ?Sized + Send + Sync + 'static>(
    start: Registry<S>,
    first: Arc<I>,
    middle: Registry<S>,
    second: Arc<I>,
    end: Registry<S>,
)
    requires
        start.with_binding(first, middle),
        middle.with_binding(second, end),
    ensures
        middle.binds(first),
        end.binds(second),
        start.with_binding(second, end),
{
}

/// One plan serves every phase: once it has been worked out, each later phase gets the
/// same steps and changes nothing, for as long as nothing is registered.
pub proof fn law_phases_share_the_plan<S: 'static>(
    start: Registry<S>,
    steps: Seq<Planned<S>>,
    middle: Registry<S>,
    later: Result<Seq<Planned<S>>, Error>,
    end: Registry<S>,
)
    requires
        start.plans(middle, Ok(steps)),
        middle.plans(end, later),
    ensures
        later == Ok::<Seq<Planned<S>>, Error>(steps),
        end == middle,
{
}

/// Hints hold in every phase: a provider that must come before another one, because one
/// of the two says so, has its turn before it.
pub proof fn law_plan_respects_the_hints<S: 'static>(
    registry: Registry<S>,
    entries: Seq<PlanEntry>,
    steps: Seq<Planned<S>>,
    after: Registry<S>,
    i: int,
    j: int,
)
    requires
        entries.len() <= usize::MAX,
        registry.plans_from(entries, after, Ok(steps)),
        0 <= i < steps.len(),
        0 <= j < steps.len(),
        must_precede(entries, steps[i].position as int, steps[j].position as int),
    ensures
        i < j,
{
    let order = after.known_order()->Some_0;
    assert(steps[i].position == order[i]);
    assert(steps[j].position == order[j]);
    law_order_respects_dependencies(entries, order, i, j);
}

/// A plan leaves no provider out and has none twice.
pub proof fn law_plan_is_complete<S: 'static>(
    registry: Registry<S>,
    steps: Seq<Planned<S>>,
    after: Registry<S>,
)
    requires
        registry.wf(),
        registry.slots().len() <= usize::MAX,
        registry.plans(after, Ok(steps)),
    ensures
        steps.len() == registry.slots().len(),
        forall|i: int, j: int|
            0 <= i < j < steps.len() ==> (#[trigger] steps[i]).position != (
            #[trigger] steps[j]).position,
        forall|i: int|
            0 <= i < steps.len() ==> (#[trigger] steps[i]).position < registry.slots().len()
                && steps[i].provider == registry.slots()[steps[i].position as int].provider,
{
    if registry.known_order() is None {
        let entries = choose|entries: Seq<PlanEntry>| #[trigger]
            registry.describes(entries) && registry.plans_from(entries, after, Ok(steps));
        law_order_is_a_permutation(entries, after.known_order()->Some_0);
    }
    let order = after.known_order()->Some_0;
    assert forall|i: int, j: int| 0 <= i < j < steps.len() implies (
    #[trigger] steps[i]).position != (#[trigger] steps[j]).position by {
        assert(steps[i].position == order[i]);
        assert(steps[j].position == order[j]);
    }
    assert forall|i: int| 0 <= i < steps.len() implies (#[trigger] steps[i]).position
        < registry.slots().len() && steps[i].provider
        == registry.slots()[steps[i].position as int].provider by {
        assert(steps[i].position == order[i]);
    }
}

/// The texts of names.
pub open spec fn texts(names: Seq<&'static str>) -> Seq<Seq<char>> {
    names.map_values(|name: &'static str| name@)
}

/// Both lists have the same names: where each provider gives one label, what
/// [`Registry::list_names`] and [`Registry::lifecycle_names`] return differ in order only.
/// The first also answers where a dependency cycle leaves no lifecycle order.
pub proof fn law_both_lists_have_the_same_names<S: 'static>(
    registry: Registry<S>,
    listed: Seq<&'static str>,
    after: Registry<S>,
    steps: Seq<Planned<S>>,
    lifecycle: Seq<&'static str>,
)
    requires
        registry.wf(),
        registry.slots().len() <= usize::MAX,
        registry.has_fixed_names(),
        registry.lists_names(listed),
        registry.plans(after, Ok(steps)),
        are_names_of(lifecycle, steps),
    ensures
        texts(lifecycle).to_multiset() == texts(listed).to_multiset(),
{
    law_plan_is_complete(registry, steps, after);
    let order = steps.map_values(|step: Planned<S>| step.position);
    assert(is_permutation(order, listed.len())) by {
        assert forall|i: int, j: int|
            0 <= i < order.len() && 0 <= j < order.len() && i != j implies order[i] != order[j] by {
            assert(steps[i].position != steps[j].position);
        }
        assert forall|k: int| 0 <= k < order.len() implies #[trigger] order[k] < listed.len() by {
            assert(steps[k].position < registry.slots().len());
        }
    }
    lemma_rearranged_has_the_same_items(texts(listed), order);
    assert(texts(lifecycle) == rearranged(texts(listed), order)) by {
        assert forall|k: int| 0 <= k < lifecycle.len() implies texts(lifecycle)[k] == rearranged(
            texts(listed),
            order,
        )[k] by {
            let at = steps[k].position as int;
            assert(steps[k].provider == registry.slots()[at].provider);
            assert(registry.slots()[at].provider.names(lifecycle[k]));
            assert(registry.slots()[at].provider.names(listed[at]));
        }
    }
}

/// Every provider that names another one has its turn on the right side of it, in whichever
/// phase: after all that it says it comes after, and before all that it says it comes before,
/// at whatever place of its hints they stand.
pub proof fn law_lifecycle_honours_every_hint<S: 'static>(
    registry: Registry<S>,
    steps: Seq<Planned<S>>,
    after: Registry<S>,
    i: int,
    j: int,
)
    requires
        registry.wf(),
        registry.slots().len() <= usize::MAX,
        registry.known_order() is None,
        registry.plans(after, Ok(steps)),
        0 <= i < steps.len(),
        0 <= j < steps.len(),
        i != j,
        ({
            ||| forall|order: ProviderOrder| #[trigger]
                steps[j].provider.orders(order) ==> order.comes_after().contains(
                    registry.slots()[steps[i].position as int].type_id,
                )
            ||| forall|order: ProviderOrder| #[trigger]
                steps[i].provider.orders(order) ==> order.comes_before().contains(
                    registry.slots()[steps[j].position as int].type_id,
                )
        }),
    ensures
        i < j,
{
    law_plan_is_complete(registry, steps, after);
    let entries = choose|entries: Seq<PlanEntry>| #[trigger]
        registry.describes(entries) && registry.plans_from(entries, after, Ok(steps));
    let order = after.known_order()->Some_0;
    let from = steps[i].position as int;
    let to = steps[j].position as int;
    assert(steps[i].position == order[i]);
    assert(steps[j].position == order[j]);
    assert(i < j ==> from != to);
    assert(j < i ==> from != to);
    assert(steps[i].provider == registry.slots()[from].provider);
    assert(steps[j].provider == registry.slots()[to].provider);
    assert(entries[from].type_id == registry.slots()[from].type_id);
    assert(entries[to].type_id == registry.slots()[to].type_id);
    assert forall|a: int, b: int| 0 <= a < b < entries.len() implies (
    #[trigger] entries[a]).type_id != (#[trigger] entries[b]).type_id by {
        assert(registry.slots()[a].type_id != registry.slots()[b].type_id);
    }
    assert(steps[j].provider.orders(entries[to].order));
    assert(steps[i].provider.orders(entries[from].order));
    law_every_hint_counts(entries, order, from, to, i, j);
}

/// Without hints the lifecycle goes by the priorities, the lower one first, and by
/// registration where they are the same.
pub proof fn law_lifecycle_goes_by_priority<S: 'static>(
    registry: Registry<S>,
    steps: Seq<Planned<S>>,
    after: Registry<S>,
    i: int,
    j: int,
    first: u8,
    second: u8,
)
    requires
        registry.wf(),
        registry.slots().len() <= usize::MAX,
        registry.known_order() is None,
        registry.plans(after, Ok(steps)),
        0 <= i < steps.len(),
        0 <= j < steps.len(),
        forall|k: int, order: ProviderOrder|
            0 <= k < steps.len() && (#[trigger] steps[k].provider.orders(order))
                ==> order.comes_after().len() == 0 && order.comes_before().len() == 0,
        forall|rank: u8| #[trigger]
            steps[i].provider.has_lifecycle_priority(rank) ==> rank == first,
        forall|rank: u8| #[trigger]
            steps[j].provider.has_lifecycle_priority(rank) ==> rank == second,
        first < second || (first == second && steps[i].position < steps[j].position),
    ensures
        i < j,
{
    law_plan_is_complete(registry, steps, after);
    let entries = choose|entries: Seq<PlanEntry>| #[trigger]
        registry.describes(entries) && registry.plans_from(entries, after, Ok(steps));
    let order = after.known_order()->Some_0;
    assert forall|k: int| 0 <= k < steps.len() implies (#[trigger] order[k]) == steps[k].position
        && 0 <= order[k] < entries.len() && steps[k].provider.orders(
        entries[order[k] as int].order,
    ) && steps[k].provider.has_lifecycle_priority(entries[order[k] as int].priority) by {
        assert(steps[k].position == order[k]);
        assert(steps[k].provider == registry.slots()[steps[k].position as int].provider);
        assert(entries[order[k] as int].type_id == registry.slots()[order[k] as int].type_id);
    }
    assert(entries[order[i] as int].priority == first);
    assert(entries[order[j] as int].priority == second);
    if j < i {
        law_only_a_hint_overtakes(entries, order, j, i);
        let c = choose|c: int|
            j <= c < i && (entries[(#[trigger] order[c]) as int].order.comes_before().contains(
                entries[order[i] as int].type_id,
            ) || entries[order[i] as int].order.comes_after().contains(
                entries[order[c] as int].type_id,
            ));
        assert(steps[c].provider.orders(entries[order[c] as int].order));
        assert(steps[i].provider.orders(entries[order[i] as int].order));
        assert(false);
    }
}

/// Where in the given order the entries of the runnable providers come from.
proof fn lemma_runnables_of<S: 'static>(
    slots: Seq<Slot<S>>,
    keys: Seq<SortKey>,
    order: Seq<usize>,
    shown: Seq<Option<RunnableHandle<S>>>,
) -> (places: Seq<int>)
    ensures
        places.len() == runnables_of(slots, keys, order, shown).len(),
        forall|k: int, l: int|
            0 <= k < l < places.len() ==> (#[trigger] places[k]) < (#[trigger] places[l]),
        forall|k: int|
            0 <= k < places.len() ==> {
                let entry = runnables_of(slots, keys, order, shown)[k];
                let position = order[#[trigger] places[k]];
                &&& 0 <= places[k] < shown.len()
                &&& shown[places[k]] == Some(entry.runnable)
                &&& entry.position == position
                &&& entry.name == keys[position as int].1
                &&& entry.provider == slots[position as int].provider
            },
        forall|p: int|
            0 <= p < shown.len() && (#[trigger] shown[p]) is Some ==> places.contains(p),
    decreases shown.len(),
{
    if shown.len() == 0 {
        Seq::empty()
    } else {
        let shorter = shown.drop_last();
        let earlier = lemma_runnables_of(slots, keys, order, shorter);
        let last = shown.len() - 1;
        let places = if shown.last() is Some {
            earlier.push(last)
        } else {
            earlier
        };
        assert forall|k: int| 0 <= k < places.len() implies {
            let entry = runnables_of(slots, keys, order, shown)[k];
            let position = order[#[trigger] places[k]];
            &&& 0 <= places[k] < shown.len()
            &&& shown[places[k]] == Some(entry.runnable)
            &&& entry.position == position
            &&& entry.name == keys[position as int].1
            &&& entry.provider == slots[position as int].provider
        } by {
            if k < earlier.len() {
                assert(places[k] == earlier[k]);
                assert(shorter[earlier[k]] == shown[earlier[k]]);
            }
        }
        assert forall|k: int, l: int| 0 <= k < l < places.len() implies (#[trigger] places[k]) < (
        #[trigger] places[l]) by {
            assert(places[k] == earlier[k]);
            if l < earlier.len() {
                assert(places[l] == earlier[l]);
            }
        }
        assert forall|p: int|
            0 <= p < shown.len() && (#[trigger] shown[p]) is Some implies places.contains(p) by {
            if p < last {
                assert(shorter[p] == shown[p]);
                let k = earlier.index_of(p);
                assert(places[k] == p);
            } else {
                assert(places[places.len() - 1] == p);
            }
        }
        places
    }
}

/// Tasks start in the order of the start priorities, the lower one first, where a provider
/// that gives none counts as one that gives 100; with equal priorities the names decide, and
/// with equal names the registration.
pub proof fn law_tasks_start_by_priority<S: 'static>(
    registry: Registry<S>,
    entries: Seq<RunnableEntry<S>>,
    k: int,
    l: int,
    first: u8,
    second: u8,
)
    requires
        registry.lists_runnables(entries),
        0 <= k < entries.len(),
        0 <= l < entries.len(),
        forall|given: Option<u8>| #[trigger]
            entries[k].provider.runs_at(given) ==> given == Some(first) || (given is None && first
                == 100),
        forall|given: Option<u8>| #[trigger]
            entries[l].provider.runs_at(given) ==> given == Some(second) || (given is None
                && second == 100),
    ensures
        first < second ==> k < l,
        k < l ==> first <= second,
        k < l && first == second ==> bytes_le(
            entries[k].name.spec_bytes(),
            entries[l].name.spec_bytes(),
        ),
        k < l && first == second && bytes_le(
            entries[l].name.spec_bytes(),
            entries[k].name.spec_bytes(),
        ) ==> entries[k].position < entries[l].position,
{
    let (keys, order, shown): (Seq<SortKey>, Seq<usize>, Seq<Option<RunnableHandle<S>>>) = choose|
        keys: Seq<SortKey>,
        order: Seq<usize>,
        shown: Seq<Option<RunnableHandle<S>>>,
    | #[trigger]
        registry.ranks(keys) && is_start_order(keys, order) && shown.len() == order.len()
            && #[trigger] registry.shows(order, shown) && entries == runnables_of(
            registry.slots(),
            keys,
            order,
            shown,
        );
    let places = lemma_runnables_of(registry.slots(), keys, order, shown);
    let a = order[places[k]] as int;
    let b = order[places[l]] as int;
    assert(registry.slots()[a].provider.starts_at(keys[a].0));
    assert(registry.slots()[b].provider.starts_at(keys[b].0));
    law_no_start_priority_is_the_normal_one(entries[k].provider);
    law_no_start_priority_is_the_normal_one(entries[l].provider);
    assert(keys[a].0 == first);
    assert(keys[b].0 == second);
    if k < l {
        assert(places[k] < places[l]);
    }
    if l < k {
        assert(places[l] < places[k]);
    }
}

/// The list of runnable providers has nothing but providers in it that show a run capability,
/// each once, under a name that it gives and with the capability that it shows.
pub proof fn law_listed_provider_is_runnable<S: 'static>(
    registry: Registry<S>,
    entries: Seq<RunnableEntry<S>>,
    k: int,
)
    requires
        registry.lists_runnables(entries),
        0 <= k < entries.len(),
    ensures
        entries[k].position < registry.slots().len(),
        entries[k].provider == registry.slots()[entries[k].position as int].provider,
        entries[k].provider.names(entries[k].name),
        entries[k].provider.answers_runnable(Some(entries[k].runnable)),
        forall|j: int|
            0 <= j < entries.len() && j != k ==> (#[trigger] entries[j]).position
                != entries[k].position,
{
    let (keys, order, shown): (Seq<SortKey>, Seq<usize>, Seq<Option<RunnableHandle<S>>>) = choose|
        keys: Seq<SortKey>,
        order: Seq<usize>,
        shown: Seq<Option<RunnableHandle<S>>>,
    | #[trigger]
        registry.ranks(keys) && is_start_order(keys, order) && shown.len() == order.len()
            && #[trigger] registry.shows(order, shown) && entries == runnables_of(
            registry.slots(),
            keys,
            order,
            shown,
        );
    let places = lemma_runnables_of(registry.slots(), keys, order, shown);
    let p = places[k];
    assert(order[p] < keys.len());
    assert(registry.slots()[order[p] as int].provider.answers_runnable(shown[p]));
    assert(registry.slots()[order[p] as int].provider.names(keys[order[p] as int].1));
    assert forall|j: int| 0 <= j < entries.len() && j != k implies (#[trigger] entries[j]).position
        != entries[k].position by {
        assert(places[j] != places[k]);
        assert(entries[j].position == order[places[j]]);
    }
}

/// No provider is left out of the list of runnable providers that shows a run capability
/// whenever it is asked.
pub proof fn law_every_runnable_is_listed<S: 'static>(
    registry: Registry<S>,
    entries: Seq<RunnableEntry<S>>,
    at: int,
)
    requires
        registry.lists_runnables(entries),
        registry.slots().len() <= usize::MAX,
        0 <= at < registry.slots().len(),
        !registry.slots()[at].provider.answers_runnable(None),
    ensures
        exists|j: int| 0 <= j < entries.len() && (#[trigger] entries[j]).position == at,
{
    let (keys, order, shown): (Seq<SortKey>, Seq<usize>, Seq<Option<RunnableHandle<S>>>) = choose|
        keys: Seq<SortKey>,
        order: Seq<usize>,
        shown: Seq<Option<RunnableHandle<S>>>,
    | #[trigger]
        registry.ranks(keys) && is_start_order(keys, order) && shown.len() == order.len()
            && #[trigger] registry.shows(order, shown) && entries == runnables_of(
            registry.slots(),
            keys,
            order,
            shown,
        );
    let places = lemma_runnables_of(registry.slots(), keys, order, shown);
    lemma_permutation_is_complete(order, keys.len());
    assert(order.contains(at as usize));
    let q = order.index_of(at as usize);
    assert(registry.slots()[order[q] as int].provider.answers_runnable(shown[q]));
    assert(shown[q] is Some);
    let j = places.index_of(q);
    assert(order[places[j]] == at);
    assert(entries[j].position == at);
}

/// A validation leaves no provider out: every registered one is counted as valid or kept as a
/// failure, one that is never valid is among the failures, and without one that can fail there
/// is no failure.
pub proof fn law_validation_leaves_nobody_out<S: 'static>(
    registry: Registry<S>,
    after: Registry<S>,
    steps: Seq<Planned<S>>,
    names: Seq<&'static str>,
    state: &S,
    verdicts: Seq<Result<(), Error>>,
    outcome: PassSummary,
    k: int,
)
    requires
        registry.wf(),
        registry.slots().len() <= usize::MAX,
        registry.plans(after, Ok(steps)),
        are_names_of(names, steps),
        are_verdicts_of(verdicts, steps, state),
        outcome == PassSummary::of(Stage::Validate, names, verdicts),
    ensures
        outcome.passed + outcome.failures.len() == registry.slots().len(),
        (forall|i: int, verdict: Result<(), Error>|
            0 <= i < registry.slots().len() && #[trigger] registry.slots()[i].provider.decides(
                state,
                verdict,
            ) ==> verdict is Ok) ==> outcome.failures.len() == 0,
        0 <= k < steps.len() && (forall|verdict: Result<(), Error>| #[trigger]
            steps[k].provider.decides(state, verdict) ==> verdict is Err) ==> exists|j: int|
            0 <= j < outcome.failures.len() && (#[trigger] outcome.failures[j]).0 == names[k],
{
    law_plan_is_complete(registry, steps, after);
    law_pass_counts_each_once(Stage::Validate, names, verdicts);
    if forall|i: int, verdict: Result<(), Error>|
        0 <= i < registry.slots().len() && #[trigger] registry.slots()[i].provider.decides(
            state,
            verdict,
        ) ==> verdict is Ok {
        assert forall|k: int| 0 <= k < verdicts.len() implies (#[trigger] verdicts[k]) is Ok by {
            let at = steps[k].position as int;
            assert(registry.slots()[at].provider.decides(state, verdicts[k]));
        }
    }
    if 0 <= k < steps.len() && (forall|verdict: Result<(), Error>| #[trigger]
        steps[k].provider.decides(state, verdict) ==> verdict is Err) {
        assert(steps[k].provider.decides(state, verdicts[k]));
        assert(verdicts[k] is Err);
    }
}

/// A registration comes behind all earlier ones, which keep their places, and the bound
/// capabilities stay as they are.
pub proof fn law_registration_comes_last<S: 'static, P: Provider<S>>(
    before: Registry<S>,
    item: Arc<P>,
    after: Registry<S>,
    at: int,
    key: TypeId,
)
    requires
        before.with_provider(item, after),
        0 <= at < before.slots().len(),
    ensures
        after.slots().len() == before.slots().len() + 1,
        after.slots()[at] == before.slots()[at],
        after.slots()[before.slots().len() as int].type_id == type_key::<P>(),
        after.slots()[before.slots().len() as int].provider.stands_for(item),
        after.known_order() is None,
        after.bound(key) == before.bound(key),
{
    assert(after.slots().drop_last()[at] == after.slots()[at]);
}

/// Names and verdicts go with the steps: each is one that the provider of its own step gives.
pub proof fn law_answers_go_with_the_steps<S: 'static>(
    steps: Seq<Planned<S>>,
    names: Seq<&'static str>,
    state: &S,
    verdicts: Seq<Result<(), Error>>,
    k: int,
)
    requires
        are_names_of(names, steps),
        are_verdicts_of(verdicts, steps, state),
        0 <= k < steps.len(),
    ensures
        names.len() == steps.len(),
        verdicts.len() == steps.len(),
        steps[k].provider.names(names[k]),
        steps[k].provider.decides(state, verdicts[k]),
{
}

/// Binding a capability is no registration: the providers, their places and what is known of
/// the lifecycle order stay as they are, and so does every other capability.
pub proof fn law_binding_keeps_the_providers<S: 'static, I: ?Sized + Send + Sync + 'static>(
    before: Registry<S>,
    handle: Arc<I>,
    after: Registry<S>,
    key: TypeId,
)
    requires
        before.with_binding(handle, after),
    ensures
        after.binds(handle),
        after.slots() == before.slots(),
        after.known_order() == before.known_order(),
        key != type_key::<Arc<I>>() ==> after.bound(key) == before.bound(key),
        after.bound(type_key::<Arc<I>>()) is Some,
{
}

} // verus!

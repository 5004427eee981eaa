//! Process-local typed event bus.
//!
//! A pub/sub primitive where **anyone can define a new event type and emit or
//! subscribe to it** without modifying this crate. Each event type gets its own
//! broadcast channel, created when the first subscriber for it appears. Producers and
//! consumers remain decoupled by their shared event type.
//!
//! Each process has its own bus. Delivery across processes belongs to an adapter over
//! a shared transport, outside this primitive.
use std::any::TypeId;
use std::sync::Arc;

use dashmap::DashMap;
use tokio::sync::broadcast;
use vstd::prelude::*;

use crate::erasure::{downcast_shared, erase_shared, key_of, SharedAny};
#[allow(unused_imports)]
use crate::erasure::{lemma_erased_is_shared, shared_type, shares, type_key};

verus! {

/// Default per-type channel capacity. Subscribers that fall further behind on a single
/// type lose the oldest events of it.
pub const DEFAULT_CAPACITY: usize = 64;

/// `dashmap::DashMap`, a concurrent map.
#[verifier::external_type_specification]
#[verifier::external_body]
#[verifier::reject_recursive_types(K)]
#[verifier::reject_recursive_types(V)]
#[verifier::reject_recursive_types(S)]
pub struct ExDashMap<K, V, S>(DashMap<K, V, S>);

/// `tokio::sync::broadcast::Sender`, the writing half of a broadcast channel.
#[verifier::external_type_specification]
#[verifier::external_body]
#[verifier::reject_recursive_types(T)]
pub struct ExBroadcastSender<T>(broadcast::Sender<T>);

/// `tokio::sync::broadcast::Receiver`, a reading half of a broadcast channel.
#[verifier::external_type_specification]
#[verifier::external_body]
#[verifier::reject_recursive_types(T)]
pub struct ExBroadcastReceiver<T>(broadcast::Receiver<T>);

/// What the map holds.
pub uninterp spec fn channels_in(map: DashMap<TypeId, SharedAny>) -> Map<TypeId, SharedAny>;

/// Calls `DashMap::new`, which makes an empty map.
#[verifier::external_body]
fn new_map() -> (map: DashMap<TypeId, SharedAny>)
    ensures
        channels_in(map).dom() == Set::<TypeId>::empty(),
{
    DashMap::new()
}

/// Calls `DashMap::get` and copies the handle out of the entry.
#[verifier::external_body]
fn channel_at(map: &DashMap<TypeId, SharedAny>, key: &TypeId) -> (channel: Option<SharedAny>)
    ensures
        channel == if channels_in(*map).contains_key(*key) {
            Some(channels_in(*map)[*key])
        } else {
            None
        },
{
    map.get(key).map(|entry| entry.value().clone())
}

/// Calls `DashMap::entry` and `or_insert` on the entry, which puts the value there if
/// the key is new, and copies out what the map holds under the key afterwards.
#[verifier::external_body]
fn channel_or_insert(
    map: &mut DashMap<TypeId, SharedAny>,
    key: TypeId,
    channel: SharedAny,
) -> (kept: SharedAny)
    ensures
        channels_in(*final(map)) == if channels_in(*old(map)).contains_key(key) {
            channels_in(*old(map))
        } else {
            channels_in(*old(map)).insert(key, channel)
        },
        kept == channels_in(*final(map))[key],
{
    map.entry(key).or_insert(channel).value().clone()
}

/// Calls `DashMap::len`, which counts the keys.
#[verifier::external_body]
fn channel_count(map: &DashMap<TypeId, SharedAny>) -> (count: usize)
    ensures
        count == channels_in(*map).dom().len(),
{
    map.len()
}

/// `sender` writes to a new channel that keeps `capacity` events.
pub closed spec fn opens<E: Event>(capacity: usize, sender: broadcast::Sender<E>) -> bool {
    call_ensures(open_channel::<E>, (capacity,), sender)
}

/// The event has been handed to the channel of `sender`.
pub closed spec fn sends<E: Event>(sender: broadcast::Sender<E>, event: E) -> bool {
    exists|reached: usize| call_ensures(send_event::<E>, (&sender, event), reached)
}

/// `receiver` gets what is sent through `sender` from now on.
pub closed spec fn receives<E: Event>(
    receiver: broadcast::Receiver<E>,
    sender: broadcast::Sender<E>,
) -> bool {
    call_ensures(new_receiver::<E>, (&sender,), receiver)
}

/// Calls `broadcast::channel` and keeps the sender. The call panics where the capacity
/// is zero or above half of the address space.
#[verifier::external_body]
fn open_channel<E: Event>(capacity: usize) -> (sender: broadcast::Sender<E>)
    requires
        0 < capacity <= usize::MAX / 2,
{
    let (sender, _) = broadcast::channel::<E>(capacity);
    sender
}

/// Calls `broadcast::Sender::send`, which hands the event to every receiver there is.
/// The result is how many there were; with none, the event is dropped. Who they are and
/// what they have missed is state of the channel, so nothing is said of the number.
#[verifier::external_body]
fn send_event<E: Event>(sender: &broadcast::Sender<E>, event: E) -> (reached: usize) {
    sender.send(event).unwrap_or(0)
}

/// Calls `broadcast::Sender::subscribe`, which makes a receiver for what is sent after
/// the call. What that will be lies in the future of the channel. The call panics where
/// a channel already has a quarter of the address space in receivers, more than memory
/// can hold.
#[verifier::external_body]
fn new_receiver<E: Event>(sender: &broadcast::Sender<E>) -> (receiver: broadcast::Receiver<E>) {
    sender.subscribe()
}

/// Marker trait for any value that can flow through the bus.
///
/// `Clone` is required because a broadcast channel delivers the same value to every
/// subscriber. `Send + Sync + 'static` enables storage in the type-erased map.
pub trait Event: Clone + Send + Sync + 'static {

}

/// Typed, on-demand event channel registry.
pub struct ProcessEventBus {
    channels: DashMap<TypeId, SharedAny>,
    capacity: usize,
}

impl ProcessEventBus {
    /// The channels, each under the identifier of the type of its sender.
    pub closed spec fn channels(self) -> Map<TypeId, SharedAny> {
        channels_in(self.channels)
    }

    /// How many events a channel keeps for a slow subscriber.
    pub closed spec fn depth(self) -> usize {
        self.capacity
    }

    /// What stands under an identifier is a sender of that type. There are finitely many.
    pub closed spec fn wf(self) -> bool {
        &&& self.channels().dom().finite()
        &&& forall|key: TypeId| #[trigger]
            self.channels().contains_key(key) ==> shared_type(self.channels()[key]) == key
    }

    /// There is a channel for `E`.
    pub open spec fn has_channel<E: Event>(self) -> bool {
        self.channels().contains_key(type_key::<broadcast::Sender<E>>())
    }

    /// `sender` writes to the channel for `E`.
    pub open spec fn carries<E: Event>(self, sender: Arc<broadcast::Sender<E>>) -> bool {
        self.has_channel::<E>() && shares(
            sender,
            self.channels()[type_key::<broadcast::Sender<E>>()],
        )
    }

    /// Creates a bus with the default per-type capacity.
    pub fn new() -> (bus: Self)
        ensures
            bus.wf(),
            bus.channels().dom() == Set::<TypeId>::empty(),
            bus.depth() == DEFAULT_CAPACITY,
    {
        ProcessEventBus::with_capacity(DEFAULT_CAPACITY)
    }

    /// Creates a bus with explicit per-type channel capacity.
    pub fn with_capacity(capacity: usize) -> (bus: Self)
        ensures
            bus.wf(),
            bus.channels().dom() == Set::<TypeId>::empty(),
            bus.depth() == capacity,
    {
        ProcessEventBus { channels: new_map(), capacity }
    }

    /// The sender of the channel for `E`, if there is one.
    fn sender<E: Event>(&self) -> (sender: Option<Arc<broadcast::Sender<E>>>)
        requires
            self.wf(),
        ensures
            sender is Some <==> self.has_channel::<E>(),
            sender matches Some(sender) ==> self.carries(sender),
            forall|known: Arc<broadcast::Sender<E>>| #[trigger]
                self.carries(known) ==> sender == Some(known),
    {
        let key = key_of::<broadcast::Sender<E>>();
        match channel_at(&self.channels, &key) {
            Some(channel) => downcast_shared::<broadcast::Sender<E>>(&channel),
            None => None,
        }
    }

    /// The event has been handed to the channel for its type, if there is one. How often is
    /// left unsaid: the channel changes behind a shared handle.
    pub open spec fn emits<E: Event>(self, event: E) -> bool {
        forall|sender: Arc<broadcast::Sender<E>>| #[trigger]
            self.carries(sender) ==> sends(*sender, event)
    }

    /// Publishes an event of type `E`.
    ///
    /// If no channel for `E` exists yet, because nobody has subscribed, the event is
    /// dropped. Once a subscriber appears, later events are delivered.
    pub fn emit<E: Event>(&self, event: E)
        requires
            self.wf(),
        ensures
            self.emits(event),
            self.has_channel::<E>() ==> exists|sender: Arc<broadcast::Sender<E>>| #[trigger]
                self.carries(sender),
    {
        if let Some(sender) = self.sender::<E>() {
            let ghost given = event;
            let reached: usize = send_event(&*sender, event);
            proof {
                assert(call_ensures(send_event::<E>, (&*sender, given), reached));
                assert(self.carries(sender) && sends(*sender, given));
                assert(self.emits(given));
            }
        }
    }

    /// Subscribes to events of type `E` where the channel for it has been created: what
    /// can be done through a shared reference.
    pub fn try_subscribe<E: Event>(&self) -> (receiver: Option<broadcast::Receiver<E>>)
        requires
            self.wf(),
        ensures
            receiver is Some <==> self.has_channel::<E>(),
            receiver matches Some(receiver) ==> self.subscribes(*self, receiver),
    {
        match self.sender::<E>() {
            Some(sender) => {
                let receiver = new_receiver(&*sender);
                assert(self.carries(sender) && receives(receiver, *sender));
                Some(receiver)
            },
            None => None,
        }
    }

    /// Subscribing to `E` gives `receiver` and leaves `after`: a channel that is there is
    /// used, and otherwise one is opened. The channels of other types stay as they are.
    pub open spec fn subscribes<E: Event>(
        self,
        after: Self,
        receiver: broadcast::Receiver<E>,
    ) -> bool {
        let key = type_key::<broadcast::Sender<E>>();
        &&& after.depth() == self.depth()
        &&& exists|sender: Arc<broadcast::Sender<E>>| #[trigger]
            after.carries(sender) && receives(receiver, *sender) && (!self.has_channel::<E>()
                ==> opens(self.depth(), *sender))
        &&& if self.has_channel::<E>() {
            after.channels() == self.channels()
        } else {
            after.channels() == self.channels().insert(key, after.channels()[key])
        }
    }

    /// Subscribes to events of type `E`.
    ///
    /// The channel for `E` is created on demand on the first call. Each receiver sees
    /// only events emitted after it subscribed; there is no replay.
    pub fn subscribe<E: Event>(&mut self) -> (receiver: broadcast::Receiver<E>)
        requires
            old(self).wf(),
            0 < old(self).depth() <= usize::MAX / 2,
        ensures
            final(self).wf(),
            old(self).subscribes(*final(self), receiver),
    {
        if let Some(receiver) = self.try_subscribe::<E>() {
            return receiver;
        }
        let key = key_of::<broadcast::Sender<E>>();
        let sender = Arc::new(open_channel::<E>(self.capacity));
        let channel = erase_shared(&sender);
        proof {
            lemma_erased_is_shared(sender, channel);
        }
        let _ = channel_or_insert(&mut self.channels, key, channel);
        proof {
            assert(self.channels() == old(self).channels().insert(key, channel));
            assert(self.carries(sender));
            assert(opens(old(self).depth(), *sender));
        }
        let receiver = new_receiver(&*sender);
        assert(receives(receiver, *sender));
        receiver
    }

    /// Number of registered event types, one channel per type.
    pub fn registered_type_count(&self) -> (count: usize)
        ensures
            count == self.channels().dom().len(),
    {
        channel_count(&self.channels)
    }
}

impl Default for ProcessEventBus {
    fn default() -> (bus: Self)
        ensures
            bus.wf(),
            bus.channels().dom() == Set::<TypeId>::empty(),
            bus.depth() == DEFAULT_CAPACITY,
    {
        ProcessEventBus::new()
    }
}

/// Process-wide marker for runtimes that publish shutdown initiation alongside
/// cancellation of their shutdown token.
#[derive(Clone, Debug)]
pub struct ShutdownInitiated;

impl Event for ShutdownInitiated {

}

/// Subscribers of one type share a channel: after somebody has subscribed to `E`, the
/// next one opens no other, and both listen to the same sender.
pub proof fn law_subscribers_share_a_channel<E: Event>(
    start: ProcessEventBus,
    middle: ProcessEventBus,
    first: broadcast::Receiver<E>,
    end: ProcessEventBus,
    second: broadcast::Receiver<E>,
)
    requires
        start.subscribes(middle, first),
        middle.subscribes(end, second),
    ensures
        middle.has_channel::<E>(),
        end.channels() == middle.channels(),
{
}

/// A subscriber is reached: an event that is emitted after somebody has subscribed to its
/// type goes through the channel that they listen to.
pub proof fn law_subscriber_is_reached<E: Event>(
    before: ProcessEventBus,
    after: ProcessEventBus,
    receiver: broadcast::Receiver<E>,
    event: E,
)
    requires
        before.subscribes(after, receiver),
        after.emits(event),
    ensures
        exists|sender: Arc<broadcast::Sender<E>>| #[trigger]
            after.carries(sender) && receives(receiver, *sender) && sends(*sender, event),
{
}

/// Types do not mix: subscribing to `E` neither opens nor changes the channel of
/// another type.
pub proof fn law_types_have_their_own_channels<E: Event, F: Event>(
    before: ProcessEventBus,
    after: ProcessEventBus,
    receiver: broadcast::Receiver<E>,
)
    requires
        before.subscribes(after, receiver),
        type_key::<broadcast::Sender<F>>() != type_key::<broadcast::Sender<E>>(),
    ensures
        after.has_channel::<F>() == before.has_channel::<F>(),
        forall|sender: Arc<broadcast::Sender<F>>| #[trigger]
            after.carries(sender) == before.carries(sender),
{
}

/// A new event type adds one to the number of registered types, a known one adds nothing.
pub proof fn law_subscribing_counts_types<E: Event>(
    before: ProcessEventBus,
    after: ProcessEventBus,
    receiver: broadcast::Receiver<E>,
)
    requires
        before.wf(),
        before.subscribes(after, receiver),
    ensures
        after.channels().dom().len() == before.channels().dom().len() + if before.has_channel::<
            E,
        >() {
            0nat
        } else {
            1
        },
{
    if !before.has_channel::<E>() {
        let key = type_key::<broadcast::Sender<E>>();
        assert(after.channels().dom() == before.channels().dom().insert(key));
    }
}

impl ProcessEventBus {
    /// A subscription to the type that goes by `key` leaves `after`: there is a channel for
    /// it, and every channel that was there is still the same.
    pub open spec fn grows(self, after: Self, key: TypeId) -> bool {
        &&& after.channels().dom() == self.channels().dom().insert(key)
        &&& forall|known: TypeId| #[trigger]
            self.channels().contains_key(known) ==> after.channels()[known]
                == self.channels()[known]
    }
}

/// Subscribing to `E` is a subscription to the type that goes by the identifier of its
/// sender.
pub proof fn law_subscribing_grows_the_bus<E: Event>(
    before: ProcessEventBus,
    after: ProcessEventBus,
    receiver: broadcast::Receiver<E>,
)
    requires
        before.subscribes(after, receiver),
    ensures
        before.grows(after, type_key::<broadcast::Sender<E>>()),
{
    let key = type_key::<broadcast::Sender<E>>();
    if before.has_channel::<E>() {
        assert(before.channels().dom().insert(key) =~= before.channels().dom());
    } else {
        assert(after.channels().dom() =~= before.channels().dom().insert(key));
    }
}

/// What a bus becomes, from new on, through subscriptions to the types that go by `keys`.
/// Emitting changes nothing.
pub open spec fn is_history(run: Seq<ProcessEventBus>, keys: Seq<TypeId>) -> bool {
    &&& run.len() == keys.len() + 1
    &&& run[0].channels().dom() == Set::<TypeId>::empty()
    &&& forall|k: int| 0 <= k < keys.len() ==> #[trigger] grows_at(run, keys, k)
}

/// Subscription `k` of the history.
pub open spec fn grows_at(run: Seq<ProcessEventBus>, keys: Seq<TypeId>, k: int) -> bool {
    run[k].grows(run[k + 1], keys[k])
}

/// The registered types are those that have ever been subscribed to, each counted once.
pub proof fn law_registered_types_are_those_subscribed(
    run: Seq<ProcessEventBus>,
    keys: Seq<TypeId>,
    k: int,
)
    requires
        is_history(run, keys),
        0 <= k <= keys.len(),
    ensures
        run[k].channels().dom() == keys.take(k).to_set(),
    decreases k,
{
    if k == 0 {
        assert(keys.take(0).to_set() =~= Set::<TypeId>::empty());
    } else {
        law_registered_types_are_those_subscribed(run, keys, k - 1);
        assert(grows_at(run, keys, k - 1));
        let earlier = keys.take(k - 1);
        let last = keys[k - 1];
        let longer = earlier.push(last);
        assert(keys.take(k) == longer);
        assert forall|key: TypeId| #[trigger]
            longer.contains(key) <==> earlier.contains(key) || key == last by {
            if earlier.contains(key) {
                let i = earlier.index_of(key);
                assert(longer[i] == key);
            }
            assert(longer[k - 1] == last);
        }
        assert(longer.to_set() =~= earlier.to_set().insert(last));
    }
}

/// A channel is opened once and stays.
proof fn lemma_channels_stay(
    run: Seq<ProcessEventBus>,
    keys: Seq<TypeId>,
    from: int,
    k: int,
    key: TypeId,
)
    requires
        is_history(run, keys),
        0 <= from <= k < run.len(),
        run[from].channels().contains_key(key),
    ensures
        run[k].channels().contains_key(key),
        run[k].channels()[key] == run[from].channels()[key],
    decreases k,
{
    if k > from {
        lemma_channels_stay(run, keys, from, k - 1, key);
        assert(grows_at(run, keys, k - 1));
        assert(run[k].channels().dom().contains(key));
    }
}

/// A subscriber stays reached: every event of the type that is emitted at any time after the
/// subscription, whoever has subscribed to whatever in between, goes through the channel
/// that the subscriber listens to.
pub proof fn law_subscriber_stays_reached<E: Event>(
    run: Seq<ProcessEventBus>,
    keys: Seq<TypeId>,
    at: int,
    receiver: broadcast::Receiver<E>,
    k: int,
    event: E,
)
    requires
        is_history(run, keys),
        0 <= at < k < run.len(),
        run[at].subscribes(run[at + 1], receiver),
        run[k].emits(event),
    ensures
        exists|sender: Arc<broadcast::Sender<E>>| #[trigger]
            run[k].carries(sender) && receives(receiver, *sender) && sends(*sender, event),
{
    let sender = choose|sender: Arc<broadcast::Sender<E>>| #[trigger]
        run[at + 1].carries(sender) && receives(receiver, *sender);
    lemma_channels_stay(run, keys, at + 1, k, type_key::<broadcast::Sender<E>>());
    assert(run[k].carries(sender));
}

/// A bus that was made without a capacity can be subscribed to: what it keeps for a slow
/// subscriber is within what a channel takes.
pub proof fn law_default_bus_can_be_subscribed_to(bus: ProcessEventBus)
    requires
        call_ensures(ProcessEventBus::new, (), bus),
    ensures
        0 < bus.depth() <= usize::MAX / 2,
        bus.depth() == 64,
        forall|key: TypeId| !bus.channels().contains_key(key),
{
    assert(bus.channels().dom() == Set::<TypeId>::empty());
    assert forall|key: TypeId| !bus.channels().contains_key(key) by {
        assert(!bus.channels().dom().contains(key));
    }
}

} // verus!

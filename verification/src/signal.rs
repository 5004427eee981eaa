//! Signals that are given once, over `tokio`'s watch channel.
use tokio::sync::watch;
use vstd::prelude::*;

verus! {

/// `tokio::sync::watch::Sender`, the writing half of a watch channel.
#[verifier::external_type_specification]
#[verifier::external_body]
#[verifier::reject_recursive_types(T)]
pub struct ExWatchSender<T>(watch::Sender<T>);

/// `tokio::sync::watch::Receiver`, a reading half of a watch channel.
#[verifier::external_type_specification]
#[verifier::external_body]
#[verifier::reject_recursive_types(T)]
pub struct ExWatchReceiver<T>(watch::Receiver<T>);

/// The value that the channel of this sender holds.
pub uninterp spec fn watched(sender: watch::Sender<bool>) -> bool;

/// `receiver` is a reading half of the channel that `sender` writes to.
pub uninterp spec fn listens_to(receiver: watch::Receiver<bool>, sender: watch::Sender<bool>) -> bool;

/// Calls `watch::Sender::new`, which makes a channel that holds the given value.
#[verifier::external_body]
fn new_watch(value: bool) -> (sender: watch::Sender<bool>)
    ensures
        watched(sender) == value,
{
    watch::Sender::new(value)
}

/// Calls `watch::Sender::send_replace`, after which the channel holds the new value,
/// whether or not anybody listens, and has the same receivers as before. It takes the
/// sender exclusively: no other sender of the channel exists. The call waits for as long
/// as somebody holds a `borrow` of a receiver.
#[verifier::external_body]
fn replace_watched(sender: &mut watch::Sender<bool>, value: bool)
    ensures
        watched(*final(sender)) == value,
        forall|receiver: watch::Receiver<bool>| #[trigger]
            listens_to(receiver, *old(sender)) ==> listens_to(receiver, *final(sender)),
{
    sender.send_replace(value);
}

/// Calls `watch::Sender::borrow`, which reads the value that the channel holds.
#[verifier::external_body]
fn read_watched(sender: &watch::Sender<bool>) -> (value: bool)
    ensures
        value == watched(*sender),
{
    *sender.borrow()
}

/// Calls `watch::Sender::subscribe`, which makes a receiver of the same channel. What
/// the receiver will see is left unsaid: it lies in the future of the sender.
#[verifier::external_body]
fn listen(sender: &watch::Sender<bool>) -> (receiver: watch::Receiver<bool>)
    ensures
        listens_to(receiver, *sender),
{
    sender.subscribe()
}

/// What one who waits for a signal is told has happened.
pub enum SignalEvent {
    /// The wait begins.
    Begin,
    /// The channel was read and holds this value.
    Value(bool),
    /// The value has changed since it was read.
    Changed,
    /// The signal is gone, so that the value cannot change any more.
    Closed,
}

/// What one who waits for a signal does next.
pub enum SignalStep {
    /// Read the channel.
    Read,
    /// Wait for the value to change.
    WaitForChange,
    /// Stop waiting.
    Done,
}

/// A signal that is given once and stays given.
pub struct NotifyOnce {
    sender: watch::Sender<bool>,
}

impl NotifyOnce {
    /// The signal has been given.
    pub closed spec fn is_given(self) -> bool {
        watched(self.sender)
    }

    /// `receiver` learns of this signal.
    pub closed spec fn reaches(self, receiver: watch::Receiver<bool>) -> bool {
        listens_to(receiver, self.sender)
    }

    /// Gives the signal and wakes all who wait for it.
    pub fn notify_waiters(&mut self)
        ensures
            final(self).is_given(),
            forall|receiver: watch::Receiver<bool>| #[trigger]
                old(self).reaches(receiver) ==> final(self).reaches(receiver),
    {
        replace_watched(&mut self.sender, true);
    }

    pub fn is_notified(&self) -> (yes: bool)
        ensures
            yes == self.is_given(),
    {
        read_watched(&self.sender)
    }

    /// Waits for the signal: what one who waits does after an event. The wait ends when
    /// the signal is seen, or can no longer be given.
    pub fn notified(event: SignalEvent) -> (step: SignalStep)
        ensures
            step is Done <==> event == SignalEvent::Value(true) || event is Closed,
            step is WaitForChange <==> event == SignalEvent::Value(false),
            step is Read <==> event is Begin || event is Changed,
    {
        match event {
            SignalEvent::Begin => SignalStep::Read,
            SignalEvent::Changed => SignalStep::Read,
            SignalEvent::Value(given) => if given {
                SignalStep::Done
            } else {
                SignalStep::WaitForChange
            },
            SignalEvent::Closed => SignalStep::Done,
        }
    }

    /// A receiver to wait for the signal with: it holds `true` once the signal is given. Do
    /// not hold a `borrow` of it while the signal is given: [`NotifyOnce::notify_waiters`]
    /// waits until the value is no longer read, and on the same thread that is never.
    pub fn subscribe(&self) -> (receiver: watch::Receiver<bool>)
        ensures
            self.reaches(receiver),
    {
        listen(&self.sender)
    }
}

impl Default for NotifyOnce {
    fn default() -> (signal: Self)
        ensures
            !signal.is_given(),
    {
        NotifyOnce { sender: new_watch(false) }
    }
}

/// A wait for a signal does not end early and does not go on late: it ends when the signal has
/// been seen, or can no longer be given, and every change is looked at before it goes on.
pub proof fn law_wait_ends_with_the_signal(value: bool, seen: SignalStep, changed: SignalStep)
    requires
        call_ensures(NotifyOnce::notified, (SignalEvent::Value(value),), seen),
        call_ensures(NotifyOnce::notified, (SignalEvent::Changed,), changed),
    ensures
        value ==> seen is Done,
        !value ==> seen is WaitForChange,
        changed is Read,
{
}

} // verus!

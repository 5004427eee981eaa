//! Graceful shutdown gate primitive.
//!
//! A gate admits work up to a limit, tracks what is in flight, and closes in two
//! phases: a sticky graceful signal that stops admission, and a forced signal for
//! what has not left when the grace period is over. It is not tied to any protocol.
//!
//! A [`Gate`] is the state behind such a primitive. Waiting, waking and the clock
//! belong to the caller: [`Gate::enter`] and [`Gate::wait_all_done`] are told what
//! happened and say what is to be done.
use std::time::Duration;

use tokio::sync::watch;
use vstd::prelude::*;

use crate::signal::NotifyOnce;
use crate::span::{as_nanos, from_millis, minus};
#[allow(unused_imports)]
use crate::span::nanos_of;

verus! {

/// Why an entrant was not let in.
#[derive(Debug)]
pub enum Error {
    ShuttingDown,
    AcquireTimeout(Duration),
    AtCapacity,
}

/// Result of waiting for accepted work to leave a [`Gate`].
#[derive(Clone, Copy, Debug, PartialEq, Eq, Structural)]
#[must_use]
pub enum GateDrainOutcome {
    /// Every permit was released without forcing shutdown.
    Drained,
    /// The grace period elapsed and the hard-shutdown signal was sent.
    Forced { remaining: usize },
}

/// The right to be inside the [`Gate`] that gave it. It is given back with
/// [`Gate::leave`].
pub struct Permit {
    gate: Ghost<int>,
}

/// A slot of a [`Gate`] that has been counted but not settled yet.
pub struct Claim {
    admitted: bool,
    gate: Ghost<int>,
}

/// What an entrant is told has happened.
pub enum EnterEvent {
    /// Try to enter: at first, or again after a slot was released.
    Attempt,
    /// The clock was read: so much time has passed since the first attempt.
    Elapsed(Duration),
    /// The graceful signal was given while the entrant waited.
    GracefulShutdown,
    /// The remaining time passed while the entrant waited.
    TimedOut,
}

/// What an entrant does next.
pub enum EnterStep {
    /// Come in.
    Admitted(Permit),
    /// Go away.
    Refused(Error),
    /// Read the clock.
    ReadClock,
    /// Wait for the graceful signal, for a release, or for this long.
    Wait(Duration),
}

/// What one who waits for a gate to empty is told has happened.
pub enum DrainEvent {
    /// The wait begins.
    Begin,
    /// The grace period has elapsed.
    GraceElapsed,
    /// The last permit was given back.
    AllDone,
}

/// What one who waits for a gate to empty does next.
pub enum DrainStep {
    /// Stop waiting.
    Done(GateDrainOutcome),
    /// Wait for the last permit, or for this long.
    WaitFor(Duration),
    /// Wait for the last permit.
    WaitForever,
}

/// The state of a gate.
pub struct Gate {
    graceful: NotifyOnce,
    shutdown: NotifyOnce,
    all_done: NotifyOnce,
    count: usize,
    grace_period: Option<Duration>,
    acquire_timeout: Duration,
    max_count: Option<usize>,
    live: Ghost<nat>,
    admitted: Ghost<nat>,
    refused: Ghost<nat>,
    identity: Ghost<int>,
}

impl Permit {
    /// Which [`Gate`] gave this permit: its identity.
    pub closed spec fn origin(self) -> int {
        self.gate@
    }

    /// This permit was given by `gate`.
    pub open spec fn is_of(self, gate: Gate) -> bool {
        self.origin() == gate.identity()
    }
}

impl Gate {
    /// Which gate this is. It says what a permit or a claim belongs to and nothing else.
    pub closed spec fn identity(self) -> int {
        self.identity@
    }

    /// The number of counted slots.
    pub closed spec fn counted(self) -> nat {
        self.count as nat
    }

    /// How many permits are out.
    pub closed spec fn live(self) -> nat {
        self.live@
    }

    /// How many claims have a slot and are not settled yet.
    pub closed spec fn admitted(self) -> nat {
        self.admitted@
    }

    /// How many claims have no slot and have not backed out yet.
    pub closed spec fn refused(self) -> nat {
        self.refused@
    }

    /// The most permits that may be out at once.
    pub closed spec fn limit(self) -> Option<usize> {
        self.max_count
    }

    /// How long an entrant waits for a slot.
    pub closed spec fn patience(self) -> Duration {
        self.acquire_timeout
    }

    /// The graceful signal has been given.
    pub closed spec fn is_closing(self) -> bool {
        self.graceful.is_given()
    }

    /// The forced signal has been given.
    pub closed spec fn is_forced(self) -> bool {
        self.shutdown.is_given()
    }

    /// The signal that the last permit was given back has been given.
    pub closed spec fn is_all_done(self) -> bool {
        self.all_done.is_given()
    }

    /// The grace period that was recorded last. `None` is an indefinite one.
    pub closed spec fn grace(self) -> Option<Duration> {
        self.grace_period
    }

    /// Every permit and every unsettled claim is counted, and never are more admitted
    /// than the limit allows.
    pub closed spec fn wf(self) -> bool {
        &&& self.count == self.live@ + self.admitted@ + self.refused@
        &&& self.max_count matches Some(max) ==> self.live@ + self.admitted@ <= max
        &&& self.max_count is None ==> self.refused@ == 0
        &&& self.all_done.is_given() ==> self.graceful.is_given()
    }

    /// Whoever was going to learn of a signal still is.
    pub open spec fn same_listeners(self, after: Self) -> bool {
        &&& forall|receiver: watch::Receiver<bool>| #[trigger]
            self.reports_closing(receiver) ==> after.reports_closing(receiver)
        &&& forall|receiver: watch::Receiver<bool>| #[trigger]
            self.reports_forced(receiver) ==> after.reports_forced(receiver)
        &&& forall|receiver: watch::Receiver<bool>| #[trigger]
            self.reports_all_done(receiver) ==> after.reports_all_done(receiver)
    }

    /// Nothing but the counters, and the signal that all is done, can differ.
    pub open spec fn same_frame(self, after: Self) -> bool {
        &&& after.limit() == self.limit()
        &&& after.patience() == self.patience()
        &&& after.identity() == self.identity()
        &&& after.grace() == self.grace()
        &&& after.is_closing() == self.is_closing()
        &&& after.is_forced() == self.is_forced()
        &&& self.same_listeners(after)
    }

    /// Nothing but the signals and the grace period can differ.
    pub open spec fn same_counts(self, after: Self) -> bool {
        &&& after.counted() == self.counted()
        &&& after.live() == self.live()
        &&& after.admitted() == self.admitted()
        &&& after.refused() == self.refused()
        &&& after.limit() == self.limit()
        &&& after.patience() == self.patience()
        &&& after.identity() == self.identity()
        &&& self.same_listeners(after)
    }

    /// Creates a gate.
    ///
    /// - `max_count`: the most permits at once (`None`: unlimited)
    /// - `acquire_timeout`: how long to wait for a slot when at capacity
    pub fn new(max_count: Option<usize>, acquire_timeout: Duration) -> (gate: Self)
        ensures
            gate.wf(),
            gate.counted() == 0,
            gate.live() == 0,
            gate.admitted() == 0,
            gate.refused() == 0,
            gate.limit() == max_count,
            gate.patience() == acquire_timeout,
            gate.grace() is None,
            !gate.is_closing(),
            !gate.is_forced(),
            !gate.is_all_done(),
    {
        Gate {
            graceful: NotifyOnce::default(),
            shutdown: NotifyOnce::default(),
            all_done: NotifyOnce::default(),
            count: 0,
            grace_period: None,
            acquire_timeout,
            max_count,
            live: Ghost(0),
            admitted: Ghost(0),
            refused: Ghost(0),
            identity: Ghost(arbitrary()),
        }
    }

    /// The grace period, if there is one.
    pub fn grace_period(&self) -> (period: Option<Duration>)
        ensures
            period == self.grace(),
    {
        self.grace_period
    }

    /// The number of counted slots. It can be above the limit for as long as a refused
    /// claim takes to back out.
    pub fn count(&self) -> (count: usize)
        ensures
            count == self.counted(),
    {
        self.count
    }

    /// Giving the forced signal leaves `after`.
    pub open spec fn forces(self, after: Self) -> bool {
        &&& after.is_forced()
        &&& self.same_counts(after)
        &&& after.grace() == self.grace()
        &&& after.is_closing() == self.is_closing()
        &&& after.is_all_done() == self.is_all_done()
    }

    /// Gives the **forced** signal. This is due when the grace period has elapsed.
    pub fn force_shutdown(&mut self)
        requires
            old(self).wf(),
        ensures
            final(self).wf(),
            old(self).forces(*final(self)),
    {
        self.shutdown.notify_waiters();
    }

    /// Beginning the graceful phase with the grace period `period` leaves `after`.
    pub open spec fn closes(self, period: Option<Duration>, after: Self) -> bool {
        &&& after.is_closing()
        &&& after.grace() == period
        &&& self.same_counts(after)
        &&& after.is_forced() == self.is_forced()
        &&& after.is_all_done() == self.is_all_done()
    }

    /// Beginning the graceful phase, with whatever grace period, leaves `after`.
    pub open spec fn begins_closing(self, after: Self) -> bool {
        exists|period: Option<Duration>| #[trigger] self.closes(period, after)
    }

    /// Begins the graceful phase: gives the graceful signal and records the grace
    /// period. This does **not** imply the forced signal.
    ///
    /// `None` means an indefinite grace period, for critical tasks.
    pub fn graceful_shutdown(&mut self, duration: Option<Duration>)
        requires
            old(self).wf(),
        ensures
            final(self).wf(),
            final(self).grace() == duration,
            old(self).closes(duration, *final(self)),
    {
        self.grace_period = duration;
        self.graceful.notify_waiters();
    }

    pub fn is_shutting_down(&self) -> (yes: bool)
        ensures
            yes == self.is_closing(),
    {
        self.graceful.is_notified()
    }

    /// `receiver` learns of the forced signal.
    pub closed spec fn reports_forced(self, receiver: watch::Receiver<bool>) -> bool {
        self.shutdown.reaches(receiver)
    }

    /// `receiver` learns of the graceful signal.
    pub closed spec fn reports_closing(self, receiver: watch::Receiver<bool>) -> bool {
        self.graceful.reaches(receiver)
    }

    /// `receiver` learns that the last permit was given back.
    pub closed spec fn reports_all_done(self, receiver: watch::Receiver<bool>) -> bool {
        self.all_done.reaches(receiver)
    }

    /// A receiver to wait for the **forced** signal with. It does *not* fire for a
    /// clean drain. Do not hold a `borrow` of it while the signal is given: giving it
    /// waits until the value is no longer read.
    pub fn wait_forced_shutdown(&self) -> (receiver: watch::Receiver<bool>)
        ensures
            self.reports_forced(receiver),
    {
        self.shutdown.subscribe()
    }

    /// A receiver to wait for the graceful signal with. Do not hold a `borrow` of it
    /// while the signal is given: giving it waits until the value is no longer read.
    pub fn wait_graceful_shutdown(&self) -> (receiver: watch::Receiver<bool>)
        ensures
            self.reports_closing(receiver),
    {
        self.graceful.subscribe()
    }

    /// A receiver to wait for the last permit with, once the graceful phase has begun. Do
    /// not hold a `borrow` of it while the last permit is given back: giving the signal
    /// waits until the value is no longer read.
    pub fn drained(&self) -> (receiver: watch::Receiver<bool>)
        ensures
            self.reports_all_done(receiver),
    {
        self.all_done.subscribe()
    }

    /// There is room for one more.
    pub open spec fn has_room(self) -> bool {
        match self.limit() {
            Some(max) => self.counted() < max,
            None => true,
        }
    }

    /// Counting a slot gives `claim` and leaves `after`.
    pub open spec fn claims(self, after: Self, claim: Claim) -> bool {
        &&& self.same_frame(after)
        &&& after.is_all_done() == self.is_all_done()
        &&& after.counted() == self.counted() + 1
        &&& after.live() == self.live()
        &&& claim.is_of(self)
        &&& claim.has_slot() == self.has_room()
        &&& after.admitted() == self.admitted() + if claim.has_slot() {
            1nat
        } else {
            0
        }
        &&& after.refused() == self.refused() + if claim.has_slot() {
            0nat
        } else {
            1
        }
    }

    /// Counts a slot first. What the count was before decides whether the slot was
    /// there, so that no two claims can have the same one.
    pub fn claim(&mut self) -> (claim: Claim)
        requires
            old(self).wf(),
            old(self).counted() < usize::MAX,
        ensures
            final(self).wf(),
            old(self).claims(*final(self), claim),
    {
        let previous: usize = self.count;
        self.count = previous + 1;
        let admitted = match self.max_count {
            Some(max) => previous < max,
            None => true,
        };
        proof {
            if admitted {
                self.admitted@ = self.admitted@ + 1;
            } else {
                self.refused@ = self.refused@ + 1;
            }
        }
        Claim { admitted, gate: Ghost(self.identity@) }
    }

    /// Settling `claim` gives `result` and leaves `after`. Where the last slot of the
    /// graceful phase is given back here, the drain ends.
    pub open spec fn settles(
        self,
        after: Self,
        claim: Claim,
        result: Result<Permit, Error>,
    ) -> bool {
        &&& self.same_frame(after)
        &&& if claim.has_slot() {
            &&& result matches Ok(permit)
            &&& permit.is_of(self)
            &&& after.is_all_done() == self.is_all_done()
            &&& after.counted() == self.counted()
            &&& after.live() == self.live() + 1
            &&& after.admitted() == self.admitted() - 1
            &&& after.refused() == self.refused()
        } else {
            &&& result == Err::<Permit, Error>(Error::AtCapacity)
            &&& after.is_all_done() == (self.is_all_done() || (after.counted() == 0
                && self.is_closing()))
            &&& after.counted() == self.counted() - 1
            &&& after.live() == self.live()
            &&& after.admitted() == self.admitted()
            &&& after.refused() == self.refused() - 1
        }
    }

    /// Turns a claim of this gate into a permit, or gives its slot back.
    pub fn settle(&mut self, claim: Claim) -> (result: Result<Permit, Error>)
        requires
            old(self).wf(),
            claim.is_of(*old(self)),
            claim.has_slot() ==> old(self).admitted() > 0,
            !claim.has_slot() ==> old(self).refused() > 0,
        ensures
            final(self).wf(),
            old(self).settles(*final(self), claim, result),
    {
        if claim.admitted {
            proof {
                self.admitted@ = (self.admitted@ - 1) as nat;
                self.live@ = self.live@ + 1;
            }
            Ok(Permit { gate: Ghost(self.identity@) })
        } else {
            self.count = self.count - 1;
            proof {
                self.refused@ = (self.refused@ - 1) as nat;
            }
            if self.count == 0 && self.graceful.is_notified() {
                self.all_done.notify_waiters();
            }
            Err(Error::AtCapacity)
        }
    }

    /// Trying to enter gives `result` and leaves `after`: refused once the graceful
    /// phase has begun, or at capacity, and admitted otherwise.
    pub open spec fn tries(self, after: Self, result: Result<Permit, Error>) -> bool {
        &&& self.same_frame(after)
        &&& after.is_all_done() == self.is_all_done()
        &&& after.admitted() == self.admitted()
        &&& after.refused() == self.refused()
        &&& if self.is_closing() {
            result == Err::<Permit, Error>(Error::ShuttingDown)
        } else if !self.has_room() {
            result == Err::<Permit, Error>(Error::AtCapacity)
        } else {
            result matches Ok(permit) && permit.is_of(self)
        }
        &&& after.live() == self.live() + if result is Ok {
            1nat
        } else {
            0
        }
        &&& after.counted() == self.counted() + if result is Ok {
            1nat
        } else {
            0
        }
    }

    /// An entrant can be dealt with: it is turned away, or one more can be counted. Only an
    /// unlimited gate can run out of numbers.
    pub open spec fn can_try(self) -> bool {
        self.is_closing() || self.limit() is Some || self.counted() < usize::MAX
    }

    /// Tries to enter immediately without waiting for capacity.
    ///
    /// This is where the limit is enforced, for both doors: [`Gate::enter`] waits and
    /// retries around this rather than testing the count itself.
    pub fn try_enter(&mut self) -> (result: Result<Permit, Error>)
        requires
            old(self).wf(),
            old(self).can_try(),
        ensures
            final(self).wf(),
            old(self).tries(*final(self), result),
    {
        if self.graceful.is_notified() {
            return Err(Error::ShuttingDown);
        }
        if self.count == usize::MAX {
            return Err(Error::AtCapacity);
        }
        let claim = self.claim();
        self.settle(claim)
    }

    /// What follows for an entrant from an event.
    pub open spec fn on_enter(self, event: EnterEvent, after: Self, step: EnterStep) -> bool {
        match event {
            EnterEvent::Attempt => {
                exists|result: Result<Permit, Error>| #[trigger]
                    self.tries(after, result) && match result {
                        Ok(permit) => step == EnterStep::Admitted(permit),
                        Err(Error::AtCapacity) => step is ReadClock,
                        Err(error) => step == EnterStep::Refused(error),
                    }
            },
            EnterEvent::Elapsed(elapsed) => {
                &&& after == self
                &&& if nanos_of(elapsed) >= nanos_of(self.patience()) {
                    step == EnterStep::Refused(Error::AcquireTimeout(self.patience()))
                } else {
                    step matches EnterStep::Wait(remaining) && nanos_of(remaining) == nanos_of(
                        self.patience(),
                    ) - nanos_of(elapsed)
                }
            },
            EnterEvent::GracefulShutdown => {
                &&& after == self
                &&& step == EnterStep::Refused(Error::ShuttingDown)
            },
            EnterEvent::TimedOut => {
                &&& after == self
                &&& step == EnterStep::Refused(Error::AcquireTimeout(self.patience()))
            },
        }
    }

    /// Enters, waiting up to the acquire timeout where there is no room:
    /// what an entrant does after an event. Shutdown interrupts the wait immediately.
    pub fn enter(&mut self, event: EnterEvent) -> (step: EnterStep)
        requires
            old(self).wf(),
            event is Attempt ==> old(self).can_try(),
        ensures
            final(self).wf(),
            old(self).on_enter(event, *final(self), step),
    {
        match event {
            EnterEvent::Attempt => {
                let result = self.try_enter();
                assert(old(self).tries(*self, result));
                match result {
                    Ok(permit) => EnterStep::Admitted(permit),
                    Err(Error::AtCapacity) => EnterStep::ReadClock,
                    Err(error) => EnterStep::Refused(error),
                }
            },
            EnterEvent::Elapsed(elapsed) => {
                if as_nanos(&elapsed) >= as_nanos(&self.acquire_timeout) {
                    EnterStep::Refused(Error::AcquireTimeout(self.acquire_timeout))
                } else {
                    EnterStep::Wait(minus(&self.acquire_timeout, &elapsed))
                }
            },
            EnterEvent::GracefulShutdown => EnterStep::Refused(Error::ShuttingDown),
            EnterEvent::TimedOut => EnterStep::Refused(
                Error::AcquireTimeout(self.acquire_timeout),
            ),
        }
    }

    /// Giving a permit back leaves `after`, and `wake` says whether those who wait for a
    /// slot have to be woken. The last permit of the graceful phase ends the drain.
    pub open spec fn leaves(self, after: Self, wake: bool) -> bool {
        &&& self.same_frame(after)
        &&& after.counted() == self.counted() - 1
        &&& after.live() == self.live() - 1
        &&& after.admitted() == self.admitted()
        &&& after.refused() == self.refused()
        &&& after.is_all_done() == (self.is_all_done() || (after.counted() == 0
            && self.is_closing()))
        &&& wake == match self.limit() {
            Some(max) => after.counted() < max,
            None => false,
        }
    }

    /// Takes a permit of this gate back.
    pub fn leave(&mut self, permit: Permit) -> (wake: bool)
        requires
            old(self).wf(),
            permit.is_of(*old(self)),
            old(self).live() > 0,
        ensures
            final(self).wf(),
            old(self).leaves(*final(self), wake),
    {
        let Permit { gate: _ } = permit;
        self.count = self.count - 1;
        proof {
            self.live@ = (self.live@ - 1) as nat;
        }
        if self.count == 0 && self.graceful.is_notified() {
            self.all_done.notify_waiters();
        }
        match self.max_count {
            Some(max) => self.count < max,
            None => false,
        }
    }

    /// What follows for one who waits for a gate to empty from an event.
    pub open spec fn on_drain(self, event: DrainEvent, after: Self, step: DrainStep) -> bool {
        match event {
            DrainEvent::Begin => {
                &&& after == self
                &&& if self.counted() == 0 {
                    step == DrainStep::Done(GateDrainOutcome::Drained)
                } else {
                    match self.grace() {
                        Some(duration) => step == DrainStep::WaitFor(duration),
                        None => step is WaitForever,
                    }
                }
            },
            DrainEvent::GraceElapsed => {
                &&& self.forces(after)
                &&& step == DrainStep::Done(
                    GateDrainOutcome::Forced { remaining: self.counted() as usize },
                )
            },
            DrainEvent::AllDone => {
                &&& after == self
                &&& step == DrainStep::Done(GateDrainOutcome::Drained)
            },
        }
    }

    /// Waits until all permits are given back, respecting the grace period: what one
    /// who waits does after an event. If the grace period elapses, the forced signal
    /// is given, and the outcome has the number of permits that remained.
    ///
    /// Call [`Gate::graceful_shutdown`] first. Before that the wait does not end, even
    /// once the last permit is gone: the signal for it is given once, and a permit
    /// released during ordinary operation would give it for good.
    pub fn wait_all_done(&mut self, event: DrainEvent) -> (step: DrainStep)
        requires
            old(self).wf(),
        ensures
            final(self).wf(),
            old(self).on_drain(event, *final(self), step),
    {
        match event {
            DrainEvent::Begin => {
                if self.count == 0 {
                    return DrainStep::Done(GateDrainOutcome::Drained);
                }
                match self.grace_period() {
                    Some(duration) => DrainStep::WaitFor(duration),
                    None => DrainStep::WaitForever,
                }
            },
            DrainEvent::GraceElapsed => {
                let remaining: usize = self.count;
                self.force_shutdown();
                DrainStep::Done(GateDrainOutcome::Forced { remaining })
            },
            DrainEvent::AllDone => DrainStep::Done(GateDrainOutcome::Drained),
        }
    }
}

impl Claim {
    /// The claim has a slot.
    pub closed spec fn has_slot(self) -> bool {
        self.admitted
    }

    /// At which [`Gate`] this claim was made: its identity.
    pub closed spec fn origin(self) -> int {
        self.gate@
    }

    /// This claim was made at `gate`.
    pub open spec fn is_of(self, gate: Gate) -> bool {
        self.origin() == gate.identity()
    }
}

/// How long an entrant waits for a slot, where nothing else is said.
pub fn default_acquire_timeout() -> (timeout: Duration)
    ensures
        nanos_of(timeout) == 100_000_000,
{
    from_millis(100)
}

/// An entrant is turned away for lack of room only where the counted slots reach the
/// limit. With no unsettled claim about, that means that the limit is used up.
pub proof fn law_refusal_means_full(gate: Gate, after: Gate)
    requires
        gate.wf(),
        gate.tries(after, Err(Error::AtCapacity)),
        gate.admitted() == 0,
        gate.refused() == 0,
    ensures
        gate.limit() == Some(gate.live() as usize),
{
}

/// The grace period is kept: what [`Gate::graceful_shutdown`] was given is what
/// [`Gate::grace_period`] and [`Gate::wait_all_done`] go by, whoever tries to enter or
/// leaves, until it is called again.
pub proof fn law_grace_period_is_kept(
    open: Gate,
    period: Option<Duration>,
    closing: Gate,
    later: Gate,
)
    requires
        open.closes(period, closing),
        closing.same_frame(later) || closing.forces(later),
    ensures
        closing.grace() == period,
        later.grace() == period,
        later.is_closing(),
{
}

/// One who enters with patience is let in or told why not: a shutdown has begun, or
/// the patience is used up. Being at capacity is no answer, and who is turned away takes
/// no slot.
pub proof fn law_enter_never_answers_full(
    before: Gate,
    event: EnterEvent,
    after: Gate,
    error: Error,
)
    requires
        before.on_enter(event, after, EnterStep::Refused(error)),
    ensures
        error is ShuttingDown || error == Error::AcquireTimeout(before.patience()),
        after.counted() == before.counted(),
        after.live() == before.live(),
{
}

/// Something was done to a gate, by whomever, that made `after` of it.
pub open spec fn moves(before: Gate, after: Gate) -> bool {
    ||| exists|claim: Claim| #[trigger] before.claims(after, claim)
    ||| exists|claim: Claim, result: Result<Permit, Error>| #[trigger]
        before.settles(after, claim, result)
    ||| exists|result: Result<Permit, Error>| #[trigger] before.tries(after, result)
    ||| exists|wake: bool| #[trigger] before.leaves(after, wake)
    ||| before.begins_closing(after)
    ||| before.forces(after)
}

/// `run` is what becomes of a gate, one move after the other.
pub open spec fn is_run(run: Seq<Gate>) -> bool {
    &&& run.len() > 0
    &&& run[0].wf()
    &&& forall|k: int| 0 < k < run.len() ==> #[trigger] is_move(run, k)
}

/// What stands at `k` comes from what stands before it by one move.
pub open spec fn is_move(run: Seq<Gate>, k: int) -> bool {
    moves(run[k - 1], run[k])
}

/// The graceful phase was begun, for the first time or again, on the way to what stands
/// at `k`.
pub open spec fn closed_on_the_way(run: Seq<Gate>, k: int) -> bool {
    exists|i: int| 0 < i <= k && #[trigger] run[i - 1].begins_closing(run[i])
}

/// The limit holds at every moment: however the claims, the settling, the entering and the
/// leaving of any number of tasks fall between one another, never are more permits out
/// than the limit allows, and every counted slot belongs to somebody.
pub proof fn law_limit_holds_in_every_run(run: Seq<Gate>, k: int)
    requires
        is_run(run),
        0 <= k < run.len(),
    ensures
        run[k].wf(),
        run[k].limit() == run[0].limit(),
        run[0].limit() matches Some(max) ==> run[k].live() + run[k].admitted() <= max,
        run[k].counted() == run[k].live() + run[k].admitted() + run[k].refused(),
    decreases k,
{
    if k > 0 {
        law_limit_holds_in_every_run(run, k - 1);
        assert(is_move(run, k));
        lemma_moves_keep_wf(run[k - 1], run[k]);
    }
}

/// A gate is closing exactly if the graceful phase has been begun: it does not close by
/// itself or by the forced signal, and does not open again.
pub proof fn law_only_a_shutdown_closes(run: Seq<Gate>, k: int)
    requires
        is_run(run),
        0 <= k < run.len(),
    ensures
        run[k].is_closing() <==> run[0].is_closing() || closed_on_the_way(run, k),
    decreases k,
{
    if k > 0 {
        law_only_a_shutdown_closes(run, k - 1);
        assert(is_move(run, k));
        if closed_on_the_way(run, k - 1) {
            let i = choose|i: int|
                0 < i <= k - 1 && #[trigger] run[i - 1].begins_closing(run[i]);
            assert(0 < i <= k && run[i - 1].begins_closing(run[i]));
        }
        if closed_on_the_way(run, k) && !run[k - 1].begins_closing(run[k]) {
            let i = choose|i: int| 0 < i <= k && #[trigger] run[i - 1].begins_closing(run[i]);
            assert(0 < i <= k - 1 && run[i - 1].begins_closing(run[i]));
        }
    }
}

/// The drain is signalled: once a gate is closing while slots are counted, so that somebody
/// may wait for it to empty, the signal that all is done has been given whenever no slot is
/// counted any more, whoever gave the last one back.
pub proof fn law_drain_is_signalled(run: Seq<Gate>, from: int, k: int)
    requires
        is_run(run),
        0 <= from <= k < run.len(),
        run[from].is_closing(),
        run[from].counted() > 0,
    ensures
        run[k].is_closing(),
        run[k].counted() == 0 ==> run[k].is_all_done(),
        run[k].is_all_done() || run[k].counted() > 0,
    decreases k,
{
    if k > from {
        law_drain_is_signalled(run, from, k - 1);
        assert(is_move(run, k));
    }
}

/// Each signal has its one reason: the forced signal is given by forcing alone, never by
/// closing, entering or leaving; the signal that all is done is given only when a gate is
/// closing and no slot is counted any more. No signal is taken back, and whoever listens for
/// one goes on listening.
pub proof fn law_signals_have_their_reasons(
    before: Gate,
    after: Gate,
    receiver: watch::Receiver<bool>,
)
    requires
        moves(before, after),
    ensures
        before.is_forced() ==> after.is_forced(),
        before.is_closing() ==> after.is_closing(),
        before.is_all_done() ==> after.is_all_done(),
        after.is_forced() && !before.is_forced() ==> before.forces(after),
        after.is_forced() && !before.is_forced() ==> after.counted() == before.counted()
            && after.is_closing() == before.is_closing() && after.grace() == before.grace(),
        after.is_all_done() && !before.is_all_done() ==> after.is_closing() && after.counted() == 0,
        after.limit() == before.limit(),
        after.patience() == before.patience(),
        before.reports_forced(receiver) ==> after.reports_forced(receiver),
        before.reports_closing(receiver) ==> after.reports_closing(receiver),
        before.reports_all_done(receiver) ==> after.reports_all_done(receiver),
{
}

/// Beginning the graceful phase sends nobody away: what is inside stays counted, and nothing
/// but the graceful signal is given.
pub proof fn law_closing_keeps_who_is_inside(open: Gate, period: Option<Duration>, closing: Gate)
    requires
        open.closes(period, closing),
    ensures
        closing.is_closing(),
        closing.grace() == period,
        closing.live() == open.live(),
        closing.counted() == open.counted(),
        closing.is_forced() == open.is_forced(),
        closing.is_all_done() == open.is_all_done(),
{
}

/// A permit and a claim belong to one gate for good: whatever is done there, they stay of
/// that gate.
pub proof fn law_permit_stays_with_its_gate(
    permit: Permit,
    claim: Claim,
    before: Gate,
    after: Gate,
)
    requires
        moves(before, after),
    ensures
        permit.is_of(before) <==> permit.is_of(after),
        claim.is_of(before) <==> claim.is_of(after),
{
}

proof fn lemma_moves_keep_wf(before: Gate, after: Gate)
    requires
        before.wf(),
        moves(before, after),
    ensures
        after.wf(),
        after.limit() == before.limit(),
{
}

/// Once the graceful phase has begun nobody is admitted any more.
pub proof fn law_closing_gate_admits_nobody(gate: Gate, after: Gate, result: Result<Permit, Error>)
    requires
        gate.is_closing(),
        gate.tries(after, result),
    ensures
        result == Err::<Permit, Error>(Error::ShuttingDown),
        after.live() == gate.live(),
        after.counted() == gate.counted(),
{
}

/// In and out again: a permit that is taken and given back leaves a gate as full as
/// it was.
pub proof fn law_permit_counts_one_slot(
    before: Gate,
    inside: Gate,
    permit: Permit,
    after: Gate,
    wake: bool,
)
    requires
        before.tries(inside, Ok(permit)),
        inside.leaves(after, wake),
    ensures
        inside.counted() == before.counted() + 1,
        after.counted() == before.counted(),
        after.live() == before.live(),
{
}

/// A slot that becomes free is never kept from those who wait for one: where a gate with a
/// limit has room after a permit was given back, they are woken, and who tries then is let in,
/// unless it is closing. A gate without a limit has nobody waiting.
pub proof fn law_free_slot_wakes_the_waiting(
    before: Gate,
    after: Gate,
    wake: bool,
    later: Gate,
    result: Result<Permit, Error>,
)
    requires
        before.wf(),
        before.leaves(after, wake),
        after.tries(later, result),
    ensures
        before.limit() is None ==> !wake,
        before.limit() matches Some(max) ==> (wake <==> after.counted() < max),
        before.limit() is Some && after.has_room() ==> wake,
        wake && !after.is_closing() ==> result is Ok,
        result is Ok && before.limit() is Some ==> wake,
{
}

/// Room is what the limit leaves: a gate that is not closing lets the next one in exactly if
/// fewer slots are counted than the limit allows.
pub proof fn law_admission_goes_by_the_count(gate: Gate, after: Gate, result: Result<Permit, Error>)
    requires
        gate.tries(after, result),
        !gate.is_closing(),
    ensures
        gate.limit() is None ==> result is Ok,
        gate.limit() matches Some(max) ==> (result is Ok <==> gate.counted() < max),
        result matches Err(error) ==> error is AtCapacity && after.counted() == gate.counted(),
        result is Ok ==> after.counted() == gate.counted() + 1 && after.live() == gate.live() + 1,
{
}

/// One who waits for a slot waits no longer than its patience allows: the time that has
/// passed and the time that is left make up the patience, and where none is left the answer
/// is that it has run out.
pub proof fn law_patience_bounds_the_wait(
    gate: Gate,
    elapsed: Duration,
    after: Gate,
    step: EnterStep,
)
    requires
        gate.on_enter(EnterEvent::Elapsed(elapsed), after, step),
    ensures
        after == gate,
        step matches EnterStep::Wait(remaining) ==> nanos_of(remaining) > 0 && nanos_of(elapsed)
            + nanos_of(remaining) == nanos_of(gate.patience()),
        step is Wait || step == EnterStep::Refused(Error::AcquireTimeout(gate.patience())),
        step is Wait <==> nanos_of(elapsed) < nanos_of(gate.patience()),
{
}

/// What wakes a waiting entrant decides its answer: a shutdown turns it away at once, the end
/// of its patience turns it away with that patience, and an attempt that finds no room has it
/// look at the clock, never give up.
pub proof fn law_waiting_ends_with_its_reason(
    gate: Gate,
    event: EnterEvent,
    after: Gate,
    step: EnterStep,
)
    requires
        gate.on_enter(event, after, step),
    ensures
        event is GracefulShutdown ==> step == EnterStep::Refused(Error::ShuttingDown),
        event is TimedOut ==> step == EnterStep::Refused(Error::AcquireTimeout(gate.patience())),
        event is Attempt && gate.is_closing() ==> step == EnterStep::Refused(Error::ShuttingDown),
        event is Attempt && !gate.is_closing() && (gate.limit() matches Some(max)
            ==> gate.counted() < max) ==> step is Admitted,
        event is Attempt && !gate.is_closing() && (gate.limit() matches Some(max)
            && gate.counted() >= max) ==> step is ReadClock,
        step matches EnterStep::Admitted(permit) ==> permit.is_of(after) && after.live()
            == gate.live() + 1,
        step !is Admitted ==> after.live() == gate.live() && after.counted() == gate.counted(),
{
}

/// A drain reports what it found: nothing left is a clean drain, what is left when the grace
/// period is over is forced out and counted, and no drain forces anything before that.
pub proof fn law_drain_reports_what_is_left(
    gate: Gate,
    event: DrainEvent,
    after: Gate,
    step: DrainStep,
)
    requires
        gate.wf(),
        gate.on_drain(event, after, step),
        gate.counted() <= usize::MAX,
    ensures
        event is Begin ==> (step == DrainStep::Done(GateDrainOutcome::Drained) <==> gate.counted()
            == 0),
        event is Begin && gate.counted() > 0 ==> match gate.grace() {
            Some(period) => step == DrainStep::WaitFor(period),
            None => step is WaitForever,
        },
        event is AllDone ==> step == DrainStep::Done(GateDrainOutcome::Drained),
        step matches DrainStep::Done(GateDrainOutcome::Forced { remaining }) ==> event
            is GraceElapsed && remaining == gate.counted() && after.is_forced(),
        event is GraceElapsed ==> step matches DrainStep::Done(GateDrainOutcome::Forced { .. }),
        !(event is GraceElapsed) ==> after == gate,
        after.counted() == gate.counted(),
        after.live() == gate.live(),
{
}

/// The drain ends: giving the last permit back in the graceful phase gives the signal
/// that all is done, and that signal is never given for a gate that is not closing.
pub proof fn law_last_permit_ends_the_drain(before: Gate, after: Gate, wake: bool)
    requires
        before.wf(),
        before.leaves(after, wake),
    ensures
        before.is_closing() && after.counted() == 0 ==> after.is_all_done(),
        !before.is_closing() ==> !after.is_all_done(),
{
}

} // verus!

use std::sync::atomic::{AtomicUsize, Ordering};
use std::sync::{Arc, Mutex};
use std::time::{Duration, Instant};

use continuo::gate::{default_acquire_timeout, DrainEvent, DrainStep, EnterEvent, EnterStep, Error};
use continuo::signal::{NotifyOnce, SignalEvent, SignalStep};
use continuo::{Gate, GateDrainOutcome, Guard, GuardGroup, Permit};
use tokio::sync::Notify;

#[test]
fn try_enter_counts_one_slot_per_permit() {
    let mut gate = Gate::new(Some(2), Duration::from_millis(10));

    let first = gate.try_enter().unwrap();
    assert_eq!(gate.count(), 1);

    let second = gate.try_enter().unwrap();
    assert_eq!(gate.count(), 2);

    assert!(matches!(gate.try_enter(), Err(Error::AtCapacity)));

    gate.leave(first);
    assert_eq!(gate.count(), 1);

    gate.leave(second);
    assert_eq!(gate.count(), 0);
}

#[test]
fn empty_gate_reports_clean_drain() {
    let mut gate = Gate::new(None, Duration::from_millis(10));

    match gate.wait_all_done(DrainEvent::Begin) {
        DrainStep::Done(outcome) => assert_eq!(outcome, GateDrainOutcome::Drained),
        _ => panic!("nothing is inside"),
    }
}

#[test]
fn elapsed_grace_period_reports_forced_drain() {
    let mut gate = Gate::new(None, Duration::from_millis(10));
    let _permit = gate.try_enter().expect("permit should be admitted");
    gate.graceful_shutdown(Some(Duration::from_millis(1)));
    let forced = gate.wait_forced_shutdown();

    match gate.wait_all_done(DrainEvent::Begin) {
        DrainStep::WaitFor(period) => assert_eq!(period, Duration::from_millis(1)),
        _ => panic!("one permit is out"),
    }
    assert!(!*forced.borrow());
    match gate.wait_all_done(DrainEvent::GraceElapsed) {
        DrainStep::Done(outcome) => {
            assert_eq!(outcome, GateDrainOutcome::Forced { remaining: 1 })
        }
        _ => panic!("the grace period is over"),
    }
    assert!(*forced.borrow());
    assert_eq!(gate.count(), 1);
}

#[test]
fn last_permit_ends_a_graceful_drain_only() {
    let mut gate = Gate::new(None, Duration::from_millis(10));
    let drained = gate.drained();
    let closing = gate.wait_graceful_shutdown();
    let early = gate.try_enter().unwrap();
    assert!(!gate.leave(early));
    assert!(!*drained.borrow());

    let late = gate.try_enter().unwrap();
    gate.graceful_shutdown(None);
    assert!(gate.is_shutting_down());
    assert!(*closing.borrow());
    assert!(matches!(gate.wait_all_done(DrainEvent::Begin), DrainStep::WaitForever));
    gate.leave(late);
    assert!(*drained.borrow());
    assert!(matches!(
        gate.wait_all_done(DrainEvent::AllDone),
        DrainStep::Done(GateDrainOutcome::Drained)
    ));
    assert!(matches!(gate.try_enter(), Err(Error::ShuttingDown)));
}

/// A gate shared by tasks, as they wait for it.
struct Shared {
    gate: Mutex<Gate>,
    released: Notify,
}

impl Shared {
    async fn enter(&self) -> Result<Permit, Error> {
        let start = Instant::now();
        let mut event = EnterEvent::Attempt;
        loop {
            let step = self.gate.lock().expect("lock").enter(event);
            event = match step {
                EnterStep::Admitted(permit) => return Ok(permit),
                EnterStep::Refused(error) => return Err(error),
                EnterStep::ReadClock => EnterEvent::Elapsed(start.elapsed()),
                EnterStep::Wait(remaining) => {
                    match tokio::time::timeout(remaining, self.released.notified()).await {
                        Ok(()) => EnterEvent::Attempt,
                        Err(_) => EnterEvent::TimedOut,
                    }
                }
            };
        }
    }

    fn leave(&self, permit: Permit) {
        if self.gate.lock().expect("lock").leave(permit) {
            self.released.notify_waiters();
        }
    }
}

/// `enter` under contention, with live permits counted apart from it.
#[test]
fn enter_never_admits_more_than_max() {
    let tokio = tokio::runtime::Builder::new_multi_thread()
        .worker_threads(8)
        .enable_time()
        .build()
        .expect("runtime");
    for _ in 0..200 {
        let shared = Arc::new(Shared {
            gate: Mutex::new(Gate::new(Some(4), Duration::from_secs(5))),
            released: Notify::new(),
        });
        let live = Arc::new(AtomicUsize::new(0));
        let peak = Arc::new(AtomicUsize::new(0));
        let entrants: Vec<_> = (0..32)
            .map(|_| {
                let shared = Arc::clone(&shared);
                let live = Arc::clone(&live);
                let peak = Arc::clone(&peak);
                tokio.spawn(async move {
                    let Ok(permit) = shared.enter().await else {
                        return;
                    };
                    let now = live.fetch_add(1, Ordering::SeqCst) + 1;
                    peak.fetch_max(now, Ordering::SeqCst);
                    tokio::task::yield_now().await;
                    live.fetch_sub(1, Ordering::SeqCst);
                    shared.leave(permit);
                })
            })
            .collect();
        for entrant in entrants {
            tokio.block_on(entrant).expect("entrant");
        }
        let observed = peak.load(Ordering::SeqCst);
        assert!(observed <= 4, "gate held {observed} permits at once against max 4");
        assert_eq!(shared.gate.lock().expect("lock").count(), 0);
    }
}

/// Claims of many entrants are settled in every order that a few rounds can make.
#[test]
fn claims_in_any_order_stay_within_the_limit() {
    for round in 0..200u64 {
        let mut gate = Gate::new(Some(4), Duration::from_secs(5));
        let mut claims = Vec::new();
        let mut permits: Vec<Permit> = Vec::new();
        let mut peak = 0usize;
        let mut seed = round.wrapping_mul(6364136223846793005).wrapping_add(1442695040888963407);
        for _ in 0..32 {
            seed = seed.wrapping_mul(6364136223846793005).wrapping_add(1442695040888963407);
            match (seed >> 33) % 4 {
                0 | 1 => claims.push(gate.claim()),
                2 => {
                    if !claims.is_empty() {
                        let at = (seed >> 40) as usize % claims.len();
                        if let Ok(permit) = gate.settle(claims.swap_remove(at)) {
                            permits.push(permit);
                        }
                    }
                }
                _ => {
                    if let Some(permit) = permits.pop() {
                        gate.leave(permit);
                    }
                }
            }
            peak = peak.max(permits.len());
        }
        for claim in claims {
            if let Ok(permit) = gate.settle(claim) {
                permits.push(permit);
            }
            peak = peak.max(permits.len());
        }
        assert!(peak <= 4, "gate held {peak} permits at once against max 4");
        assert_eq!(gate.count(), permits.len());
    }
}

#[test]
fn a_claim_that_backs_out_last_ends_the_drain() {
    let mut gate = Gate::new(Some(1), Duration::from_millis(10));
    let drained = gate.drained();
    let permit = gate.try_enter().expect("there is room");
    let claim = gate.claim();
    gate.graceful_shutdown(None);
    gate.leave(permit);
    assert_eq!(gate.count(), 1);
    assert!(!*drained.borrow());
    assert!(matches!(gate.settle(claim), Err(Error::AtCapacity)));
    assert_eq!(gate.count(), 0);
    assert!(*drained.borrow());
}

#[test]
fn entrants_wait_for_what_remains_of_their_patience() {
    let mut gate = Gate::new(Some(1), Duration::from_millis(100));
    let permit = match gate.enter(EnterEvent::Attempt) {
        EnterStep::Admitted(permit) => permit,
        _ => panic!("there is room"),
    };
    assert!(matches!(gate.enter(EnterEvent::Attempt), EnterStep::ReadClock));
    match gate.enter(EnterEvent::Elapsed(Duration::from_millis(30))) {
        EnterStep::Wait(remaining) => assert_eq!(remaining, Duration::from_millis(70)),
        _ => panic!("there is time left"),
    }
    for event in [EnterEvent::Elapsed(Duration::from_millis(100)), EnterEvent::TimedOut] {
        assert!(matches!(
            gate.enter(event),
            EnterStep::Refused(Error::AcquireTimeout(timeout)) if timeout == Duration::from_millis(100)
        ));
    }
    assert!(matches!(
        gate.enter(EnterEvent::GracefulShutdown),
        EnterStep::Refused(Error::ShuttingDown)
    ));
    assert!(gate.leave(permit));
    assert!(matches!(gate.enter(EnterEvent::Attempt), EnterStep::Admitted(_)));
    gate.graceful_shutdown(None);
    assert!(matches!(
        gate.enter(EnterEvent::Attempt),
        EnterStep::Refused(Error::ShuttingDown)
    ));
}

#[test]
fn grace_periods_are_read_back() {
    let mut gate = Gate::new(None, default_acquire_timeout());
    assert_eq!(gate.grace_period(), None);
    for period in [
        Duration::ZERO,
        Duration::from_nanos(1),
        Duration::from_secs(30),
        Duration::from_nanos(u64::MAX - 1),
        Duration::from_nanos(u64::MAX),
        Duration::from_nanos(u64::MAX) + Duration::from_nanos(6),
        Duration::from_secs(18446744074),
        Duration::MAX,
    ] {
        gate.graceful_shutdown(Some(period));
        assert!(gate.is_shutting_down());
        assert_eq!(gate.grace_period(), Some(period));
    }
    gate.graceful_shutdown(None);
    assert_eq!(gate.grace_period(), None);
}

#[test]
fn a_drain_waits_for_the_period_that_was_given() {
    let mut gate = Gate::new(None, Duration::from_millis(10));
    let permit = gate.try_enter().expect("there is room");
    let period = Duration::from_secs(18446744074);
    gate.graceful_shutdown(Some(period));
    match gate.wait_all_done(DrainEvent::Begin) {
        DrainStep::WaitFor(wait) => assert_eq!(wait, period),
        _ => panic!("one permit is out, and there is a grace period"),
    }
    gate.graceful_shutdown(None);
    assert!(matches!(gate.wait_all_done(DrainEvent::Begin), DrainStep::WaitForever));
    gate.leave(permit);
}

#[test]
fn default_patience_is_a_tenth_of_a_second() {
    assert_eq!(default_acquire_timeout(), Duration::from_millis(100));
}

#[test]
fn waiting_for_a_signal_ends_when_it_is_seen() {
    assert!(matches!(NotifyOnce::notified(SignalEvent::Begin), SignalStep::Read));
    assert!(matches!(NotifyOnce::notified(SignalEvent::Value(false)), SignalStep::WaitForChange));
    assert!(matches!(NotifyOnce::notified(SignalEvent::Changed), SignalStep::Read));
    assert!(matches!(NotifyOnce::notified(SignalEvent::Value(true)), SignalStep::Done));
    assert!(matches!(NotifyOnce::notified(SignalEvent::Closed), SignalStep::Done));
    let mut signal = NotifyOnce::default();
    let mut receiver = signal.subscribe();
    assert!(!signal.is_notified());
    assert!(!*receiver.borrow_and_update());
    signal.notify_waiters();
    assert!(signal.is_notified());
    assert!(receiver.has_changed().expect("the signal is there"));
    assert!(*receiver.borrow_and_update());
}

#[test]
fn forced_shutdown_is_no_graceful_one() {
    let mut gate = Gate::new(None, default_acquire_timeout());
    let forced = gate.wait_forced_shutdown();
    gate.force_shutdown();
    assert!(*forced.borrow());
    assert!(!gate.is_shutting_down());
    assert!(gate.try_enter().is_ok());
}

#[test]
fn guard_groups_count_what_is_in_flight() {
    let mut group = GuardGroup::default();
    assert!(group.wait_empty());
    let first: Guard = group.guard();
    let second = group.guard();
    assert_eq!(group.count(), 2);
    assert!(!group.wait_empty());
    assert!(!group.release(first));
    assert_eq!(group.count(), 1);
    assert!(group.release(second));
    assert!(group.wait_empty());
}

use continuo::events::DEFAULT_CAPACITY;
use continuo::{Event, ProcessEventBus, ShutdownInitiated};
use tokio::sync::broadcast::error::TryRecvError;

#[derive(Clone, Debug, PartialEq)]
struct CertReloaded {
    server_id: i32,
}

impl Event for CertReloaded {}

#[derive(Clone, Debug, PartialEq)]
struct Tick(u64);

impl Event for Tick {}

#[test]
fn events_reach_the_subscribers_of_their_type() {
    let mut bus = ProcessEventBus::new();
    assert_eq!(bus.registered_type_count(), 0);
    // Nobody listens yet: the event is gone.
    bus.emit(CertReloaded { server_id: 1 });
    assert_eq!(bus.registered_type_count(), 0);

    assert!(bus.try_subscribe::<CertReloaded>().is_none());
    let mut first = bus.subscribe::<CertReloaded>();
    let mut shared = bus.try_subscribe::<CertReloaded>().expect("the channel is there");
    assert_eq!(bus.registered_type_count(), 1);
    bus.emit(CertReloaded { server_id: 5 });
    let mut second = bus.subscribe::<CertReloaded>();
    assert_eq!(bus.registered_type_count(), 1);
    let mut ticks = bus.subscribe::<Tick>();
    assert_eq!(bus.registered_type_count(), 2);
    bus.emit(CertReloaded { server_id: 6 });
    bus.emit(Tick(9));

    assert_eq!(first.try_recv(), Ok(CertReloaded { server_id: 5 }));
    assert_eq!(first.try_recv(), Ok(CertReloaded { server_id: 6 }));
    assert_eq!(first.try_recv(), Err(TryRecvError::Empty));
    assert_eq!(shared.try_recv(), Ok(CertReloaded { server_id: 5 }));
    assert_eq!(shared.try_recv(), Ok(CertReloaded { server_id: 6 }));
    assert_eq!(second.try_recv(), Ok(CertReloaded { server_id: 6 }));
    assert_eq!(second.try_recv(), Err(TryRecvError::Empty));
    assert_eq!(ticks.try_recv(), Ok(Tick(9)));
    assert_eq!(ticks.try_recv(), Err(TryRecvError::Empty));
}

#[test]
fn slow_subscribers_lose_the_oldest_events() {
    let mut bus = ProcessEventBus::with_capacity(2);
    let mut ticks = bus.subscribe::<Tick>();
    for n in 0..3 {
        bus.emit(Tick(n));
    }
    assert_eq!(ticks.try_recv(), Err(TryRecvError::Lagged(1)));
    assert_eq!(ticks.try_recv(), Ok(Tick(1)));
    assert_eq!(ticks.try_recv(), Ok(Tick(2)));
}

#[test]
fn the_default_bus_keeps_sixty_four_events() {
    let mut bus = ProcessEventBus::default();
    let mut ticks = bus.subscribe::<Tick>();
    for n in 0..65 {
        bus.emit(Tick(n));
    }
    assert_eq!(DEFAULT_CAPACITY, 64);
    assert_eq!(ticks.try_recv(), Err(TryRecvError::Lagged(1)));
    assert_eq!(ticks.try_recv(), Ok(Tick(1)));
}

#[test]
fn an_event_without_subscribers_left_is_dropped() {
    let mut bus = ProcessEventBus::new();
    drop(bus.subscribe::<ShutdownInitiated>());
    bus.emit(ShutdownInitiated);
    let mut later = bus.subscribe::<ShutdownInitiated>();
    assert!(matches!(later.try_recv(), Err(TryRecvError::Empty)));
}

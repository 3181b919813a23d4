use custom_elements::Behavior;
use custom_elements::CustomElements;
use custom_elements::RoutingError;

/// Deferred behavior exercising the callback table: a firing counter, a
/// behavior that re-enters the router with its own identifier, and one
/// that registers a further callback while running.
enum Probe {
    Counter(u32),
    Reentrant(Option<Result<(), RoutingError>>),
    Registrar,
    ChainTo(i32),
    Grower,
}

const GROWN: u64 = 77;

impl Behavior<u64, ()> for Probe {
    fn on_event(&mut self, cx: &mut CustomElements<u64, Probe, ()>, id: i32, event: i32) {
        match self {
            Probe::Counter(n) => {
                *n += 1;
            }
            Probe::Reentrant(slot) => {
                // The entry for `id` is mid-invocation, so this must fail
                // closed rather than run this closure a second time.
                *slot = Some(cx.route_callback(id, event));
            }
            Probe::Registrar => {
                cx.add_callback(id + 1, Probe::Counter(0));
            }
            Probe::ChainTo(other) => {
                // Recursive routing of a different identifier is legal.
                assert_eq!(cx.route_callback(*other, event), Ok(()));
            }
            Probe::Grower => {
                cx.add(GROWN, 1000);
            }
        }
    }
}

fn fresh() -> CustomElements<u64, Probe, ()> {
    CustomElements::new(())
}

#[test]
fn unknown_id_fails_closed() {
    let mut ce = fresh();
    assert_eq!(ce.route_callback(42, 0), Err(RoutingError::UnknownCallback));
    assert!(ce.get_callback(42).is_none());
}

#[test]
fn unknown_id_executes_nothing() {
    let mut ce = fresh();
    ce.add_callback(1, Probe::Counter(0));
    assert_eq!(ce.route_callback(2, 0), Err(RoutingError::UnknownCallback));
    match ce.get_callback(1) {
        Some(Probe::Counter(n)) => assert_eq!(*n, 0),
        _ => panic!("entry for id 1 should be an untouched counter"),
    }
}

#[test]
fn persistence_across_firings() {
    let mut ce = fresh();
    ce.add_callback(5, Probe::Counter(0));
    assert_eq!(ce.route_callback(5, 0), Ok(()));
    // One firing never consumes the registration, and the reinserted
    // entry carries the state the firing left it with.
    assert_eq!(ce.route_callback(5, 0), Ok(()));
    assert_eq!(ce.route_callback(5, 0), Ok(()));
    match ce.get_callback(5) {
        Some(Probe::Counter(n)) => assert_eq!(*n, 3),
        _ => panic!("entry for id 5 should be a counter"),
    }
}

#[test]
fn at_most_one_invocation_in_flight() {
    let mut ce = fresh();
    ce.add_callback(9, Probe::Reentrant(None));
    assert_eq!(ce.route_callback(9, 0), Ok(()));
    match ce.get_callback(9) {
        Some(Probe::Reentrant(Some(r))) => {
            assert_eq!(*r, Err(RoutingError::UnknownCallback));
        }
        _ => panic!("the re-entrant probe should have recorded its inner result"),
    }
}

#[test]
fn reregistration_overwrites() {
    let mut ce = fresh();
    ce.add_callback(3, Probe::Counter(100));
    ce.add_callback(3, Probe::Counter(0));
    assert_eq!(ce.route_callback(3, 0), Ok(()));
    match ce.get_callback(3) {
        Some(Probe::Counter(n)) => assert_eq!(*n, 1),
        _ => panic!("entry for id 3 should be the overwriting counter"),
    }
}

#[test]
fn nested_routing_of_another_id() {
    let mut ce = fresh();
    ce.add_callback(1, Probe::Counter(0));
    ce.add_callback(2, Probe::ChainTo(1));
    assert_eq!(ce.route_callback(2, 0), Ok(()));
    match ce.get_callback(1) {
        Some(Probe::Counter(n)) => assert_eq!(*n, 1),
        _ => panic!("entry for id 1 should be a counter fired once"),
    }
}

#[test]
fn registry_grows_during_dispatch_and_handles_stay_valid() {
    let mut ce = fresh();
    let h = ce.add(GROWN, 5);
    assert_eq!(h, 0);
    ce.add_callback(4, Probe::Grower);
    assert_eq!(ce.route_callback(4, 0), Ok(()));
    assert_eq!(ce.route_callback(4, 0), Ok(()));
    assert_eq!(ce.count(GROWN), 3);
    // The handle issued before the dispatches still names its value.
    assert_eq!(*ce.get(GROWN, h), 5);
    assert_eq!(*ce.get(GROWN, 2), 1000);
}

#[test]
fn registering_during_invocation() {
    let mut ce = fresh();
    ce.add_callback(10, Probe::Registrar);
    assert!(ce.get_callback(11).is_none());
    assert_eq!(ce.route_callback(10, 0), Ok(()));
    // The callback registered mid-invocation is reachable afterwards,
    // and the registrar itself was reinserted.
    assert_eq!(ce.route_callback(11, 0), Ok(()));
    assert_eq!(ce.route_callback(10, 0), Ok(()));
}

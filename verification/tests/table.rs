use custom_elements::CallbackTable;
use custom_elements::RoutingError;

#[test]
fn take_on_empty_table_fails_closed() {
    let mut t: CallbackTable<u32> = CallbackTable::new();
    assert_eq!(t.take(1), Err(RoutingError::UnknownCallback));
    assert!(!t.contains(1));
}

#[test]
fn take_removes_until_reinsertion() {
    let mut t: CallbackTable<u32> = CallbackTable::new();
    t.register(7, 10);
    assert!(t.contains(7));
    assert_eq!(t.take(7), Ok(10));
    // Mid-invocation the identifier is absent: a second take fails.
    assert!(!t.contains(7));
    assert_eq!(t.take(7), Err(RoutingError::UnknownCallback));
    // Reinsertion restores the registration.
    t.register(7, 11);
    assert_eq!(t.get(7), Some(&11));
}

#[test]
fn register_overwrites() {
    let mut t: CallbackTable<&str> = CallbackTable::new();
    t.register(3, "first");
    t.register(3, "second");
    assert_eq!(t.take(3), Ok("second"));
}

#[test]
fn entries_are_independent() {
    let mut t: CallbackTable<u32> = CallbackTable::new();
    t.register(1, 100);
    t.register(2, 200);
    assert_eq!(t.take(1), Ok(100));
    assert_eq!(t.get(2), Some(&200));
}

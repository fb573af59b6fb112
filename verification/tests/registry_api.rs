use pear_core::addr::NetAddress;
use pear_core::registry::PendingRequests;

#[test]
fn first_lookup_registration_is_fresh_later_ones_join() {
    let mut r = PendingRequests::new();
    assert!(r.register_lookup(&"x".to_string()));
    assert!(!r.register_lookup(&"x".to_string()));
    assert!(!r.register_lookup(&"x".to_string()));
    assert!(r.register_lookup(&"y".to_string()));
}

#[test]
fn resolving_a_lookup_returns_every_waiter_and_clears_the_entry() {
    let mut r = PendingRequests::new();
    r.register_lookup(&"x".to_string());
    r.register_lookup(&"x".to_string());
    let ws = r.resolve_lookup(&"x".to_string());
    assert_eq!(ws, vec!["x".to_string(), "x".to_string()]);
    assert!(r.register_lookup(&"x".to_string()));
}

#[test]
fn resolving_an_absent_lookup_is_a_no_op() {
    let mut r = PendingRequests::new();
    r.register_lookup(&"x".to_string());
    let ws = r.resolve_lookup(&"y".to_string());
    assert!(ws.is_empty());
    assert!(!r.register_lookup(&"x".to_string()));
}

#[test]
fn first_dial_registration_is_fresh_later_ones_join() {
    let mut r = PendingRequests::new();
    let a = NetAddress { o0: 1, o1: 2, o2: 3, o3: 4, port: 5 };
    let b = NetAddress { o0: 1, o1: 2, o2: 3, o3: 4, port: 6 };
    assert!(r.register_dial(&a, "u".to_string()));
    assert!(!r.register_dial(&a, "v".to_string()));
    assert!(r.register_dial(&b, "w".to_string()));
}

#[test]
fn resolving_a_dial_returns_every_waiter_and_clears_the_entry() {
    let mut r = PendingRequests::new();
    let a = NetAddress { o0: 1, o1: 2, o2: 3, o3: 4, port: 5 };
    r.register_dial(&a, "u".to_string());
    r.register_dial(&a, "v".to_string());
    let ws = r.resolve_dial(&a);
    assert_eq!(ws, vec!["u".to_string(), "v".to_string()]);
    assert!(r.register_dial(&a, "u".to_string()));
    let none = r.resolve_dial(&NetAddress { o0: 9, o1: 9, o2: 9, o3: 9, port: 9 });
    assert!(none.is_empty());
}

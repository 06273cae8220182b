use rust_ffi_exercises::ex16_pin_drop::{
    c_deregister, c_dispatch, c_register, c_registry_clear, c_registry_len, registry_new, safe_dispatch, Listener,
    PinnedListener, Registry, UnpinnedListener,
};

/// A registry with nothing registered.
fn setup() -> Registry {
    let mut reg = registry_new();
    c_registry_clear(&mut reg);
    reg
}

#[test]
fn test_ex16_register_and_dispatch() {
    let mut reg = setup();
    let listener = Listener::new_pinned(&mut reg, "sensor", 10);
    assert_eq!(c_registry_len(&reg), 1);
    let results = c_dispatch(&reg, 3);
    assert_eq!(results, vec!["sensor:30"]);
    listener.release(&mut reg); // deregisters
    assert_eq!(c_registry_len(&reg), 0);
}

#[test]
fn test_ex16_auto_deregister_on_drop() {
    let mut reg = setup();
    {
        let a = Listener::new_pinned(&mut reg, "a", 1);
        let b = Listener::new_pinned(&mut reg, "b", 2);
        assert_eq!(c_registry_len(&reg), 2);
        b.release(&mut reg);
        a.release(&mut reg);
    }
    // Both released → registry empty.
    assert_eq!(c_registry_len(&reg), 0);
}

#[test]
fn test_ex16_multiple_dispatch() {
    let mut reg = setup();
    let _x = Listener::new_pinned(&mut reg, "x", 5);
    let _y = Listener::new_pinned(&mut reg, "y", -1);
    let r1 = c_dispatch(&reg, 2);
    assert!(r1.contains(&"x:10".to_string()));
    assert!(r1.contains(&"y:-2".to_string()));
    let r2 = c_dispatch(&reg, 0);
    assert!(r2.contains(&"x:0".to_string()));
    assert!(r2.contains(&"y:0".to_string()));
}

#[test]
fn test_ex16_partial_drop() {
    let mut reg = setup();
    let a = Listener::new_pinned(&mut reg, "first", 1);
    let _b = Listener::new_pinned(&mut reg, "second", 2);
    assert_eq!(c_registry_len(&reg), 2);
    a.release(&mut reg); // release only the first
    assert_eq!(c_registry_len(&reg), 1);
    let results = c_dispatch(&reg, 5);
    assert_eq!(results, vec!["second:10"]);
}

#[test]
fn test_ex16_pinned_listener_wrapper() {
    let mut reg = setup();
    let p = PinnedListener::new(&mut reg, "wrapped", 7);
    assert_eq!(p.name(), "wrapped");
    assert_eq!(p.weight(), 7);
    assert_eq!(c_registry_len(&reg), 1);
    let results = c_dispatch(&reg, 3);
    assert_eq!(results, vec!["wrapped:21"]);
    p.release(&mut reg);
    assert_eq!(c_registry_len(&reg), 0);
}

#[test]
fn test_ex16_safe_dispatch() {
    let mut reg = setup();
    let results = safe_dispatch(&mut reg, 4);
    // After safe_dispatch returns, everything is deregistered.
    assert_eq!(c_registry_len(&reg), 0);
    // Should have two results.
    assert_eq!(results.len(), 2);
    assert!(results.contains(&"alpha:8".to_string())); // 4 * 2
    assert!(results.contains(&"beta:12".to_string())); // 4 * 3
}

#[test]
fn test_ex16_cannot_move_out_of_pin() {
    // A registered listener lives on the heap; what the registry holds is
    // its id, so moving the box itself keeps the registration valid.
    let mut reg = setup();
    let boxed = Listener::new_pinned(&mut reg, "test", 1);
    let moved = boxed;
    assert_eq!(c_dispatch(&reg, 1), vec!["test:1"]);
    moved.release(&mut reg);
    assert_eq!(c_registry_len(&reg), 0);
}

#[test]
fn register_then_deregister_restores_entries() {
    let mut reg = setup();
    let a = c_register(&mut reg, "keep", 2);
    let b = c_register(&mut reg, "gone", 3);
    assert_ne!(a, b);
    c_deregister(&mut reg, b);
    assert_eq!(c_dispatch(&reg, 1), vec!["keep:2"]);
    c_deregister(&mut reg, b); // unknown id: nothing changes
    assert_eq!(c_registry_len(&reg), 1);
}

#[test]
fn dispatch_keeps_registration_order() {
    let mut reg = setup();
    c_register(&mut reg, "one", 1);
    c_register(&mut reg, "two", 2);
    c_register(&mut reg, "three", 3);
    assert_eq!(c_dispatch(&reg, -2), vec!["one:-2", "two:-4", "three:-6"]);
}

#[test]
fn unpinned_listener_placeholder_id() {
    let l = UnpinnedListener::new_registered("u", 9);
    assert_eq!(l.name, "u");
    assert_eq!(l.weight, 9);
    assert_eq!(l.registry_id, Some(0));
}

use rust_ffi_exercises::ex28_zst_ffi::{
    get_send_count, opaque_engine_create, opaque_engine_destroy, opaque_engine_sum, reset_send_count, Connected,
    CursorTag, DbTag, Disconnected, OpaqueEngine, ReprCEmpty, ReprCNonEmpty, SendCounter, Session, ThreadSafeHandle,
    ThreadUnsafeHandle,
};
use std::any::TypeId;
use std::mem;

#[test]
fn test_ex28_repr_c_empty_is_zero() {
    // An empty Rust struct is size 0 — unlike C/C++ where it's 1.
    assert_eq!(mem::size_of::<ReprCEmpty>(), 0);
}

#[test]
fn test_ex28_repr_c_padded_is_one() {
    // With a u8 padding field, it matches C's sizeof.
    assert_eq!(mem::size_of::<ReprCNonEmpty>(), 1);
}

#[test]
fn test_ex28_opaque_engine_lifecycle() {
    let engine = opaque_engine_create();
    assert_eq!(opaque_engine_sum(&engine), 60); // 10+20+30
    opaque_engine_destroy(engine);
}

#[test]
fn test_ex28_handles_are_distinct_types() {
    assert_ne!(TypeId::of::<DbTag>(), TypeId::of::<CursorTag>());
    assert_eq!(mem::size_of::<DbTag>(), 0);
    assert_eq!(mem::size_of::<CursorTag>(), 0);
}

#[test]
fn test_ex28_thread_unsafe_handle_not_send() {
    // The marker that takes away Send/Sync adds no bytes.
    assert_eq!(mem::size_of::<ThreadUnsafeHandle>(), mem::size_of::<u64>());
    assert_eq!(ThreadUnsafeHandle::new(3).fd, 3);
}

#[test]
fn test_ex28_thread_safe_handle_is_send() {
    fn assert_send<T: Send>() {}
    fn assert_sync<T: Sync>() {}
    assert_send::<ThreadSafeHandle>();
    assert_sync::<ThreadSafeHandle>();
    assert_eq!(mem::size_of::<ThreadSafeHandle>(), mem::size_of::<u64>());
    assert_eq!(ThreadSafeHandle::new(9).fd, 9);
}

#[test]
fn test_ex28_typestate_lifecycle() {
    let mut counter = SendCounter::new();
    reset_send_count(&mut counter);

    let session = Session::<Disconnected>::create(42);
    // session.send(..);  // ← would NOT compile!

    let session = session.connect();
    session.send(&mut counter, "hello");
    session.send(&mut counter, "world");
    assert_eq!(get_send_count(&counter), 2);

    let session = session.disconnect();
    // session.send(..);  // ← would NOT compile!
    drop(session);
}

#[test]
fn test_ex28_typestate_zero_sized_markers() {
    assert_eq!(mem::size_of::<Disconnected>(), 0);
    assert_eq!(mem::size_of::<Connected>(), 0);
    // Session<State> is the same size regardless of state,
    // because the state is a ZST.
    assert_eq!(mem::size_of::<Session<Disconnected>>(), mem::size_of::<Session<Connected>>());
}

#[test]
fn test_ex28_session_size() {
    // Session holds just the u64 id — the PhantomData adds no runtime cost.
    assert_eq!(mem::size_of::<Session<Disconnected>>(), mem::size_of::<u64>());
}

#[test]
fn opaque_engine_holds_no_visible_fields() {
    let e: OpaqueEngine = opaque_engine_create();
    assert_eq!(opaque_engine_sum(&e), opaque_engine_sum(&e));
}

#[test]
fn send_count_resets() {
    let mut counter = SendCounter::new();
    let s = Session::<Disconnected>::create(1).connect();
    s.send(&mut counter, "x");
    reset_send_count(&mut counter);
    assert_eq!(get_send_count(&counter), 0);
    s.send(&mut counter, "y");
    assert_eq!(get_send_count(&counter), 1);
}

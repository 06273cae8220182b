use rust_ffi_exercises::ex20_global_state::{
    metrics_add, metrics_get, metrics_increment, metrics_init, metrics_reset, metrics_reset_all, metrics_shutdown,
    MetricsState,
};

/// An initialized registry with no counters.
fn setup() -> MetricsState {
    let mut s = MetricsState::new();
    metrics_init(&mut s);
    metrics_reset_all(&mut s);
    s
}

#[test]
fn test_ex20_init_idempotent() {
    let mut s = MetricsState::new();
    assert_eq!(metrics_init(&mut s), 0);
    assert_eq!(metrics_init(&mut s), 0); // second call is fine
}

#[test]
fn test_ex20_increment() {
    let mut s = setup();
    metrics_increment(&mut s, "requests");
    metrics_increment(&mut s, "requests");
    metrics_increment(&mut s, "requests");
    assert_eq!(metrics_get(&s, "requests"), 3);
}

#[test]
fn test_ex20_add() {
    let mut s = setup();
    metrics_add(&mut s, "bytes", 100);
    metrics_add(&mut s, "bytes", 250);
    assert_eq!(metrics_get(&s, "bytes"), 350);
}

#[test]
fn test_ex20_get_absent_key() {
    let s = setup();
    assert_eq!(metrics_get(&s, "nonexistent"), 0);
}

#[test]
fn test_ex20_reset_single() {
    let mut s = setup();
    metrics_add(&mut s, "a", 10);
    metrics_add(&mut s, "b", 20);
    metrics_reset(&mut s, "a");
    assert_eq!(metrics_get(&s, "a"), 0);
    assert_eq!(metrics_get(&s, "b"), 20); // untouched
}

#[test]
fn test_ex20_reset_all() {
    let mut s = setup();
    metrics_add(&mut s, "x", 5);
    metrics_add(&mut s, "y", 10);
    metrics_reset_all(&mut s);
    assert_eq!(metrics_get(&s, "x"), 0);
    assert_eq!(metrics_get(&s, "y"), 0);
}

#[test]
fn test_ex20_multiple_counters() {
    let mut s = setup();
    metrics_increment(&mut s, "counter1");
    metrics_add(&mut s, "counter2", 100);
    metrics_add(&mut s, "counter3", -5);
    assert_eq!(metrics_get(&s, "counter1"), 1);
    assert_eq!(metrics_get(&s, "counter2"), 100);
    assert_eq!(metrics_get(&s, "counter3"), -5);
}

#[test]
fn calls_before_init_and_after_shutdown_answer_minus_one() {
    let mut s = MetricsState::new();
    assert_eq!(metrics_increment(&mut s, "a"), -1);
    assert_eq!(metrics_add(&mut s, "a", 3), -1);
    assert_eq!(metrics_get(&s, "a"), -1);
    assert_eq!(metrics_reset(&mut s, "a"), -1);
    assert_eq!(metrics_reset_all(&mut s), -1);
    assert_eq!(metrics_shutdown(&mut s), -1);
    assert_eq!(metrics_init(&mut s), 0);
    assert_eq!(metrics_add(&mut s, "a", 3), 0);
    assert_eq!(metrics_shutdown(&mut s), 0);
    assert_eq!(metrics_get(&s, "a"), -1);
    assert_eq!(metrics_init(&mut s), 0);
    assert_eq!(metrics_get(&s, "a"), 0); // shutdown cleared it
}

#[test]
fn init_again_keeps_counters() {
    let mut s = setup();
    metrics_add(&mut s, "k", 7);
    metrics_init(&mut s);
    assert_eq!(metrics_get(&s, "k"), 7);
}

#[test]
fn add_reaches_the_i64_limits() {
    let mut s = setup();
    metrics_add(&mut s, "big", i64::MAX);
    assert_eq!(metrics_get(&s, "big"), i64::MAX);
    metrics_add(&mut s, "small", i64::MIN);
    assert_eq!(metrics_get(&s, "small"), i64::MIN);
}

//! A named-counter metrics registry with an init / use / shutdown life
//! cycle. Every call but `metrics_init` answers -1 while the registry is not
//! initialized; `metrics_get` answers the counter's value, 0 for a counter
//! never touched. The process-wide instance lives with the C entry points;
//! this is the state it holds and the rules each call follows.

use vstd::prelude::*;
use crate::kv::StrMap;

verus! {

/// The answer of a call made while the registry is not initialized.
pub const METRICS_NOT_INITIALIZED: i32 = -1;

/// The counters of the registry and whether it is initialized.
pub struct MetricsState {
    counters: StrMap<i64>,
    initialized: bool,
}

impl View for MetricsState {
    /// The counters by name, and the initialized flag.
    type V = (Map<Seq<char>, i64>, bool);

    closed spec fn view(&self) -> (Map<Seq<char>, i64>, bool) {
        (self.counters@, self.initialized)
    }
}

/// What a counter reads: its value, or 0 when it was never touched.
pub open spec fn counter_value(counters: Map<Seq<char>, i64>, name: Seq<char>) -> int {
    if counters.contains_key(name) {
        counters[name] as int
    } else {
        0
    }
}

/// The registry after `metrics_init`: initialized, counters kept.
pub open spec fn after_init(v: (Map<Seq<char>, i64>, bool)) -> (Map<Seq<char>, i64>, bool) {
    (v.0, true)
}

impl MetricsState {
    /// A registry that has never been initialized.
    pub fn new() -> (r: Self)
        ensures
            r@ == (Map::<Seq<char>, i64>::empty(), false),
    {
        MetricsState { counters: StrMap::new(), initialized: false }
    }

    /// Whether the registry is initialized.
    pub fn is_initialized(&self) -> (r: bool)
        ensures
            r == self@.1,
    {
        self.initialized
    }
}

/// Initializes the registry; a second call changes nothing. Answers 0.
pub fn metrics_init(state: &mut MetricsState) -> (r: i32)
    ensures
        r == 0,
        final(state)@ == after_init(old(state)@),
{
    state.initialized = true;
    0
}

/// Adds 1 to counter `name`. Answers 0, or -1 when not initialized.
pub fn metrics_increment(state: &mut MetricsState, name: &str) -> (r: i32)
    requires
        old(state)@.1 ==> counter_value(old(state)@.0, name@) + 1 <= i64::MAX,
    ensures
        !old(state)@.1 ==> r == -1 && final(state)@ == old(state)@,
        old(state)@.1 ==> r == 0 && final(state)@ == (
            old(state)@.0.insert(name@, (counter_value(old(state)@.0, name@) + 1) as i64),
            true,
        ),
{
    metrics_add(state, name, 1)
}

/// Adds `delta` to counter `name`. Answers 0, or -1 when not initialized.
pub fn metrics_add(state: &mut MetricsState, name: &str, delta: i64) -> (r: i32)
    requires
        old(state)@.1 ==> i64::MIN <= counter_value(old(state)@.0, name@) + delta <= i64::MAX,
    ensures
        !old(state)@.1 ==> r == -1 && final(state)@ == old(state)@,
        old(state)@.1 ==> r == 0 && final(state)@ == (
            old(state)@.0.insert(name@, (counter_value(old(state)@.0, name@) + delta) as i64),
            true,
        ),
{
    if !state.initialized {
        return METRICS_NOT_INITIALIZED;
    }
    let current: i64 = match state.counters.get(name) {
        Some(v) => *v,
        None => 0,
    };
    state.counters.insert(name, current + delta);
    0
}

/// The value of counter `name` (0 when never touched), or -1 when not
/// initialized.
pub fn metrics_get(state: &MetricsState, name: &str) -> (r: i64)
    ensures
        !state@.1 ==> r == -1,
        state@.1 ==> r == counter_value(state@.0, name@),
{
    if !state.initialized {
        return -1;
    }
    match state.counters.get(name) {
        Some(v) => *v,
        None => 0,
    }
}

/// Resets counter `name` to 0. Answers 0, or -1 when not initialized.
pub fn metrics_reset(state: &mut MetricsState, name: &str) -> (r: i32)
    ensures
        !old(state)@.1 ==> r == -1 && final(state)@ == old(state)@,
        old(state)@.1 ==> r == 0 && final(state)@ == (old(state)@.0.remove(name@), true),
{
    if !state.initialized {
        return METRICS_NOT_INITIALIZED;
    }
    let _ = state.counters.remove(name);
    0
}

/// Resets every counter. Answers 0, or -1 when not initialized.
pub fn metrics_reset_all(state: &mut MetricsState) -> (r: i32)
    ensures
        !old(state)@.1 ==> r == -1 && final(state)@ == old(state)@,
        old(state)@.1 ==> r == 0 && final(state)@ == (Map::<Seq<char>, i64>::empty(), true),
{
    if !state.initialized {
        return METRICS_NOT_INITIALIZED;
    }
    state.counters.clear();
    0
}

/// Shuts the registry down: counters cleared, not initialized. Answers 0,
/// or -1 when it was not initialized.
pub fn metrics_shutdown(state: &mut MetricsState) -> (r: i32)
    ensures
        !old(state)@.1 ==> r == -1 && final(state)@ == old(state)@,
        old(state)@.1 ==> r == 0 && final(state)@ == (Map::<Seq<char>, i64>::empty(), false),
{
    if !state.initialized {
        return METRICS_NOT_INITIALIZED;
    }
    state.counters.clear();
    state.initialized = false;
    0
}

/// Initializing twice is the same as initializing once.
pub proof fn law_init_idempotent(v: (Map<Seq<char>, i64>, bool))
    ensures
        after_init(after_init(v)) == after_init(v),
{
}

/// Adding to one counter leaves every other counter reading what it read.
pub proof fn law_counters_independent(
    counters: Map<Seq<char>, i64>,
    name: Seq<char>,
    value: i64,
    other: Seq<char>,
)
    requires
        other != name,
    ensures
        counter_value(counters.insert(name, value), other) == counter_value(counters, other),
        counter_value(counters.insert(name, value), name) == value,
        counter_value(counters.remove(name), name) == 0,
        counter_value(counters.remove(name), other) == counter_value(counters, other),
{
}

} // verus!

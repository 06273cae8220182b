//! Callbacks across the boundary: a per-element visitor that collects into
//! a `Vec`, a transform callback, and selection of a "best" element by a
//! comparator callback.

use vstd::prelude::*;

verus! {

/// The visitor callback: appends `value` to the collection it is given.
pub fn accumulate(acc: &mut Vec<i32>, value: i32)
    ensures
        final(acc)@ == old(acc)@.push(value),
{
    acc.push(value);
}

/// Calls the visitor for every element of `data`, in order.
fn for_each_into(data: &[i32], acc: &mut Vec<i32>)
    ensures
        final(acc)@ == old(acc)@ + data@,
{
    let mut i: usize = 0;
    while i < data.len()
        invariant
            i <= data@.len(),
            acc@ == old(acc)@ + data@.take(i as int),
        decreases data@.len() - i,
    {
        accumulate(acc, data[i]);
        assert(data@.take(i as int + 1) =~= data@.take(i as int).push(data@[i as int]));
        i = i + 1;
    }
    assert(data@.take(data@.len() as int) =~= data@);
}

/// The elements of `data`, in order, gathered by visiting each one.
pub fn collect_via_c(data: &[i32]) -> (r: Vec<i32>)
    ensures
        r@ == data@,
{
    let mut v: Vec<i32> = Vec::new();
    for_each_into(data, &mut v);
    assert(v@ =~= data@);
    v
}

/// The transform callback: squares its argument.
pub fn square(x: i32) -> (r: i32)
    requires
        x * x <= i32::MAX,
    ensures
        r == x * x,
{
    assert(x * x >= 0) by (nonlinear_arith);
    x * x
}

/// Returns `value * value`, computed by the transform callback.
pub fn square_via_c(value: i32) -> (r: i32)
    requires
        value * value <= i32::MAX,
    ensures
        r == value * value,
{
    square(value)
}

/// Step `i` of a selection: the comparator, asked about (previous winner,
/// `data[i]`), gave an answer `c`, and the winner became `data[i]` when `c`
/// is positive, else stayed.
pub open spec fn selection_step<F: Fn(i32, i32) -> i32>(data: Seq<i32>, prefer: F, bests: Seq<i32>, i: int) -> bool {
    exists|c: i32|
        #[trigger] call_ensures(prefer, (bests[i - 1], data[i]), c) && bests[i] == (if c > 0 {
            data[i]
        } else {
            bests[i - 1]
        })
}

/// The winners of a selection: `bests[0]` is `data[0]`, and every later
/// entry follows by `selection_step`.
pub open spec fn is_selection_trace<F: Fn(i32, i32) -> i32>(data: Seq<i32>, prefer: F, bests: Seq<i32>) -> bool {
    &&& bests.len() == data.len()
    &&& bests.len() > 0 ==> bests[0] == data[0]
    &&& forall|i: int| 1 <= i < data.len() ==> #[trigger] selection_step(data, prefer, bests, i)
}

/// The element that wins a left-to-right comparison: start with the first,
/// and let each next element replace the current winner when
/// `prefer(winner, next)` is positive (negative or zero keeps the winner).
pub fn rust_select<F: Fn(i32, i32) -> i32>(data: &[i32], prefer: F) -> (r: i32)
    requires
        data@.len() >= 1,
        forall|a: i32, b: i32| call_requires(prefer, (a, b)),
    ensures
        exists|bests: Seq<i32>| is_selection_trace(data@, prefer, bests) && r == bests.last(),
        data@.contains(r),
{
    let mut best = data[0];
    let ghost mut bests: Seq<i32> = seq![data@[0]];
    let mut i: usize = 1;
    while i < data.len()
        invariant
            1 <= i <= data@.len(),
            forall|a: i32, b: i32| call_requires(prefer, (a, b)),
            is_selection_trace(data@.take(i as int), prefer, bests),
            best == bests.last(),
            data@.contains(best),
        decreases data@.len() - i,
    {
        let x = data[i];
        let c = prefer(best, x);
        if c > 0 {
            best = x;
        }
        proof {
            let nb = bests.push(best);
            let dt = data@.take(i as int + 1);
            let dp = data@.take(i as int);
            assert forall|k: int| 1 <= k < dt.len() implies #[trigger] selection_step(dt, prefer, nb, k) by {
                if k == i {
                    assert(call_ensures(prefer, (nb[k - 1], dt[k]), c));
                } else {
                    assert(selection_step(dp, prefer, bests, k));
                    let c3 = choose|c3: i32|
                        #[trigger] call_ensures(prefer, (bests[k - 1], dp[k]), c3) && bests[k] == (if c3 > 0 {
                            dp[k]
                        } else {
                            bests[k - 1]
                        });
                    assert(bests[k] == nb[k]);
                    assert(bests[k - 1] == nb[k - 1]);
                    assert(dp[k] == dt[k]);
                    assert(call_ensures(prefer, (nb[k - 1], dt[k]), c3));
                }
            }
            assert(nb.len() == dt.len());
            assert(nb[0] == dt[0]);
            assert(is_selection_trace(dt, prefer, nb));
            bests = nb;
            assert(data@[i as int] == x);
        }
        i = i + 1;
    }
    assert(data@.take(data@.len() as int) =~= data@);
    best
}

} // verus!

//! Integer helpers that the C side provides: sum, product, absolute value.

use vstd::prelude::*;

verus! {

/// Returns `a + b`.
pub fn add(a: i32, b: i32) -> (r: i32)
    requires
        i32::MIN <= a + b <= i32::MAX,
    ensures
        r == a + b,
{
    a + b
}

/// Returns `a * b`.
pub fn multiply(a: i32, b: i32) -> (r: i32)
    requires
        i32::MIN <= a * b <= i32::MAX,
    ensures
        r == a * b,
{
    a * b
}

/// Absolute value of `x` (`i32::MIN` has none in `i32`).
pub fn abs(x: i32) -> (r: i32)
    requires
        x != i32::MIN,
    ensures
        r == (if x < 0 { -x } else { x as int }),
{
    if x < 0 { -x } else { x }
}

} // verus!

//! Functions that C code calls: arithmetic helpers with exact contracts.

use vstd::prelude::*;

verus! {

/// Returns `a + b`.
pub fn rust_add(a: i32, b: i32) -> (r: i32)
    requires
        i32::MIN <= a + b <= i32::MAX,
    ensures
        r == a + b,
{
    a + b
}

/// Returns the larger of the two values.
pub fn rust_max(a: i32, b: i32) -> (r: i32)
    ensures
        r == (if a >= b { a } else { b }),
{
    if a >= b { a } else { b }
}

/// The Fibonacci numbers: F(0) = 0, F(1) = 1, F(n) = F(n-1) + F(n-2).
pub open spec fn fib(n: nat) -> nat
    decreases n,
{
    if n == 0 {
        0
    } else if n == 1 {
        1
    } else {
        fib((n - 2) as nat) + fib((n - 1) as nat)
    }
}

/// The Fibonacci numbers never decrease.
pub proof fn lemma_fib_monotonic(i: nat, j: nat)
    requires
        i <= j,
    ensures
        fib(i) <= fib(j),
    decreases j - i,
{
    if j < 2 || i == j {
    } else if i == j - 1 {
        assert(fib(j) == fib((j - 2) as nat) + fib((j - 1) as nat));
    } else {
        lemma_fib_monotonic(i, (j - 1) as nat);
        assert(fib(j) == fib((j - 2) as nat) + fib((j - 1) as nat));
    }
}

/// Returns the `n`-th Fibonacci number (0-indexed), computed iteratively.
pub fn rust_fibonacci(n: u32) -> (r: u64)
    requires
        fib(n as nat) <= u64::MAX,
    ensures
        r == fib(n as nat),
{
    if n == 0 {
        return 0;
    }
    let mut prev: u64 = 0;
    let mut cur: u64 = 1;
    let mut i: u32 = 1;
    while i < n
        invariant
            1 <= i <= n,
            fib(n as nat) <= u64::MAX,
            cur == fib(i as nat),
            prev == fib((i - 1) as nat),
        decreases n - i,
    {
        proof {
            lemma_fib_monotonic((i + 1) as nat, n as nat);
        }
        let next = prev + cur;
        prev = cur;
        cur = next;
        i = i + 1;
    }
    cur
}

/// `n` is prime: at least 2, and no number strictly between 1 and `n` divides it.
pub open spec fn is_prime(n: nat) -> bool {
    &&& n >= 2
    &&& forall|d: nat| 2 <= d < n ==> #[trigger] (n % d) != 0
}

/// Returns `true` exactly when `n` is prime (0 and 1 are not prime).
pub fn rust_is_prime(n: u32) -> (r: bool)
    ensures
        r == is_prime(n as nat),
{
    if n < 2 {
        return false;
    }
    let mut d: u32 = 2;
    while d <= n / d
        invariant
            2 <= d <= n,
            forall|j: nat| 2 <= j < d ==> #[trigger] (n as nat % j) != 0,
        decreases n - d,
    {
        if n % d == 0 {
            assert(d < n) by (nonlinear_arith)
                requires d <= n / d, d >= 2;
            assert(n as nat % d as nat == 0);
            return false;
        }
        proof {
            assert(d * d <= n) by (nonlinear_arith)
                requires d <= n / d, d >= 2;
            assert(d + 1 <= n) by (nonlinear_arith)
                requires d * d <= n, d >= 2;
        }
        d = d + 1;
    }
    proof {
        assert(d * d > n) by (nonlinear_arith)
            requires d > n / d, d >= 1;
        assert forall|k: nat| 2 <= k < n implies #[trigger] (n as nat % k) != 0 by {
            if n as nat % k == 0 {
                let m: nat = n as nat / k;
                assert(n as nat == k * m) by (nonlinear_arith)
                    requires n as nat % k == 0, k > 0, m == n as nat / k;
                assert(m >= 2) by (nonlinear_arith)
                    requires n as nat == k * m, k < n, k >= 2;
                if k < d {
                } else {
                    assert(m < d) by (nonlinear_arith)
                        requires n as nat == k * m, k >= d, d * d > n, d >= 1;
                    assert(n as nat % m == 0) by (nonlinear_arith)
                        requires n as nat == k * m, m > 0;
                }
            }
        }
    }
    true
}

/// `d` divides `x`.
pub open spec fn divides(d: int, x: int) -> bool {
    exists|q: int| #[trigger] (d * q) == x
}

/// Greatest common divisor by Euclid's rule; `gcd(0, 0) == 0`.
pub open spec fn gcd(a: nat, b: nat) -> nat
    decreases b,
{
    if b == 0 {
        a
    } else {
        gcd(b, a % b)
    }
}

/// `gcd(a, b)` divides both arguments, and every common divisor of the
/// arguments divides it: it is the greatest common divisor.
pub proof fn lemma_gcd_is_greatest_common_divisor(a: nat, b: nat, c: int)
    ensures
        divides(gcd(a, b) as int, a as int),
        divides(gcd(a, b) as int, b as int),
        divides(c, a as int) && divides(c, b as int) ==> divides(c, gcd(a, b) as int),
    decreases b,
{
    if b == 0 {
        assert(a as int * 1 == a);
        assert(a as int * 0 == 0);
    } else {
        let r = a % b;
        let q = a / b;
        assert(a as int == b * q + r) by (nonlinear_arith)
            requires b > 0, r == a % b, q == a / b;
        lemma_gcd_is_greatest_common_divisor(b, r, c);
        let g = gcd(b, r) as int;
        let s = choose|s: int| #[trigger] (g * s) == b as int;
        let t = choose|t: int| #[trigger] (g * t) == r as int;
        assert(g * (q * s + t) == a as int) by (nonlinear_arith)
            requires g * s == b as int, g * t == r as int, a as int == b * q + r;
        if divides(c, a as int) && divides(c, b as int) {
            let u = choose|u: int| #[trigger] (c * u) == a as int;
            let v = choose|v: int| #[trigger] (c * v) == b as int;
            assert(c * (u - q * v) == r as int) by (nonlinear_arith)
                requires c * u == a as int, c * v == b as int, a as int == b * q + r;
        }
    }
}

/// Greatest common divisor by the Euclidean algorithm; `gcd(0, 0) == 0`.
pub fn rust_gcd(a: u32, b: u32) -> (r: u32)
    ensures
        r == gcd(a as nat, b as nat),
{
    let mut x = a;
    let mut y = b;
    while y != 0
        invariant
            gcd(x as nat, y as nat) == gcd(a as nat, b as nat),
        decreases y,
    {
        let t = x % y;
        x = y;
        y = t;
    }
    x
}

} // verus!

//! Arrays passed as (pointer, length): summing, filling with Fibonacci
//! numbers, building ranges, sorting in place, and mapping through a
//! callback.

use vstd::prelude::*;
use crate::ex02_rust_from_c::{fib, lemma_fib_monotonic};

verus! {

/// The sum of the elements.
pub open spec fn sum_i32(s: Seq<i32>) -> int
    decreases s.len(),
{
    if s.len() == 0 {
        0
    } else {
        sum_i32(s.drop_last()) + s.last()
    }
}

/// Sum of all elements, as `i64`; the sum must fit.
pub fn ffi_sum(data: &[i32]) -> (r: i64)
    requires
        i64::MIN <= sum_i32(data@) <= i64::MAX,
    ensures
        r == sum_i32(data@),
{
    let mut acc: i128 = 0;
    let mut i: usize = 0;
    while i < data.len()
        invariant
            i <= data@.len(),
            acc == sum_i32(data@.take(i as int)),
            -0x8000_0000 * i <= acc <= 0x7fff_ffff * i,
            i <= usize::MAX,
        decreases data@.len() - i,
    {
        assert(data@.take(i as int + 1).drop_last() =~= data@.take(i as int));
        acc = acc + data[i] as i128;
        i = i + 1;
    }
    assert(data@.take(data@.len() as int) =~= data@);
    acc as i64
}

/// Fills `buf` with the first Fibonacci numbers: `buf[i] == F(i)`.
pub fn ffi_fill_fibonacci(buf: &mut [u64])
    requires
        old(buf)@.len() > 0 ==> fib((old(buf)@.len() - 1) as nat) <= u64::MAX,
    ensures
        final(buf)@.len() == old(buf)@.len(),
        forall|i: int| 0 <= i < final(buf)@.len() ==> final(buf)@[i] == fib(i as nat),
{
    let n = buf.len();
    let mut i: usize = 0;
    while i < n
        invariant
            n == buf@.len(),
            i <= n,
            n > 0 ==> fib((n - 1) as nat) <= u64::MAX,
            forall|j: int| 0 <= j < i ==> buf@[j] == fib(j as nat),
        decreases n - i,
    {
        proof {
            lemma_fib_monotonic(i as nat, (n - 1) as nat);
        }
        if i < 2 {
            buf[i] = i as u64;
        } else {
            let a = buf[i - 2];
            let b = buf[i - 1];
            assert(fib(i as nat) == fib((i - 2) as nat) + fib((i - 1) as nat));
            buf[i] = a + b;
        }
        i = i + 1;
    }
}

/// The integers `start, start + 1, ..., end - 1` (empty when `start >= end`).
pub fn ffi_create_range(start: i32, end: i32) -> (r: Vec<i32>)
    ensures
        r@.len() == (if start < end { end - start } else { 0 }),
        forall|i: int| 0 <= i < r@.len() ==> r@[i] == start + i,
{
    let mut v: Vec<i32> = Vec::new();
    if start >= end {
        return v;
    }
    let mut x = start;
    while x < end
        invariant
            start <= x <= end,
            v@.len() == x - start,
            forall|i: int| 0 <= i < v@.len() ==> v@[i] == start + i,
        decreases end - x,
    {
        v.push(x);
        x = x + 1;
    }
    v
}

/// Sorted from largest to smallest.
pub open spec fn sorted_desc(s: Seq<i32>) -> bool {
    forall|a: int, b: int| 0 <= a < b < s.len() ==> s[a] >= s[b]
}

proof fn lemma_swap_multiset(s: Seq<i32>, k: int)
    requires
        0 <= k,
        k + 1 < s.len(),
    ensures
        s.update(k, s[k + 1]).update(k + 1, s[k]).to_multiset() == s.to_multiset(),
{
    broadcast use vstd::seq_lib::to_multiset_update;
    broadcast use vstd::multiset::group_multiset_properties;
    broadcast use vstd::multiset::group_multiset_axioms;

    let s1 = s.update(k, s[k + 1]);
    assert(s1[k + 1] == s[k + 1]);
    assert(s1.to_multiset() == s.to_multiset().insert(s[k + 1]).remove(s[k]));
    assert(s1.update(k + 1, s[k]).to_multiset() == s1.to_multiset().insert(s[k]).remove(s[k + 1]));
    assert(s.to_multiset().count(s[k]) > 0) by {
        vstd::seq_lib::to_multiset_contains(s, s[k]);
        assert(s.contains(s[k]));
    }
    assert(s.to_multiset().insert(s[k + 1]).remove(s[k]).insert(s[k]).remove(s[k + 1]) =~= s.to_multiset());
}

/// Sorts `data` in place from largest to smallest; the result is a
/// rearrangement of the input.
pub fn ffi_sort_desc(data: &mut [i32])
    ensures
        final(data)@.len() == old(data)@.len(),
        final(data)@.to_multiset() == old(data)@.to_multiset(),
        sorted_desc(final(data)@),
{
    let n = data.len();
    if n < 2 {
        return;
    }
    let mut i: usize = 1;
    while i < n
        invariant
            n == data@.len(),
            1 <= i <= n,
            data@.to_multiset() == old(data)@.to_multiset(),
            sorted_desc(data@.take(i as int)),
        decreases n - i,
    {
        let mut j: usize = i;
        assert forall|a: int, b: int| 0 <= a < b <= i && a != j && b != j implies data@[a] >= data@[b] by {
            assert(data@.take(i as int)[a] == data@[a]);
            assert(data@.take(i as int)[b] == data@[b]);
        }
        while j > 0 && data[j - 1] < data[j]
            invariant
                n == data@.len(),
                0 <= j <= i < n,
                data@.to_multiset() == old(data)@.to_multiset(),
                forall|a: int, b: int| 0 <= a < b <= i && a != j && b != j ==> data@[a] >= data@[b],
                forall|b: int| j < b <= i ==> data@[j as int] >= data@[b],
            decreases j,
        {
            let x = data[j - 1];
            let y = data[j];
            proof {
                lemma_swap_multiset(data@, j - 1);
            }
            data[j - 1] = y;
            data[j] = x;
            j = j - 1;
        }
        proof {
            assert forall|a: int, b: int| 0 <= a < b < i + 1 implies #[trigger] data@.take(i as int + 1)[a]
                >= #[trigger] data@.take(i as int + 1)[b] by {
                if a == j {
                } else if b == j {
                    if j > 0 {
                    }
                }
            }
        }
        i = i + 1;
    }
    assert(data@.take(n as int) =~= data@);
}

/// A new array of `f` applied to each element of `src`.
pub fn ffi_map<F: Fn(i32) -> i32>(src: &[i32], f: F) -> (r: Vec<i32>)
    requires
        forall|i: int| 0 <= i < src@.len() ==> call_requires(f, (src@[i],)),
    ensures
        r@.len() == src@.len(),
        forall|i: int| 0 <= i < src@.len() ==> call_ensures(f, (src@[i],), #[trigger] r@[i]),
{
    let mut out: Vec<i32> = Vec::new();
    let mut i: usize = 0;
    while i < src.len()
        invariant
            i <= src@.len(),
            out@.len() == i,
            forall|j: int| 0 <= j < src@.len() ==> call_requires(f, (src@[j],)),
            forall|j: int| 0 <= j < i ==> call_ensures(f, (src@[j],), #[trigger] out@[j]),
        decreases src@.len() - i,
    {
        let y = f(src[i]);
        out.push(y);
        i = i + 1;
    }
    out
}

} // verus!

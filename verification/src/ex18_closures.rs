//! Rust closures driven through C-style callbacks: a shared closure applied
//! twice, a stateful generator, a consuming one-shot call, an element-wise
//! map, and a pipeline of all three.

use vstd::prelude::*;

verus! {

/// `f(a) + f(b)`.
pub fn apply_twice_with_closure<F: Fn(i32) -> i32>(a: i32, b: i32, f: F) -> (r: i32)
    requires
        call_requires(f, (a,)),
        call_requires(f, (b,)),
        forall|ra: i32, rb: i32|
            call_ensures(f, (a,), ra) && call_ensures(f, (b,), rb) ==> i32::MIN <= ra + rb <= i32::MAX,
    ensures
        exists|ra: i32, rb: i32| call_ensures(f, (a,), ra) && call_ensures(f, (b,), rb) && r == ra + rb,
{
    let ra = f(a);
    let rb = f(b);
    ra + rb
}

/// `count` values, each the result of one more call of the generator. A
/// call leaves the generator's value as Verus sees it unchanged, so every
/// value is a possible result of calling the generator as handed in.
pub fn generate_with_closure<F: FnMut() -> i32>(count: usize, f: F) -> (r: Vec<i32>)
    requires
        call_requires(f, ()),
    ensures
        r@.len() == count,
        forall|i: int| 0 <= i < count ==> call_ensures(f, (), #[trigger] r@[i]),
{
    let ghost first = f;
    let mut f = f;
    let mut out: Vec<i32> = Vec::new();
    let mut i: usize = 0;
    while i < count
        invariant
            i <= count,
            out@.len() == i,
            f == first,
            call_requires(first, ()),
            forall|k: int| 0 <= k < i ==> call_ensures(first, (), #[trigger] out@[k]),
        decreases count - i,
    {
        let v = f();
        out.push(v);
        i = i + 1;
    }
    out
}

/// Calls the consuming closure exactly once and returns its result.
pub fn call_once_with_closure<F: FnOnce() -> i32>(f: F) -> (r: i32)
    requires
        call_requires(f, ()),
    ensures
        call_ensures(f, (), r),
{
    f()
}

/// `f` applied to each element of `input`, in order.
pub fn map_with_closure<F: Fn(i32) -> i32>(input: &[i32], f: F) -> (r: Vec<i32>)
    requires
        forall|i: int| 0 <= i < input@.len() ==> call_requires(f, (input@[i],)),
    ensures
        r@.len() == input@.len(),
        forall|i: int| 0 <= i < input@.len() ==> call_ensures(f, (input@[i],), #[trigger] r@[i]),
{
    let mut out: Vec<i32> = Vec::new();
    let mut i: usize = 0;
    while i < input.len()
        invariant
            i <= input@.len(),
            out@.len() == i,
            forall|j: int| 0 <= j < input@.len() ==> call_requires(f, (input@[j],)),
            forall|j: int| 0 <= j < i ==> call_ensures(f, (input@[j],), #[trigger] out@[j]),
        decreases input@.len() - i,
    {
        let y = f(input[i]);
        out.push(y);
        i = i + 1;
    }
    out
}

/// The sum of a sequence of integers.
pub open spec fn sum_ints(s: Seq<int>) -> int
    decreases s.len(),
{
    if s.len() == 0 {
        0
    } else {
        sum_ints(s.drop_last()) + s.last()
    }
}

/// The values of `i32`s as integers.
pub open spec fn as_ints(s: Seq<i32>) -> Seq<int> {
    s.map_values(|x: i32| x as int)
}

/// Every prefix sum of `s` fits an `i32`.
pub open spec fn prefix_sums_fit(s: Seq<int>) -> bool {
    forall|k: int| 0 <= k <= s.len() ==> i32::MIN <= #[trigger] sum_ints(s.take(k)) <= i32::MAX
}

/// The sum of `v`, added left to right.
pub fn sum_i32s(v: &Vec<i32>) -> (r: i32)
    requires
        prefix_sums_fit(as_ints(v@)),
    ensures
        r == sum_ints(as_ints(v@)),
{
    let ghost s = as_ints(v@);
    let mut acc: i32 = 0;
    let mut i: usize = 0;
    assert(s.take(0) =~= Seq::<int>::empty());
    while i < v.len()
        invariant
            s == as_ints(v@),
            i <= v@.len(),
            prefix_sums_fit(s),
            acc == sum_ints(s.take(i as int)),
        decreases v@.len() - i,
    {
        assert(s.take(i as int + 1).drop_last() =~= s.take(i as int));
        assert(i32::MIN <= sum_ints(s.take(i as int + 1)) <= i32::MAX);
        acc = acc + v[i];
        i = i + 1;
    }
    assert(s.take(v@.len() as int) =~= s);
    acc
}

/// The terms of the pipeline: `(start + i) * factor` for `i < count`.
pub open spec fn pipeline_terms(start: i32, count: usize, factor: i32) -> Seq<int> {
    Seq::new(count as nat, |i: int| (start + i) * factor)
}

/// Generates `start, start + 1, ...` (`count` values), multiplies each by
/// `factor`, and sums the products with a closure that owns them.
pub fn closure_pipeline(start: i32, count: usize, factor: i32) -> (r: i32)
    requires
        start + count <= i32::MAX + 1,
        forall|i: int| 0 <= i < count ==> i32::MIN <= #[trigger] ((start + i) * factor) <= i32::MAX,
        prefix_sums_fit(pipeline_terms(start, count, factor)),
    ensures
        r == sum_ints(pipeline_terms(start, count, factor)),
{
    let mut generated: Vec<i32> = Vec::new();
    let mut i: usize = 0;
    while i < count
        invariant
            i <= count,
            start + count <= i32::MAX + 1,
            generated@.len() == i,
            forall|j: int| 0 <= j < i ==> #[trigger] generated@[j] == start + j,
        decreases count - i,
    {
        let x: i64 = start as i64 + i as i64;
        generated.push(x as i32);
        i = i + 1;
    }
    let scale = |x: i32| -> (y: i32)
        requires
            i32::MIN <= x * factor <= i32::MAX,
        ensures
            y == x * factor,
        { x * factor };
    assert forall|j: int| 0 <= j < generated@.len() implies call_requires(scale, (generated@[j],)) by {
        assert(generated@[j] == start + j);
        assert(i32::MIN <= (start + j) * factor <= i32::MAX);
    }
    let mapped = map_with_closure(generated.as_slice(), scale);
    assert(as_ints(mapped@) =~= pipeline_terms(start, count, factor)) by {
        assert forall|j: int| 0 <= j < mapped@.len() implies #[trigger] as_ints(mapped@)[j] == pipeline_terms(
            start,
            count,
            factor,
        )[j] by {
            assert(call_ensures(scale, (generated@[j],), mapped@[j]));
            assert(generated@[j] == start + j);
        }
    }
    let total = move || -> (s: i32)
        requires
            prefix_sums_fit(as_ints(mapped@)),
        ensures
            s == sum_ints(as_ints(mapped@)),
        { sum_i32s(&mapped) };
    call_once_with_closure(total)
}

} // verus!

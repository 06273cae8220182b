use rust_ffi_exercises::ex07_callbacks::{accumulate, collect_via_c, rust_select, square, square_via_c};

#[test]
fn test_ex07_collect_via_c() {
    let data = [10, 20, 30];
    let collected = collect_via_c(&data);
    assert_eq!(collected, vec![10, 20, 30]);
}

#[test]
fn test_ex07_square_via_c() {
    assert_eq!(square_via_c(5), 25);
    assert_eq!(square_via_c(-3), 9);
    assert_eq!(square_via_c(0), 0);
}

#[test]
fn test_ex07_rust_for_each() {
    let mut acc: Vec<i32> = Vec::new();
    for i in 0..4 {
        accumulate(&mut acc, i);
    }
    assert_eq!(acc, vec![0, 1, 2, 3]);
}

#[test]
fn test_ex07_rust_select_max() {
    let data = [3, 1, 4, 1, 5, 9, 2, 6];
    let prefer_larger = |a: i32, b: i32| b - a; // positive when b > a → b wins
    let best = rust_select(&data, prefer_larger);
    assert_eq!(best, 9);
}

#[test]
fn test_ex07_rust_select_min() {
    let data = [3, 1, 4, 1, 5];
    let prefer_smaller = |a: i32, b: i32| a - b; // positive when a > b → b wins
    let best = rust_select(&data, prefer_smaller);
    assert_eq!(best, 1);
}

#[test]
fn select_single_element_and_ties() {
    assert_eq!(rust_select(&[42], |a: i32, b: i32| b - a), 42);
    // A zero answer keeps the current best.
    assert_eq!(rust_select(&[1, 2, 3], |_a: i32, _b: i32| 0), 1);
}

#[test]
fn square_largest_input() {
    assert_eq!(square(46340), 2147395600);
    assert_eq!(square_via_c(-46340), 2147395600);
}

#[test]
fn collect_empty() {
    assert!(collect_via_c(&[]).is_empty());
}

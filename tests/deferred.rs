use std::cell::Cell;

use rendezvous::deferred::Deferred;

#[test]
fn on_stack() {
    let fired = &Cell::new(false);
    let a = [0usize; 1];

    let d = Deferred::new(move || {
        drop(a);
        fired.set(true);
    });

    assert!(!fired.get());
    d.call();
    assert!(fired.get());
}

#[test]
fn on_heap() {
    let fired = &Cell::new(false);
    let a = [0usize; 10];

    let d = Deferred::new(move || {
        drop(a);
        fired.set(true);
    });

    assert!(!fired.get());
    d.call();
    assert!(fired.get());
}

#[test]
fn string() {
    let a = "hello".to_string();
    let d = Deferred::new(move || assert_eq!(a, "hello"));
    d.call();
}

#[test]
fn boxed_slice_i32() {
    let a: Box<[i32]> = vec![2, 3, 5, 7].into_boxed_slice();
    let d = Deferred::new(move || assert_eq!(*a, [2, 3, 5, 7]));
    d.call();
}

#[test]
fn long_slice_usize() {
    let a: [usize; 5] = [2, 3, 5, 7, 11];
    let d = Deferred::new(move || assert_eq!(a, [2, 3, 5, 7, 11]));
    d.call();
}

#[test]
fn call_runs_exactly_once_small_and_large() {
    let count = &Cell::new(0u32);
    let small = Deferred::new(move || count.set(count.get() + 1));
    small.call();
    assert_eq!(count.get(), 1);
    let big = [1u64; 8];
    let large = Deferred::new(move || count.set(count.get() + big.len() as u32));
    assert_eq!(count.get(), 1);
    large.call();
    assert_eq!(count.get(), 9);
}

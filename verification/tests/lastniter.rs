use std::collections::VecDeque;

use partialfolditer::counter::Counter;
use partialfolditer::lastniter::LastNIter;
use partialfolditer::pull::Pull;

fn pull_up_to<P: Pull>(p: &mut P, n: usize) -> Vec<P::Elem> {
    let mut out: Vec<P::Elem> = Vec::new();
    for _ in 0..n {
        match p.pull() {
            Some(x) => out.push(x),
            None => break,
        }
    }
    out
}

#[test]
fn test_int() {
    let expected = vec![
        VecDeque::from(vec![0]),
        VecDeque::from(vec![0, 1]),
        VecDeque::from(vec![0, 1, 2]),
        VecDeque::from(vec![1, 2, 3]),
    ];
    let mut it = Counter::new(0, 1, None).last_n(3);
    let output = pull_up_to(&mut it, 4);
    assert_eq!(expected, output);
}

#[test]
fn test_sum() {
    let expected = vec![0, 1, 3, 6, 10, 15, 20];
    let mut it = Counter::new(0, 1, None).last_n(5);
    let output: Vec<i32> = pull_up_to(&mut it, 7)
        .into_iter()
        .map(|v: VecDeque<i32>| v.iter().sum())
        .collect();
    assert_eq!(expected, output);
}

#[test]
fn test_mean() {
    let expected = vec![0, 1, 3, 5];
    let mut it = Counter::new(0, 2, None).last_n(2);
    let output: Vec<i32> = pull_up_to(&mut it, 4)
        .into_iter()
        .map(|v: VecDeque<i32>| v.iter().sum::<i32>() / 2)
        .collect();
    assert_eq!(expected, output);
}

#[test]
fn test_window_capacity_zero() {
    let mut it = Counter::new(0, 1, Some(3)).last_n(0);
    let output = pull_up_to(&mut it, 10);
    assert_eq!(output.len(), 3);
    for w in output {
        assert!(w.is_empty());
    }
}

#[test]
fn test_window_large_capacity() {
    let mut it = Counter::new(0, 1, Some(4)).last_n(10);
    let output = pull_up_to(&mut it, 10);
    assert_eq!(output.len(), 4);
    assert_eq!(output[3], VecDeque::from(vec![0, 1, 2, 3]));
}

#[test]
fn test_nested_windows() {
    let expected = vec![
        VecDeque::from(vec![VecDeque::from(vec![0])]),
        VecDeque::from(vec![VecDeque::from(vec![0]), VecDeque::from(vec![0, 1])]),
        VecDeque::from(vec![
            VecDeque::from(vec![0, 1]),
            VecDeque::from(vec![0, 1, 2]),
        ]),
    ];
    let mut it = Counter::new(0, 1, None).last_n(3).last_n(2);
    let output = pull_up_to(&mut it, 3);
    assert_eq!(expected, output);
}

#[test]
fn test_window_exhaustion_is_final() {
    let mut it = Counter::new(0, 1, Some(1)).last_n(2);
    assert_eq!(it.pull(), Some(VecDeque::from(vec![0])));
    assert_eq!(it.pull(), None);
    assert_eq!(it.pull(), None);
}

#[test]
fn test_window_size_estimate_propagates() {
    let c = Counter::new(0, 1, Some(4));
    let hint = c.size_estimate();
    let it = c.last_n(2);
    assert_eq!(it.size_estimate(), hint);
}

#[test]
fn test_window_adapter_clone_independent() {
    let mut it = Counter::new(0, 1, None).last_n(2);
    assert_eq!(it.pull(), Some(VecDeque::from(vec![0])));
    let mut copy = it.clone();
    assert_eq!(it.pull(), Some(VecDeque::from(vec![0, 1])));
    assert_eq!(copy.pull(), Some(VecDeque::from(vec![0, 1])));
    assert_eq!(it.pull(), Some(VecDeque::from(vec![1, 2])));
}

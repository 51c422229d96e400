use std::collections::VecDeque;

use partialfolditer::counter::Counter;
use partialfolditer::lastniter::LastNIter;
use partialfolditer::partialfolditer::PartialFoldIterator;
use partialfolditer::pull::Pull;

fn pull_all<P: Pull>(p: &mut P, limit: usize) -> Vec<P::Elem> {
    let mut out: Vec<P::Elem> = Vec::new();
    for _ in 0..limit {
        match p.pull() {
            Some(x) => out.push(x),
            None => break,
        }
    }
    out
}

#[test]
fn test_int_sum() {
    let expected = vec![(0, 0), (1, 1), (3, 2), (6, 3), (10, 4)];
    let mut it = Counter::new(0, 1, Some(5)).partial_fold(0, |acc: &i32, x: &i32| -> i32 {
        *acc + *x
    });
    let output = pull_all(&mut it, 100);
    assert_eq!(expected, output);
}

#[test]
fn test_int_prod() {
    let expected = vec![(1, 1), (2, 2), (6, 3), (24, 4)];
    let mut it = Counter::new(1, 1, Some(5)).partial_fold(1, |acc: &i32, x: &i32| -> i32 {
        *acc * *x
    });
    let output = pull_all(&mut it, 100);
    assert_eq!(expected, output);
}

#[test]
fn test_vec_grow() {
    let expected = vec![
        (vec![0], 0),
        (vec![0, 1], 1),
        (vec![0, 1, 2], 2),
        (vec![0, 1, 2, 3], 3),
        (vec![0, 1, 2, 3, 4], 4),
    ];
    let mut it = Counter::new(0, 1, Some(5)).partial_fold(
        Vec::<i32>::new(),
        |acc: &Vec<i32>, x: &i32| -> Vec<i32> {
            let mut a = acc.to_vec();
            a.push(*x);
            a
        },
    );
    let output = pull_all(&mut it, 100);
    assert_eq!(expected, output);
}

#[test]
fn test_fold_empty_input() {
    let mut it = Counter::new(0, 1, Some(0)).partial_fold(7, |acc: &i32, x: &i32| -> i32 {
        *acc + *x
    });
    assert_eq!(it.pull(), None);
    assert_eq!(it.pull(), None);
}

#[test]
fn test_fold_exhaustion_is_final() {
    let mut it = Counter::new(5, 1, Some(6)).partial_fold(0, |acc: &i32, x: &i32| -> i32 {
        *acc + *x
    });
    assert_eq!(it.pull(), Some((5, 5)));
    assert_eq!(it.pull(), None);
    assert_eq!(it.pull(), None);
}

#[test]
fn test_fold_size_estimate_propagates() {
    let c = Counter::new(0, 1, None);
    let hint = c.size_estimate();
    let it = c.partial_fold(0, |acc: &i32, x: &i32| -> i32 { *acc + *x });
    assert_eq!(it.size_estimate(), hint);
}

#[test]
fn test_fold_of_windows() {
    let mut it = Counter::new(0, 1, None).last_n(2).partial_fold(
        0,
        |acc: &i32, w: &VecDeque<i32>| -> i32 { *acc + w.iter().sum::<i32>() },
    );
    let output = pull_all(&mut it, 4);
    assert_eq!(
        output,
        vec![
            (0, VecDeque::from(vec![0])),
            (1, VecDeque::from(vec![0, 1])),
            (4, VecDeque::from(vec![1, 2])),
            (9, VecDeque::from(vec![2, 3])),
        ]
    );
}

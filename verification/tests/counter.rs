use partialfolditer::counter::Counter;
use partialfolditer::pull::Pull;

#[test]
fn test_counter_bounded_values() {
    let mut c = Counter::new(3, 2, Some(8));
    assert_eq!(c.pull(), Some(3));
    assert_eq!(c.pull(), Some(5));
    assert_eq!(c.pull(), Some(7));
    assert_eq!(c.pull(), None);
    assert_eq!(c.pull(), None);
}

#[test]
fn test_counter_empty_when_start_at_limit() {
    let mut c = Counter::new(4, 1, Some(4));
    assert_eq!(c.pull(), None);
}

#[test]
fn test_counter_overflow_exhausts() {
    let mut c = Counter::new(i32::MAX - 1, 1, None);
    assert_eq!(c.pull(), Some(i32::MAX - 1));
    assert_eq!(c.pull(), Some(i32::MAX));
    assert_eq!(c.pull(), None);
}

#[test]
fn test_counter_size_estimate_after_exhaustion() {
    let mut c = Counter::new(0, 1, Some(1));
    assert_eq!(c.size_estimate(), (0, None));
    assert_eq!(c.pull(), Some(0));
    assert_eq!(c.pull(), None);
    assert_eq!(c.size_estimate(), (0, Some(0)));
}

use credprobe::counter::InFlightCounter;

#[test]
fn counter_starts_empty() {
    let c = InFlightCounter::new(10);
    assert_eq!(c.current_count(), 0);
    assert_eq!(c.limit(), 10);
}

#[test]
fn counter_never_exceeds_the_limit() {
    let mut c = InFlightCounter::new(3);
    assert!(c.try_acquire());
    assert!(c.try_acquire());
    assert!(c.try_acquire());
    assert_eq!(c.current_count(), 3);
    // the gauge is full: further acquisitions are refused and change nothing
    assert!(!c.try_acquire());
    assert!(!c.try_acquire());
    assert_eq!(c.current_count(), 3);
    assert!(c.current_count() <= c.limit());
}

#[test]
fn counter_release_frees_a_slot() {
    let mut c = InFlightCounter::new(2);
    assert!(c.try_acquire());
    assert!(c.try_acquire());
    assert!(!c.try_acquire());
    c.release();
    assert_eq!(c.current_count(), 1);
    assert!(c.try_acquire());
    assert_eq!(c.current_count(), 2);
    c.release();
    c.release();
    assert_eq!(c.current_count(), 0);
}

#[test]
fn counter_with_zero_limit_admits_nothing() {
    let mut c = InFlightCounter::new(0);
    assert!(!c.try_acquire());
    assert_eq!(c.current_count(), 0);
}

use cbr_alarm::duration::Duration;

#[test]
fn seconds_and_milliseconds_agree() {
    let d = Duration::from_secs(3);
    assert_eq!(d.as_millis(), 3000);
    assert_eq!(d.as_secs(), 3);
    assert_eq!(Duration::from_millis(2999).as_secs(), 2);
    assert!(Duration::zero().is_zero());
}

#[test]
fn arithmetic_saturates() {
    let a = Duration::from_millis(1500);
    let b = Duration::from_millis(2000);
    assert_eq!(a.saturating_sub(b), Duration::zero());
    assert_eq!(b.saturating_sub(a), Duration::from_millis(500));
    assert_eq!(a.saturating_add(b), Duration::from_millis(3500));
    let max = Duration::from_millis(u64::MAX);
    assert_eq!(max.saturating_add(a), max);
    assert_eq!(Duration::from_secs_saturating(u64::MAX), max);
    assert_eq!(Duration::from_secs_saturating(2), Duration::from_secs(2));
}

use std::cell::Cell;

use cbr_alarm::anime::AnimChrono;
use cbr_alarm::duration::Duration;
use cbr_alarm::ratio::Ratio;
use cbr_alarm::shapes::{Marker, ShapeSelect};
use ratatui::style::Color;

fn clock(secs: u64) -> AnimChrono {
    AnimChrono::new(ShapeSelect::select_from(0, Color::LightRed), Duration::from_secs(secs))
}

#[test]
fn completion_fires_once() {
    let mut c = clock(2);
    let calls = Cell::new(0);
    let cb = || calls.set(calls.get() + 1);
    assert!(!c.update(Duration::from_millis(900), cb));
    assert_eq!(calls.get(), 0);
    assert!(c.update(Duration::from_millis(200), cb));
    assert_eq!(calls.get(), 1);
    assert_eq!(c.remaining, Duration::from_millis(900));
    for _ in 0..5 {
        assert!(!c.update(Duration::from_secs(1), cb));
    }
    assert_eq!(calls.get(), 1);
    assert_eq!(c.remaining, Duration::zero());
}

#[test]
fn lengthening_after_completion_does_not_fire_again() {
    let mut c = clock(1);
    let calls = Cell::new(0);
    let cb = || calls.set(calls.get() + 1);
    assert!(c.update(Duration::from_secs(1), cb));
    c.increase_timeout(10);
    assert_eq!(c.remaining, Duration::from_secs(10));
    assert_eq!(c.timeout, Duration::from_secs(11));
    assert!(!c.update(Duration::from_secs(20), cb));
    assert_eq!(calls.get(), 1);
}

#[test]
fn remaining_never_grows_under_updates() {
    let mut c = clock(10);
    let mut last = c.remaining;
    for ms in [300u64, 0, 4000, 7000, 1, 10_000] {
        c.update(Duration::from_millis(ms), || {});
        assert!(c.remaining.as_millis() <= last.as_millis());
        last = c.remaining;
    }
    assert_eq!(last, Duration::zero());
}

#[test]
fn decrease_saturates_both() {
    let mut c = clock(5);
    c.update(Duration::from_secs(2), || {});
    c.decrease_timeout(4);
    assert_eq!(c.timeout, Duration::from_secs(1));
    assert_eq!(c.remaining, Duration::zero());
    c.decrease_timeout(4);
    assert_eq!(c.timeout, Duration::zero());
}

#[test]
fn increase_saturates_at_the_largest_span() {
    let mut c = clock(5);
    c.increase_timeout(u64::MAX);
    assert_eq!(c.timeout, Duration::from_millis(u64::MAX));
    assert_eq!(c.remaining, Duration::from_millis(u64::MAX));
}

#[test]
fn completion_ratio_runs_from_zero_to_one() {
    let mut c = clock(4);
    assert_eq!(c.completion_ratio(), Ratio::new(0, 4000));
    c.update(Duration::from_secs(1), || {});
    assert_eq!(c.completion_ratio(), Ratio::new(1000, 4000));
    c.update(Duration::from_secs(5), || {});
    assert_eq!(c.completion_ratio(), Ratio::new(4000, 4000));
}

#[test]
fn a_zero_duration_counts_as_no_progress() {
    let c = clock(0);
    assert_eq!(c.completion_ratio(), Ratio::zero());
}

#[test]
fn time_left_counts_all_minutes() {
    let c = clock(3725);
    assert_eq!(c.get_time_left_formated(), (1, 62, 5));
    let c = clock(59);
    assert_eq!(c.get_time_left_formated(), (0, 0, 59));
}

#[test]
fn the_centred_shape_follows_the_clock() {
    let mut c = clock(4);
    c.update(Duration::from_secs(1), || {});
    assert_eq!(c.get_marker(), Marker::Dot);
    match c.centered_shape(40, 20, Color::DarkGray) {
        ShapeSelect::ArcSelect(a) => {
            assert_eq!(a.width, 40);
            assert_eq!(a.height, 20);
            assert_eq!(a.thickness, 8);
            assert_eq!(a.arc_perc, Ratio::new(1000, 4000));
            assert_eq!(a.color, Color::LightRed);
            assert_eq!(a.bgcolor, Some(Color::DarkGray));
        }
        _ => panic!("expected the arc"),
    }
}

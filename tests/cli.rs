use cbr_alarm::cli::DurationTmArg;
use cbr_alarm::duration::Duration;

#[test]
fn when_having_second_should_convert_second() {
    let d = DurationTmArg {
        duration: "1s".to_string(),
    };
    assert_eq!(Duration::from_secs(1), d.parse().unwrap());
}

#[test]
fn when_having_min_should_convert_min() {
    let d = DurationTmArg {
        duration: "1m".to_string(),
    };
    assert_eq!(Duration::from_secs(60), d.parse().unwrap());
}

#[test]
fn when_having_hours_should_convert_hours() {
    let d = DurationTmArg {
        duration: "1h".to_string(),
    };
    assert_eq!(Duration::from_secs(60 * 60), d.parse().unwrap());
}

#[test]
fn when_having_hours_min_sec_should_convert() {
    let d = DurationTmArg {
        duration: "1h1m2s".to_string(),
    };
    let total = (60 * 60) + (60) + 2;
    assert_eq!(Duration::from_secs(total), d.parse().unwrap());
}

#[test]
fn when_having_hours_min_sec_in_diff_order_should_convert() {
    let d = DurationTmArg {
        duration: "39m16s2h".to_string(),
    };
    let total = (2 * (60 * 60)) + 39 * (60) + 16;
    assert_eq!(Duration::from_secs(total), d.parse().unwrap());
}

#[test]
fn when_no_unit_should_return_none() {
    let d = DurationTmArg {
        duration: "3962".to_string(),
    };

    assert_eq!(None, d.parse());
}

#[test]
fn when_empty_should_return_none() {
    let d = DurationTmArg {
        duration: "".to_string(),
    };

    assert_eq!(None, d.parse());
}

#[test]
fn when_no_value_should_return_none() {
    let d = DurationTmArg {
        duration: "ehllo".to_string(),
    };

    assert_eq!(None, d.parse());
}

#[test]
fn when_having_multi_second_should_convert_second() {
    let d = DurationTmArg {
        duration: "1s2s3s".to_string(),
    };
    assert_eq!(Duration::from_secs(6), d.parse().unwrap());
}

fn parse(s: &str) -> Option<Duration> {
    DurationTmArg {
        duration: s.to_string(),
    }
    .parse()
}

#[test]
fn repeated_units_add_up_in_any_order() {
    assert_eq!(parse("2h30m2h"), Some(Duration::from_secs(4 * 3600 + 30 * 60)));
    assert_eq!(parse("5s1h5s"), Some(Duration::from_secs(3610)));
}

#[test]
fn white_space_separates_pieces() {
    assert_eq!(parse(" 1h 2m\t3s "), Some(Duration::from_secs(3723)));
    assert_eq!(parse("1h\u{3000}2s"), Some(Duration::from_secs(3602)));
}

#[test]
fn a_plus_sign_is_accepted() {
    assert_eq!(parse("+5s"), Some(Duration::from_secs(5)));
    assert_eq!(parse("+s"), None);
}

#[test]
fn malformed_pieces_give_none() {
    assert_eq!(parse("   "), None);
    assert_eq!(parse("s"), None);
    assert_eq!(parse("1h5"), None);
    assert_eq!(parse("1 h"), None);
    assert_eq!(parse("-5s"), None);
    assert_eq!(parse("5x"), None);
    assert_eq!(parse("1.5m"), None);
}

#[test]
fn zero_pieces_are_accepted() {
    assert_eq!(parse("0s"), Some(Duration::from_secs(0)));
    assert_eq!(parse("007m"), Some(Duration::from_secs(420)));
}

#[test]
fn the_largest_duration_parses_and_one_more_second_does_not() {
    assert_eq!(
        parse("18446744073709551s"),
        Some(Duration::from_secs(18446744073709551))
    );
    assert_eq!(parse("18446744073709552s"), None);
    assert_eq!(parse("18446744073709551s1s"), None);
    assert_eq!(parse("99999999999999999999999s"), None);
}

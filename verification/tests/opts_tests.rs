use butai::opts::{interval_from_parsed, parse_interval, Interval};
use butai::span_bound::reaches_duration_limit;

#[test]
fn one_hour_is_accepted() {
    assert_eq!(parse_interval("1h"), Ok(Interval { secs: 3600, nanos: 0 }));
}

#[test]
fn exactly_one_minute_is_accepted() {
    assert_eq!(parse_interval("1m"), Ok(Interval { secs: 60, nanos: 0 }));
}

#[test]
fn compound_duration_is_summed() {
    assert_eq!(parse_interval("2h 37min"), Ok(Interval { secs: 9420, nanos: 0 }));
    assert_eq!(parse_interval("61.5s"), Ok(Interval { secs: 61, nanos: 500_000_000 }));
}

#[test]
fn under_a_minute_is_refused() {
    assert_eq!(parse_interval("59s"), Err("interval must be at least 1m".to_string()));
    assert_eq!(parse_interval("59s 999ms"), Err("interval must be at least 1m".to_string()));
    assert_eq!(parse_interval("0"), Err("interval must be at least 1m".to_string()));
}

#[test]
fn parse_errors_are_passed_on() {
    assert_eq!(parse_interval(""), Err("value was empty".to_string()));
    assert_eq!(parse_interval("abc"), Err("expected number at 0".to_string()));
}

#[test]
fn parsed_values_are_checked() {
    assert_eq!(interval_from_parsed(Ok((60, 7))), Ok(Interval { secs: 60, nanos: 7 }));
    assert_eq!(interval_from_parsed(Ok((59, 999_999_999))), Err("interval must be at least 1m".to_string()));
    assert_eq!(interval_from_parsed(Err("bad".to_string())), Err("bad".to_string()));
}

const TOO_LARGE: &str = "number is too large or cannot be represented without a lack of precision (values below 1ns are not supported)";

fn humantime_interval(text: &str) -> Result<Interval, String> {
    let d: std::time::Duration = text.parse::<humantime::Duration>().map_err(|e| e.to_string())?.into();
    if d < std::time::Duration::from_secs(60) {
        Err("interval must be at least 1m".to_string())
    } else {
        Ok(Interval { secs: d.as_secs(), nanos: d.subsec_nanos() })
    }
}

#[test]
fn many_digits_are_read() {
    assert_eq!(parse_interval("000000000001h"), Ok(Interval { secs: 3600, nanos: 0 }));
    assert_eq!(parse_interval("100000000000ns"), Ok(Interval { secs: 100, nanos: 0 }));
    assert_eq!(parse_interval("18446744073709551615s"), Ok(Interval { secs: u64::MAX, nanos: 0 }));
}

#[test]
fn durations_past_the_limit_are_too_large() {
    assert_eq!(parse_interval("18446744073709551615s 1000000000ns"), Err(TOO_LARGE.to_string()));
    assert_eq!(parse_interval("18446744073709551615s 1s"), Err(TOO_LARGE.to_string()));
    assert_eq!(parse_interval("584942417356y"), Err(TOO_LARGE.to_string()));
}

#[test]
fn agrees_with_humantime() {
    for text in [
        "1h", "59s", "", "abc", "000000000001h", "100000000000ns", "18446744073709551615s",
        "18446744073709551615s 1s", "584942417356y", "1.5h", "2h 37min", "1 000s", "1.s",
        "18446744073709551615s, 1s", "5 x", "99999999999999999999s", "1.00000000000000000001s",
        "3 hours 2 mins", "1µs 2m", "7weeks",
    ] {
        assert_eq!(parse_interval(text), humantime_interval(text), "text {text:?}");
    }
}

#[test]
fn limit_reading() {
    assert!(!reaches_duration_limit("1h"));
    assert!(!reaches_duration_limit("18446744073709551615s"));
    assert!(reaches_duration_limit("18446744073709551615s 1000000000ns"));
    assert!(!reaches_duration_limit("18446744073709551615s, 1000000000ns"));
    assert!(!reaches_duration_limit("18446744073709551615x 1000000000ns"));
    assert!(reaches_duration_limit("18446744073709551615.5s 1s"));
    assert!(!reaches_duration_limit("18446744073709551614.5s"));
}

use cue_shell::duration::{
    duration_from_nonnegative_millis, format_duration, parse_duration_str, Duration,
};

#[test]
fn parses_supported_duration_units() {
    assert_eq!(parse_duration_str("500ms"), Some(Duration::from_millis(500)));
    assert_eq!(parse_duration_str("30s"), Some(Duration::from_secs(30)));
    assert_eq!(parse_duration_str("5m"), Some(Duration::from_secs(300)));
    assert_eq!(parse_duration_str("1h"), Some(Duration::from_secs(3600)));
}

#[test]
fn rejects_invalid_or_overflowing_duration_values() {
    assert_eq!(parse_duration_str("5x"), None);
    assert_eq!(parse_duration_str("xs"), None);
    assert_eq!(parse_duration_str("+1h"), None);
    assert_eq!(parse_duration_str(&format!("{}h", u64::MAX)), None);
}

#[test]
fn durations_are_written_in_the_coarsest_unit_that_fits() {
    for text in ["1h", "5m", "30s"] {
        let duration = parse_duration_str(text).unwrap();
        assert_eq!(format_duration(duration), text);
    }
    assert_eq!(format_duration(Duration::from_secs(90)), "90s");
}

#[test]
fn only_nonnegative_milliseconds_are_a_duration() {
    assert_eq!(duration_from_nonnegative_millis(1500), Some(Duration::from_millis(1500)));
    assert_eq!(duration_from_nonnegative_millis(-1), None);
    assert!(Duration::from_secs(0).is_zero());
    assert_eq!(Duration::from_millis(2500).as_secs(), 2);
}

use prompt_print::duration::{decimal_digits, format_duration, format_millis};
use std::time::Duration;

#[test]
fn less_than_a_millisecond_is_shown_as_such() {
    assert_eq!(format_duration(&Duration::from_millis(0)), "<1ms");
    assert_eq!(format_duration(&Duration::from_micros(999)), "<1ms");
    assert_eq!(format_duration(&Duration::from_nanos(999_999)), "<1ms");
}

#[test]
fn whole_milliseconds_are_shown_in_decimal() {
    assert_eq!(format_duration(&Duration::from_millis(1)), "1ms");
    assert_eq!(format_duration(&Duration::from_millis(5)), "5ms");
    assert_eq!(format_duration(&Duration::from_micros(2_999)), "2ms");
    assert_eq!(format_duration(&Duration::from_millis(1500)), "1500ms");
    assert_eq!(format_duration(&Duration::from_secs(90)), "90000ms");
}

#[test]
fn the_longest_duration_is_formatted() {
    let longest = Duration::MAX;
    assert_eq!(format_duration(&longest), format!("{}ms", longest.as_millis()));
}

#[test]
fn format_millis_matches_the_standard_formatting() {
    for millis in [0u128, 1, 9, 10, 11, 99, 100, 101, 12345, u64::MAX as u128, u128::MAX] {
        let expected = if millis == 0 { "<1ms".to_string() } else { format!("{:?}ms", millis) };
        assert_eq!(format_millis(millis), expected);
    }
}

#[test]
fn decimal_digits_have_no_leading_zero() {
    assert_eq!(decimal_digits(0), vec!['0']);
    assert_eq!(decimal_digits(7), vec!['7']);
    assert_eq!(decimal_digits(10), vec!['1', '0']);
    assert_eq!(decimal_digits(1002), vec!['1', '0', '0', '2']);
    let all: String = decimal_digits(u128::MAX).into_iter().collect();
    assert_eq!(all, "340282366920938463463374607431768211455");
}

use boda::duration::{decimal_string, format_duration};

#[test]
fn format_duration_below_one_second_in_milliseconds() {
    assert_eq!(format_duration(0), "0ms");
    assert_eq!(format_duration(250), "250ms");
    assert_eq!(format_duration(999), "999ms");
}

#[test]
fn format_duration_from_one_second_with_three_decimals() {
    assert_eq!(format_duration(1000), "1.000s");
    assert_eq!(format_duration(1500), "1.500s");
    assert_eq!(format_duration(1050), "1.050s");
    assert_eq!(format_duration(61005), "61.005s");
    assert_eq!(format_duration(u64::MAX), "18446744073709551.615s");
}

#[test]
fn decimal_string_writes_digits_without_leading_zeros() {
    assert_eq!(decimal_string(0), "0");
    assert_eq!(decimal_string(7), "7");
    assert_eq!(decimal_string(10), "10");
    assert_eq!(decimal_string(4096), "4096");
    assert_eq!(decimal_string(u64::MAX), "18446744073709551615");
}

use jetson_watchdog::{log_file_path, push_decimal, push_two_digits};

#[test]
fn path_pads_fields_to_two_digits() {
    assert_eq!(log_file_path(2020, 6, 5, 7, 8, 9), "./error-logs/2020-06-05_07:08:09.json");
}

#[test]
fn path_with_two_digit_fields() {
    assert_eq!(log_file_path(2020, 12, 25, 23, 59, 59), "./error-logs/2020-12-25_23:59:59.json");
}

#[test]
fn path_year_is_not_padded() {
    assert_eq!(log_file_path(7, 1, 1, 0, 0, 0), "./error-logs/7-01-01_00:00:00.json");
}

#[test]
fn decimal_numerals() {
    let mut s = String::new();
    push_decimal(&mut s, 0);
    s.push(' ');
    push_decimal(&mut s, 10);
    s.push(' ');
    push_decimal(&mut s, u128::MAX);
    assert_eq!(s, format!("0 10 {}", u128::MAX));
    let mut t = String::from("x");
    push_two_digits(&mut t, 123);
    assert_eq!(t, "x123");
}

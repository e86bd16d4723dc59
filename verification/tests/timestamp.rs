use jetson_watchdog::{chars_of, Timestamp};

fn stamp(raw: &str) -> Option<i128> {
    Timestamp::from_kernel_stamp(raw).map(|t| t.as_attoseconds())
}

const SECOND: i128 = 1_000_000_000_000_000_000;

#[test]
fn kernel_stamp_with_padding_spaces() {
    assert_eq!(stamp("[ 1234.567890]"), Some(1_234_567_890_000_000_000_000));
    assert_eq!(stamp("[   12.345678]"), Some(12_345_678_000_000_000_000));
}

#[test]
fn kernel_stamp_short_fraction() {
    assert_eq!(stamp("[12.5]"), Some(12 * SECOND + SECOND / 2));
}

#[test]
fn kernel_stamp_signs() {
    assert_eq!(stamp("[-1.5]"), Some(-(SECOND + SECOND / 2)));
    assert_eq!(stamp("[+3.25]"), Some(3 * SECOND + SECOND / 4));
    assert_eq!(stamp("[-0.0]"), Some(0));
}

#[test]
fn kernel_stamp_rejects_other_characters() {
    assert_eq!(stamp("[x1.5]"), None);
    assert_eq!(stamp("[.1.5]"), None);
    assert_eq!(stamp("[]"), None);
    assert_eq!(stamp("[.]"), None);
}

#[test]
fn kernel_stamp_forms_without_point_or_digits_on_one_side() {
    assert_eq!(stamp("[7]"), Some(7 * SECOND));
    assert_eq!(stamp("[7.]"), Some(7 * SECOND));
    assert_eq!(stamp("[.25]"), Some(SECOND / 4));
}

#[test]
fn kernel_stamp_keeps_eighteen_decimals() {
    assert_eq!(stamp("[1.0000000001]"), Some(SECOND + 100_000_000));
    assert_eq!(stamp("[1.0000000002]"), Some(SECOND + 200_000_000));
    assert_eq!(stamp("[1.1234567890123456789]"), Some(1_123_456_789_012_345_678));
}

#[test]
fn kernel_stamp_whole_part_limit() {
    assert_eq!(stamp("[18446744073709551616.5]"), Some(18_446_744_073_709_551_616 * SECOND + SECOND / 2));
    assert_eq!(stamp("[170141183460469231730.0]"), Some(170_141_183_460_469_231_730 * SECOND));
    assert_eq!(stamp("[170141183460469231731.0]"), None);
}

#[test]
fn decimal_text_without_brackets() {
    let t = Timestamp::from_decimal(&chars_of("0.000001")).unwrap();
    assert_eq!(t.as_attoseconds(), 1_000_000_000_000);
}

#[test]
fn seconds_text_has_eighteen_decimals() {
    let t = Timestamp::from_kernel_stamp("[ 1234.567890]").unwrap();
    assert_eq!(t.to_seconds_text(), "1234.567890000000000000");
    let n = Timestamp::from_kernel_stamp("[-1.5]").unwrap();
    assert_eq!(n.to_seconds_text(), "-1.500000000000000000");
    assert_eq!(Timestamp::zero().to_seconds_text(), "0.000000000000000000");
}

#[test]
fn later_stamp_is_after() {
    let a = Timestamp::from_kernel_stamp("[1.5]").unwrap();
    let b = Timestamp::from_kernel_stamp("[1.25]").unwrap();
    assert!(a.is_after(&b));
    assert!(!b.is_after(&a));
    assert!(!a.is_after(&a));
}

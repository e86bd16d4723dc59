use jetson_watchdog::ErrorScanner;

#[test]
fn scanner_finds_error_and_its_groups() {
    let scanner = ErrorScanner::new().unwrap();
    let found = scanner.scan("[ 1234.567890] tegra-mc: SBE ERR in bank 2");
    assert_eq!(found.len(), 1);
    assert_eq!(found[0].text, "[ 1234.567890] tegra-mc: SBE ERR");
    assert_eq!(found[0].stamp.as_deref(), Some("[ 1234.567890]"));
    assert_eq!(found[0].label.as_deref(), Some("SBE ERR"));
}

#[test]
fn scanner_finds_several_errors_in_order() {
    let scanner = ErrorScanner::new().unwrap();
    let found = scanner.scan("[1.5] GPU L2 [2.5] watchdog detected");
    assert_eq!(found.len(), 2);
    assert_eq!(found[0].label.as_deref(), Some("GPU L2"));
    assert_eq!(found[1].stamp.as_deref(), Some("[2.5]"));
    assert_eq!(found[1].label.as_deref(), Some("watchdog detected"));
}

#[test]
fn scanner_ignores_lines_without_errors() {
    let scanner = ErrorScanner::new().unwrap();
    assert!(scanner.scan("[ 12.000001] usb 1-1: new device").is_empty());
}

#[test]
fn scanner_takes_any_padding_before_the_digits() {
    let scanner = ErrorScanner::new().unwrap();
    let found = scanner.scan("[   12.345678] mc: SBE ERR");
    assert_eq!(found.len(), 1);
    assert_eq!(found[0].stamp.as_deref(), Some("[   12.345678]"));
    assert_eq!(found[0].label.as_deref(), Some("SBE ERR"));
    let texts = scanner.matched_texts("[    0.000100] GPU L2 fault");
    assert_eq!(texts, vec!["[    0.000100] GPU L2".to_string()]);
}

#[test]
fn scanner_takes_one_other_character_before_the_digits() {
    let scanner = ErrorScanner::new().unwrap();
    assert_eq!(scanner.scan("[-1.5] GPU L2").len(), 1);
    let found = scanner.scan("[x5.1] SBE ERR");
    assert_eq!(found.len(), 1);
    assert_eq!(found[0].stamp.as_deref(), Some("[x5.1]"));
    assert_eq!(
        scanner.matched_texts("[x5.1] foo [6.0] SBE ERR"),
        vec!["[x5.1] foo [6.0] SBE ERR".to_string()]
    );
    assert!(scanner.scan("[xy5.1] SBE ERR").is_empty());
}

#[test]
fn matched_texts_are_what_the_watcher_sends() {
    let scanner = ErrorScanner::new().unwrap();
    let texts = scanner.matched_texts("[ 5.100000] cpu: Machine Check Error here");
    assert_eq!(texts, vec!["[ 5.100000] cpu: Machine Check Error".to_string()]);
}

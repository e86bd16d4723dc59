use jetson_watchdog::{ErrorKind, KIND_COUNT};

#[test]
fn every_label_names_its_kind() {
    for i in 0..KIND_COUNT {
        let k = ErrorKind::at(i);
        assert_eq!(k.index(), i);
        assert_eq!(ErrorKind::from_label(k.label()), Some(k));
    }
}

#[test]
fn labels_as_the_kernel_writes_them() {
    assert_eq!(ErrorKind::from_label("SBE ERR"), Some(ErrorKind::SingleBitError));
    assert_eq!(ErrorKind::from_label("SDHCI_INT_DATA_TIMEOUT"), Some(ErrorKind::FlashWriteTimeout));
    assert_eq!(
        ErrorKind::from_label("Timeout waiting for hardware interrupt"),
        Some(ErrorKind::FlashReadTimeout)
    );
    assert_eq!(ErrorKind::WatchdogDetected.label(), "watchdog detected");
}

#[test]
fn unknown_label_names_no_kind() {
    assert_eq!(ErrorKind::from_label("sbe err"), None);
    assert_eq!(ErrorKind::from_label(""), None);
}

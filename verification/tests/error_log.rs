use jetson_watchdog::{
    read_sightings, ErrorKind, ErrorLog, ErrorScanner, LogError, Sighting, Timestamp,
};

fn at(raw: &str) -> Timestamp {
    Timestamp::from_kernel_stamp(raw).unwrap()
}

#[test]
fn new_log_is_empty() {
    let log = ErrorLog::new();
    assert_eq!(log.len(), 0);
    assert_eq!(log.latest().as_attoseconds(), 0);
}

#[test]
fn record_keeps_only_later_errors() {
    let mut log = ErrorLog::new();
    log.record(at("[2.0]"), Some(ErrorKind::GpuL2Error));
    log.record(at("[1.0]"), Some(ErrorKind::GpuL2Error));
    log.record(at("[2.0]"), Some(ErrorKind::MmuFault));
    log.record(at("[3.0]"), None);
    assert_eq!(log.len(), 2);
    assert_eq!(log.count_of(ErrorKind::GpuL2Error), 1);
    assert_eq!(log.count_of(ErrorKind::MmuFault), 0);
    assert_eq!(log.latest().as_attoseconds(), 3_000_000_000_000_000_000);
}

#[test]
fn zero_time_is_not_recorded() {
    let mut log = ErrorLog::new();
    log.record(at("[0.0]"), Some(ErrorKind::SystemError));
    log.record(at("[-4.0]"), Some(ErrorKind::SystemError));
    assert_eq!(log.len(), 0);
}

#[test]
fn report_summarises_and_empties() {
    let mut log = ErrorLog::new();
    log.record(at("[1.5]"), Some(ErrorKind::SingleBitError));
    log.record(at("[2.5]"), Some(ErrorKind::SingleBitError));
    log.record(at("[3.5]"), Some(ErrorKind::WatchdogDetected));
    let rep = log.take_report().unwrap();
    assert_eq!(rep.first.as_attoseconds(), 1_500_000_000_000_000_000);
    assert_eq!(rep.last.as_attoseconds(), 3_500_000_000_000_000_000);
    assert_eq!(rep.counts, vec![2, 0, 0, 0, 0, 0, 0, 0, 1]);
    assert_eq!(log.len(), 0);
    assert_eq!(log.latest().as_attoseconds(), 3_500_000_000_000_000_000);
    assert!(log.take_report().is_none());
}

#[test]
fn replayed_errors_are_ignored() {
    let mut log = ErrorLog::new();
    let batch = vec![
        Sighting { stamp: at("[1.0]"), kind: Some(ErrorKind::CpuMemoryError) },
        Sighting { stamp: at("[2.0]"), kind: Some(ErrorKind::FlashReadTimeout) },
    ];
    log.record_sightings(&batch);
    assert_eq!(log.len(), 2);
    log.record_sightings(&batch);
    assert_eq!(log.len(), 2);
    assert_eq!(log.count_of(ErrorKind::CpuMemoryError), 1);
}

#[test]
fn next_report_comes_after_previous() {
    let mut log = ErrorLog::new();
    log.record(at("[5.0]"), Some(ErrorKind::MmuFault));
    let first_report = log.take_report().unwrap();
    log.record(at("[4.0]"), Some(ErrorKind::MmuFault));
    log.record(at("[6.0]"), Some(ErrorKind::MmuFault));
    let second_report = log.take_report().unwrap();
    assert!(second_report.first.is_after(&first_report.last));
    assert_eq!(second_report.counts[5], 1);
}

#[test]
fn counts_add_up_to_named_errors() {
    let mut log = ErrorLog::new();
    for (i, k) in [ErrorKind::SingleBitError, ErrorKind::GpuL2Error, ErrorKind::GpuL2Error]
        .iter()
        .enumerate()
    {
        log.record(at(&format!("[{}.0]", i + 1)), Some(*k));
    }
    log.record(at("[9.0]"), None);
    let rep = log.take_report().unwrap();
    assert_eq!(rep.counts.iter().sum::<usize>(), 3);
}

#[test]
fn sightings_read_from_matches() {
    let scanner = ErrorScanner::new().unwrap();
    let found = scanner.scan("[ 7.25] x: generated a mmu fault");
    let s = read_sightings(&found).unwrap();
    assert_eq!(s.len(), 1);
    assert_eq!(s[0].stamp.as_attoseconds(), 7_250_000_000_000_000_000);
    assert_eq!(s[0].kind, Some(ErrorKind::MmuFault));
}

#[test]
fn messages_drive_the_log() {
    let scanner = ErrorScanner::new().unwrap();
    let mut log = ErrorLog::new();
    assert!(log.handle_message(&scanner, "Timer interrupt").unwrap().is_none());
    assert!(log.handle_message(&scanner, "[ 10.5] mc: SBE ERR").unwrap().is_none());
    assert!(log.handle_message(&scanner, "[ 11.5] mc: SError detected").unwrap().is_none());
    assert!(log.handle_message(&scanner, "[ 10.5] mc: SBE ERR").unwrap().is_none());
    assert!(log.handle_message(&scanner, "Lost dmesg process").unwrap().is_none());
    assert_eq!(log.len(), 2);
    let rep = log.handle_message(&scanner, "Timer interrupt").unwrap().unwrap();
    assert_eq!(rep.first.as_attoseconds(), 10_500_000_000_000_000_000);
    assert_eq!(rep.last.as_attoseconds(), 11_500_000_000_000_000_000);
    assert_eq!(rep.counts, vec![1, 1, 0, 0, 0, 0, 0, 0, 0]);
    assert!(log.handle_message(&scanner, "Timer interrupt").unwrap().is_none());
}

#[test]
fn malformed_timestamp_is_refused_and_changes_nothing() {
    let scanner = ErrorScanner::new().unwrap();
    let mut log = ErrorLog::new();
    log.handle_message(&scanner, "[ 1.5] GPU L2").unwrap();
    let r = log.handle_message(&scanner, "[ 2.5] GPU L2 [x3.5] GPU L2");
    assert_eq!(r.err(), Some(LogError::MalformedTimestamp));
    assert_eq!(log.len(), 1);
    assert_eq!(log.latest().as_attoseconds(), 1_500_000_000_000_000_000);
}

#[test]
fn whole_part_past_the_limit_is_refused() {
    let scanner = ErrorScanner::new().unwrap();
    let mut log = ErrorLog::new();
    let r = log.handle_message(&scanner, "[ 999999999999999999999.5] GPU L2");
    assert_eq!(r.err(), Some(LogError::MalformedTimestamp));
    assert_eq!(log.len(), 0);
}

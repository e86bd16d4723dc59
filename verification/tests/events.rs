use jetson_watchdog::{
    classify_message, feed_stop_notice, first, last, lost_feed_message, same_chars, same_text,
    timer_message, Event, FeedStatus,
};

#[test]
fn messages_are_told_apart() {
    assert_eq!(classify_message("Timer interrupt"), Event::TimerTick);
    assert_eq!(classify_message("Lost dmesg process"), Event::FeedLost);
    assert_eq!(classify_message("[1.0] SBE ERR"), Event::KernelText);
    assert_eq!(classify_message("Timer interrupt "), Event::KernelText);
    assert_eq!(timer_message(), "Timer interrupt");
    assert_eq!(lost_feed_message(), "Lost dmesg process");
}

#[test]
fn feed_stop_notices() {
    assert_eq!(feed_stop_notice(FeedStatus::Exited), Some("Lost dmesg process"));
    assert_eq!(feed_stop_notice(FeedStatus::CheckFailed), Some("Lost dmesg process"));
    assert_eq!(feed_stop_notice(FeedStatus::Running), None);
}

#[test]
fn ends_of_a_vector() {
    let v = vec![3, 1, 4];
    assert_eq!(first(&v), Some(&3));
    assert_eq!(last(&v), Some(&4));
    let e: Vec<u8> = Vec::new();
    assert_eq!(first(&e), None);
    assert_eq!(last(&e), None);
}

#[test]
fn text_comparison() {
    assert!(same_text("héllo", "héllo"));
    assert!(!same_text("hello", "hell"));
    assert!(same_chars(&vec!['a'], &vec!['a']));
    assert!(!same_chars(&vec!['a'], &vec!['b']));
}

#[test]
fn matched_texts_are_kernel_text() {
    let scanner = jetson_watchdog::ErrorScanner::new().unwrap();
    for text in scanner.matched_texts("[  3.000001] SBE ERR [  4.000002] GPU L2") {
        assert!(text.starts_with('['));
        assert_eq!(classify_message(&text), Event::KernelText);
    }
}

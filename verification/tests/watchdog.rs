use jetson_watchdog::{Checkpoint, ROUND_START_WORD};

const ROUND: [Checkpoint; 4] = [
    Checkpoint::RoundStart,
    Checkpoint::Sampled,
    Checkpoint::Compared,
    Checkpoint::Rested,
];

#[test]
fn clean_rounds_pass_every_check() {
    assert!(Checkpoint::Startup.check(ROUND_START_WORD).is_none());
    let mut word = Checkpoint::Startup.next_word(ROUND_START_WORD);
    for _ in 0..3 {
        for cp in ROUND.iter() {
            assert!(cp.check(word).is_none());
            word = cp.next_word(word);
        }
        assert_eq!(word, ROUND_START_WORD);
    }
}

#[test]
fn words_along_a_round() {
    assert_eq!(Checkpoint::RoundStart.next_word(0x1111_1111), 0x3333_3333);
    assert_eq!(Checkpoint::Sampled.next_word(0x3333_3333), 0x7777_7777);
    assert_eq!(Checkpoint::Compared.next_word(0x7777_7777), 0xFFFF_FFFF);
    assert_eq!(Checkpoint::Rested.next_word(0x1234_5678), 0x1111_1111);
    assert_eq!(Checkpoint::Compared.next_word(0x8888_8888), 0x1111_1110);
}

#[test]
fn corrupted_word_is_reported_until_reset() {
    let mut word = 0x1111_1112u32;
    let mut notices = Vec::new();
    for cp in ROUND.iter() {
        if let Some(n) = cp.check(word) {
            notices.push(n);
        }
        word = cp.next_word(word);
    }
    assert_eq!(
        notices,
        vec![
            "Register does not match 0x1111 1111, rebooting",
            "Register does not match 0x3333 3333, rebooting",
            "Register does not match 0x7777 7777, rebooting",
            "Register does not match 0xFFFF FFFF, rebooting",
        ]
    );
    assert_eq!(word, ROUND_START_WORD);
}

#[test]
fn startup_notice() {
    assert_eq!(Checkpoint::Startup.check(0), Some("Register does not match, rebooting"));
    assert_eq!(Checkpoint::Startup.next_word(5), 5);
}

use vstd::prelude::*;

use crate::error_log::{
    law_record_all_keeps_consistent, law_replay_ignored, read_sightings, sightings_of, ErrorLog,
    ErrorReport, LogState, ReportView,
};
use crate::scanner::{error_pattern_matches, ErrorScanner};
use crate::text::same_text;

verus! {

/// The message that the heartbeat sends every few seconds.
pub fn timer_message() -> (s: &'static str)
    ensures
        s@ == "Timer interrupt"@,
{
    "Timer interrupt"
}

/// The message that the log watcher sends when the kernel log feed ends.
pub fn lost_feed_message() -> (s: &'static str)
    ensures
        s@ == "Lost dmesg process"@,
{
    "Lost dmesg process"
}

/// What a message on the daemon's channel is.
#[derive(Clone, Copy, Debug, PartialEq, Eq, Structural)]
pub enum Event {
    /// The heartbeat: time to report.
    TimerTick,
    /// The kernel log feed has ended.
    FeedLost,
    /// Text from the kernel log.
    KernelText,
}

pub open spec fn event_of(msg: Seq<char>) -> Event {
    if msg == "Timer interrupt"@ {
        Event::TimerTick
    } else if msg == "Lost dmesg process"@ {
        Event::FeedLost
    } else {
        Event::KernelText
    }
}

/// Tells the kinds of message apart.
pub fn classify_message(msg: &str) -> (e: Event)
    ensures
        e == event_of(msg@),
{
    if same_text(msg, timer_message()) {
        Event::TimerTick
    } else if same_text(msg, lost_feed_message()) {
        Event::FeedLost
    } else {
        Event::KernelText
    }
}

/// Why a message could not be taken in.
#[derive(Clone, Copy, Debug, PartialEq, Eq, Structural)]
pub enum LogError {
    /// A matched timestamp did not read as a number.
    MalformedTimestamp,
}

/// What taking in a message does to the log: a heartbeat reports and empties
/// a log that has seen errors, the end of the feed changes nothing, and
/// kernel text records the errors that the error pattern finds in it; `None`
/// when one of their timestamps does not read as a number.
pub open spec fn after_message(s: LogState, msg: Seq<char>) -> Option<LogState> {
    match event_of(msg) {
        Event::TimerTick => Some(
            if s.seen.len() > 0 {
                s.cleared()
            } else {
                s
            },
        ),
        Event::FeedLost => Some(s),
        Event::KernelText => match sightings_of(error_pattern_matches(msg)) {
            Some(found) => Some(s.record_all(found)),
            None => None,
        },
    }
}

/// The report that a message gives: one on a heartbeat when errors were seen.
pub open spec fn report_after(s: LogState, msg: Seq<char>) -> Option<ReportView> {
    if event_of(msg) == Event::TimerTick && s.seen.len() > 0 {
        Some(crate::error_log::report_of(s))
    } else {
        None
    }
}

impl ErrorLog {
    /// Takes in one message from the daemon's channel: see `after_message`
    /// and `report_after`. On a malformed timestamp the log is unchanged.
    pub fn handle_message(&mut self, scanner: &ErrorScanner, msg: &str) -> (r: Result<
        Option<ErrorReport>,
        LogError,
    >)
        ensures
            match after_message(old(self)@, msg@) {
                Some(next) => final(self)@ == next && (r matches Ok(rep) && match report_after(
                    old(self)@,
                    msg@,
                ) {
                    Some(v) => rep matches Some(x) && x@ == v,
                    None => rep is None,
                }),
                None => final(self)@ == old(self)@ && r == Err::<Option<ErrorReport>, LogError>(
                    LogError::MalformedTimestamp,
                ),
            },
            old(self)@.consistent() ==> final(self)@.consistent(),
    {
        proof {
            if old(self)@.consistent() {
                law_message_keeps_consistent(old(self)@, msg@);
            }
        }
        match classify_message(msg) {
            Event::TimerTick => Ok(self.take_report()),
            Event::FeedLost => Ok(None),
            Event::KernelText => {
                let found = scanner.scan(msg);
                match read_sightings(&found) {
                    Some(s) => {
                        self.record_sightings(&s);
                        Ok(None)
                    },
                    None => Err(LogError::MalformedTimestamp),
                }
            },
        }
    }
}

/// Taking in any message keeps the log consistent.
pub proof fn law_message_keeps_consistent(s: LogState, msg: Seq<char>)
    requires
        s.consistent(),
    ensures
        after_message(s, msg) matches Some(n) ==> n.consistent(),
{
    match event_of(msg) {
        Event::KernelText => {
            if let Some(found) = sightings_of(error_pattern_matches(msg)) {
                law_record_all_keeps_consistent(s, found);
            }
        },
        _ => {},
    }
}

/// Kernel text that arrives again, as it does when the kernel log feed is
/// restarted and replays what it had sent, changes nothing the second time.
pub proof fn law_repeated_text_ignored(s: LogState, msg: Seq<char>)
    requires
        event_of(msg) == Event::KernelText,
        after_message(s, msg) is Some,
    ensures
        after_message(after_message(s, msg)->0, msg) == after_message(s, msg),
        report_after(after_message(s, msg)->0, msg) is None,
{
    let found = sightings_of(error_pattern_matches(msg))->0;
    law_replay_ignored(s, found);
}

/// Text that the error pattern matched starts with `[`, so it is never
/// taken for a heartbeat or for the end of the feed.
pub proof fn law_matched_text_is_kernel_text(text: Seq<char>)
    requires
        text.len() > 0,
        text[0] == '[',
    ensures
        event_of(text) == Event::KernelText,
{
    reveal_strlit("Timer interrupt");
    reveal_strlit("Lost dmesg process");
}

/// A heartbeat right after a heartbeat reports nothing.
pub proof fn law_second_heartbeat_reports_nothing(s: LogState)
    ensures
        after_message(s, "Timer interrupt"@) matches Some(n) && report_after(
            n,
            "Timer interrupt"@,
        ) is None,
{
}

/// The end of the kernel log feed neither changes the log nor reports.
pub proof fn law_feed_loss_changes_nothing(s: LogState)
    ensures
        after_message(s, "Lost dmesg process"@) == Some(s),
        report_after(s, "Lost dmesg process"@) is None,
{
    reveal_strlit("Timer interrupt");
    reveal_strlit("Lost dmesg process");
    assert("Timer interrupt"@.len() != "Lost dmesg process"@.len());
}

/// How a check on the kernel log feed's process came out.
#[derive(Clone, Copy, Debug, PartialEq, Eq, Structural)]
pub enum FeedStatus {
    /// The process has exited.
    Exited,
    /// The process is still running.
    Running,
    /// The check itself failed.
    CheckFailed,
}

/// What the log watcher sends when its feed stops giving lines: the end of
/// the feed, unless the process is still running.
pub fn feed_stop_notice(status: FeedStatus) -> (m: Option<&'static str>)
    ensures
        status == FeedStatus::Running ==> m is None,
        status != FeedStatus::Running ==> (m matches Some(t) && t@ == "Lost dmesg process"@),
{
    match status {
        FeedStatus::Running => None,
        _ => Some(lost_feed_message()),
    }
}

} // verus!

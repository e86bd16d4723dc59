//! Decision logic of a kernel-log and hardware watchdog daemon.
mod decimal;
mod error_kind;
mod error_log;
mod events;
mod listing_diff;
mod log_path;
mod pattern;
mod record_file;
mod scanner;
mod text;
mod timestamp;
mod vec_ends;
mod watchdog;

pub use decimal::{push_decimal, push_padded, push_two_digits};
pub use error_kind::{
    law_kernel_texts_name_their_kinds, law_kinds_and_positions, ErrorKind, KIND_COUNT,
};
pub use error_log::{
    law_clear_keeps_consistent, law_count_is_number_of_kind, law_counts_cover_named_errors,
    law_earlier_error_is_dropped, law_initial_consistent, law_later_error_is_kept,
    law_report_counts_each_kind, law_report_spans_recorded_errors,
    law_latest_never_decreases, law_record_all_keeps_consistent, law_record_keeps_consistent,
    law_replay_ignored, law_report_span, law_reports_in_time_order, read_sightings, ErrorLog,
    ErrorReport, Sighting,
};
pub use events::{
    classify_message, feed_stop_notice, law_feed_loss_changes_nothing,
    law_matched_text_is_kernel_text, law_message_keeps_consistent, law_repeated_text_ignored,
    law_second_heartbeat_reports_nothing, lost_feed_message, timer_message, Event, FeedStatus,
    LogError,
};
pub use listing_diff::{
    compare_listings, is_diffable, law_count_is_number_of_chunks, law_counts_cover_chunks,
    law_report_determined_by_changeset, law_tally_grows_by_one_chunk,
    process_lshw_output, process_ps_output, tally_changes, ChunkKind, DiffChunk, DiffReport,
};
pub use log_path::{law_log_path_reads_back, log_file_path};
pub use pattern::CompiledPattern;
pub use record_file::{empty_file_bytes, law_file_is_one_object, member_insertion};
pub use scanner::{ErrorMatch, ErrorScanner, ScannerError, ERROR_PATTERN};
pub use text::{chars_of, same_chars, same_text};
pub use timestamp::{law_read_time_text_reads_back, law_seconds_text_reads_back, Timestamp};
pub use vec_ends::{first, last};
pub use watchdog::{law_checkpoint_words, law_clean_round_passes, law_wrong_word_stays_wrong, Checkpoint, ROUND_START_WORD};

# jetson_watchdog

A hardware watchdog daemon for an embedded board, split in two:

- `src/` is the verified library: it reads hardware errors out of kernel log
  lines (`pattern`, `scanner`, `timestamp`, `error_kind`), keeps the errors seen between
  two reports and decides what each message on the daemon's channel does
  (`error_log`, `events`), frames the JSON error log file (`record_file`,
  `log_path`), checks the watchdog's verification word (`watchdog`) and tallies
  the changes between two process or hardware listings (`listing_diff`).
- `app/` is the program around it: threads, the channel, the `dmesg` and
  `ps`/`lshw` processes, the daemonizing, files and printing.

The kernel log pattern is matched with the `regex` crate and listings are
compared with the `difference` crate, both called from the library.

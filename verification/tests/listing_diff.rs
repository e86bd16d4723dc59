use jetson_watchdog::{
    compare_listings, process_lshw_output, process_ps_output, tally_changes, ChunkKind, DiffChunk,
    DiffReport,
};

#[test]
fn changed_line_is_removed_and_added() {
    let r = process_ps_output(&"a\nb\nc".to_string(), &"a\nx\nc".to_string());
    assert_eq!((r.same, r.added, r.removed), (2, 1, 1));
    assert_eq!(r.changes, vec!["-b".to_string(), "+x".to_string()]);
    assert_eq!(r.summary_line(), "Same lines: 2, New Lines: 1, Removed lines: 1");
}

#[test]
fn first_listing_is_all_added() {
    let r = process_lshw_output(&String::new(), &"cpu\nmemory".to_string());
    assert_eq!((r.same, r.added, r.removed), (0, 1, 0));
    assert_eq!(r.changes, vec!["+cpu\nmemory".to_string()]);
}

#[test]
fn equal_listings_have_no_changes() {
    let r = compare_listings(&"p1\np2".to_string(), &"p1\np2".to_string());
    assert_eq!((r.same, r.added, r.removed), (1, 0, 0));
    assert!(r.changes.is_empty());
}

#[test]
fn tally_of_given_chunks() {
    let chunks = vec![
        DiffChunk { kind: ChunkKind::Removed, text: "old".to_string() },
        DiffChunk { kind: ChunkKind::Same, text: "x".to_string() },
        DiffChunk { kind: ChunkKind::Added, text: "new".to_string() },
        DiffChunk { kind: ChunkKind::Added, text: "more".to_string() },
    ];
    let r = tally_changes(&chunks);
    assert_eq!(r.same + r.added + r.removed, chunks.len());
    assert_eq!((r.same, r.added, r.removed), (1, 2, 1));
    assert_eq!(r.changes, vec!["-old", "+new", "+more"]);
}

#[test]
fn summary_of_zero_counts() {
    let r = DiffReport { same: 0, added: 0, removed: 0, changes: Vec::new() };
    assert_eq!(r.summary_line(), "Same lines: 0, New Lines: 0, Removed lines: 0");
}

#[test]
fn process_and_hardware_comparisons_agree() {
    let a = "init\nsshd\nwatchdog".to_string();
    let b = "init\nwatchdog\nnvargus".to_string();
    let p = process_ps_output(&a, &b);
    let h = process_lshw_output(&a, &b);
    assert_eq!((p.same, p.added, p.removed), (h.same, h.added, h.removed));
    assert_eq!(p.changes, h.changes);
    assert_eq!(p.summary_line(), h.summary_line());
}

#[test]
fn long_single_lines_are_diffable() {
    let long = "x".repeat(100_000);
    assert!(jetson_watchdog::is_diffable(&long, &long));
    assert!(jetson_watchdog::is_diffable("", "a\nb\nc"));
}

#[test]
fn equal_listings_give_one_unchanged_chunk() {
    let s = "init\nsshd".to_string();
    let r = process_ps_output(&s, &s);
    assert_eq!((r.same, r.added, r.removed), (1, 0, 0));
    assert!(r.changes.is_empty());
    assert_eq!(r.summary_line(), "Same lines: 1, New Lines: 0, Removed lines: 0");
    let e = String::new();
    let r = process_lshw_output(&e, &e);
    assert_eq!((r.same, r.added, r.removed), (0, 0, 0));
    assert!(r.changes.is_empty());
}

#[test]
fn emptied_listing_is_all_removed() {
    let r = process_ps_output(&"a\nb\n".to_string(), &String::new());
    assert_eq!((r.same, r.added, r.removed), (0, 0, 1));
    assert_eq!(r.changes, vec!["-a\nb\n".to_string()]);
    assert_eq!(r.summary_line(), "Same lines: 0, New Lines: 0, Removed lines: 1");
}

#[test]
fn first_listing_with_trailing_break_is_one_added_chunk() {
    let r = process_lshw_output(&String::new(), &"cpu\n".to_string());
    assert_eq!((r.same, r.added, r.removed), (0, 1, 0));
    assert_eq!(r.changes, vec!["+cpu\n".to_string()]);
}

use syncu::models::{FileInfo, Fraction, ModifiedTime, SyncData};
use syncu::paths::SyncPath;
use syncu::scanner::{
    assemble, cached_record, entry_kind, log_file, metadata_file, reports_progress,
    scan_fraction, EntryKind, ScanError, ScanOutcome,
};

fn sp(parts: &[&str]) -> SyncPath {
    SyncPath::new(parts.iter().map(|s| s.to_string()).collect())
}

fn info(parts: &[&str], hash: &str, secs: u64, size: u64) -> FileInfo {
    FileInfo { path: sp(parts), hash: hash.to_string(), modified: ModifiedTime { secs, nanos: 7 }, size }
}

#[test]
fn control_file_names() {
    assert_eq!(metadata_file(), ".sync_metadata");
    assert_eq!(log_file(), ".sync_log");
}

#[test]
fn entries_are_sorted_into_kinds() {
    assert_eq!(entry_kind(&sp(&[]), true), EntryKind::Ignored);
    assert_eq!(entry_kind(&sp(&[]), false), EntryKind::Ignored);
    assert_eq!(entry_kind(&sp(&["d"]), true), EntryKind::Directory);
    assert_eq!(entry_kind(&sp(&["d", "f.txt"]), false), EntryKind::File);
    assert_eq!(entry_kind(&sp(&[".sync_metadata"]), false), EntryKind::Ignored);
    assert_eq!(entry_kind(&sp(&[".sync_log"]), false), EntryKind::Ignored);
    // Only where the engine keeps them.
    assert_eq!(entry_kind(&sp(&["d", ".sync_log"]), false), EntryKind::File);
    assert_eq!(entry_kind(&sp(&[".sync_log"]), true), EntryKind::Directory);
    assert_eq!(entry_kind(&sp(&[".sync_logs"]), false), EntryKind::File);
}

#[test]
fn unchanged_file_takes_the_recorded_fingerprint() {
    let mut last = SyncData::new();
    last.insert_file(info(&["a.txt"], "cached", 100, 9));
    let modified = ModifiedTime { secs: 100, nanos: 7 };
    assert_eq!(
        cached_record(&last, &sp(&["a.txt"]), 9, modified),
        Some(info(&["a.txt"], "cached", 100, 9))
    );
}

#[test]
fn changed_size_or_time_calls_for_hashing() {
    let mut last = SyncData::new();
    last.insert_file(info(&["a.txt"], "cached", 100, 9));
    let same = ModifiedTime { secs: 100, nanos: 7 };
    assert_eq!(cached_record(&last, &sp(&["a.txt"]), 10, same), None);
    assert_eq!(cached_record(&last, &sp(&["a.txt"]), 9, ModifiedTime { secs: 101, nanos: 7 }), None);
    assert_eq!(cached_record(&last, &sp(&["a.txt"]), 9, ModifiedTime { secs: 100, nanos: 8 }), None);
    assert_eq!(cached_record(&last, &sp(&["b.txt"]), 9, same), None);
    assert_eq!(cached_record(&SyncData::new(), &sp(&["a.txt"]), 9, same), None);
}

#[test]
fn progress_is_reported_at_every_tenth_entry() {
    let reported: Vec<usize> = (0..=31).filter(|n| reports_progress(*n)).collect();
    assert_eq!(reported, vec![1, 11, 21, 31]);
}

#[test]
fn scan_fraction_stays_within_the_whole() {
    assert_eq!(scan_fraction(0, 0), Fraction { done: 1, total: 1 });
    assert_eq!(scan_fraction(3, 10), Fraction { done: 3, total: 10 });
    assert_eq!(scan_fraction(10, 10), Fraction { done: 10, total: 10 });
    assert_eq!(scan_fraction(12, 10), Fraction { done: 10, total: 10 });
}

#[test]
fn stopped_scan_yields_no_snapshot() {
    let outcomes = vec![ScanOutcome::Directory(sp(&["d"])), ScanOutcome::File(info(&["a"], "h", 1, 1))];
    assert_eq!(assemble(outcomes, true), Ok(None));
    assert_eq!(assemble(vec![], true), Ok(None));
    // A stop comes before a failure.
    assert_eq!(assemble(vec![ScanOutcome::Failed("denied".to_string())], true), Ok(None));
}

#[test]
fn snapshot_collects_files_and_directories() {
    let outcomes = vec![
        ScanOutcome::Directory(sp(&["d"])),
        ScanOutcome::Nothing,
        ScanOutcome::File(info(&["d", "a"], "h1", 1, 1)),
        ScanOutcome::File(info(&["b"], "h2", 2, 2)),
        ScanOutcome::Directory(sp(&["d"])),
        ScanOutcome::File(info(&["d", "a"], "h3", 3, 3)),
    ];
    let data = assemble(outcomes, false)
        .expect("every entry was read")
        .expect("a scan that was not stopped has a snapshot");
    assert_eq!(data.directories(), &vec![sp(&["d"])]);
    assert_eq!(data.files(), &vec![info(&["d", "a"], "h3", 3, 3), info(&["b"], "h2", 2, 2)]);
    assert_eq!(data.get(&sp(&["b"])), Some(&info(&["b"], "h2", 2, 2)));
    assert_eq!(data.get(&sp(&["c"])), None);
    assert!(data.has_directory(&sp(&["d"])));
    assert!(!data.has_directory(&sp(&["b"])));
}

#[test]
fn empty_scan_is_an_empty_snapshot() {
    assert_eq!(assemble(vec![], false), Ok(Some(SyncData::new())));
    assert_eq!(SyncData::default(), SyncData::new());
}

#[test]
fn unreadable_entry_fails_the_scan() {
    let outcomes = vec![
        ScanOutcome::Directory(sp(&["d"])),
        ScanOutcome::File(info(&["a"], "h", 1, 1)),
        ScanOutcome::Failed("d/b: permission denied".to_string()),
        ScanOutcome::File(info(&["c"], "h", 1, 1)),
        ScanOutcome::Failed("d/e: gone".to_string()),
    ];
    assert_eq!(
        assemble(outcomes, false),
        Err(ScanError { reason: "d/b: permission denied".to_string() })
    );
    assert_eq!(
        assemble(vec![ScanOutcome::Failed("x".to_string())], false),
        Err(ScanError { reason: "x".to_string() })
    );
}

use mysql_backup::error::BackupError;
use mysql_backup::retention::{
    cutoff_instant, is_backup_archive_name, retention_window, should_delete, timestamp_from_epoch,
    EntryInfo, Timestamp,
};

const DAY: i64 = 86400;

fn entry(name: &str, modified: Timestamp) -> EntryInfo {
    EntryInfo { is_file: true, name: Some(name.to_string()), modified: Some(modified) }
}

#[test]
fn non_positive_days_keep_everything() {
    assert_eq!(retention_window(0), None);
    assert_eq!(retention_window(-5), None);
    assert_eq!(retention_window(i32::MIN), None);
}

#[test]
fn window_in_seconds() {
    assert_eq!(retention_window(5), Some(432000));
    assert_eq!(retention_window(i32::MAX), Some(2147483647u64 * 86400));
}

#[test]
fn cutoff_subtracts_window() {
    let now = Timestamp { secs: 1_700_000_000, nanos: 5 };
    let c = cutoff_instant(now, 432000).unwrap();
    assert_eq!(c, Timestamp { secs: 1_700_000_000 - 432000, nanos: 5 });
    assert!(matches!(
        cutoff_instant(Timestamp { secs: i64::MIN + 10, nanos: 0 }, 11),
        Err(BackupError::CutoffOutOfRange)
    ));
}

#[test]
fn archive_names() {
    assert!(is_backup_archive_name("BACKUP_2024.zip"));
    assert!(is_backup_archive_name("BACKUP_.zip"));
    assert!(!is_backup_archive_name("backup_2024.zip"));
    assert!(!is_backup_archive_name("BACKUP_2024.tar"));
    assert!(!is_backup_archive_name("BACKUP.zip"));
    assert!(!is_backup_archive_name(".zip"));
    assert!(!is_backup_archive_name(""));
}

#[test]
fn old_archive_deleted_new_kept() {
    let now = Timestamp { secs: 1_700_000_000, nanos: 0 };
    let cutoff = cutoff_instant(now, retention_window(5).unwrap()).unwrap();
    let old = entry("BACKUP_old.zip", Timestamp { secs: now.secs - 10 * DAY, nanos: 0 });
    let new = entry("BACKUP_new.zip", now);
    let deleted: Vec<bool> = vec![should_delete(&old, &cutoff), should_delete(&new, &cutoff)];
    assert_eq!(deleted, vec![true, false]);
    assert_eq!(deleted.iter().filter(|d| **d).count(), 1);
}

#[test]
fn cutoff_boundary_is_inclusive() {
    let cutoff = Timestamp { secs: 1000, nanos: 10 };
    assert!(should_delete(&entry("BACKUP_a.zip", cutoff), &cutoff));
    assert!(!should_delete(&entry("BACKUP_a.zip", Timestamp { secs: 1000, nanos: 11 }), &cutoff));
    assert!(should_delete(&entry("BACKUP_a.zip", Timestamp { secs: 999, nanos: 999_999_999 }), &cutoff));
}

#[test]
fn other_entries_are_skipped() {
    let cutoff = Timestamp { secs: 1000, nanos: 0 };
    let old = Timestamp { secs: 0, nanos: 0 };
    assert!(!should_delete(&entry("notes.txt", old), &cutoff));
    let dir = EntryInfo { is_file: false, name: Some("BACKUP_x.zip".to_string()), modified: Some(old) };
    assert!(!should_delete(&dir, &cutoff));
    let unknown = EntryInfo { is_file: true, name: Some("BACKUP_x.zip".to_string()), modified: None };
    assert!(!should_delete(&unknown, &cutoff));
    let nameless = EntryInfo { is_file: true, name: None, modified: Some(old) };
    assert!(!should_delete(&nameless, &cutoff));
}

#[test]
fn epoch_offsets() {
    assert_eq!(timestamp_from_epoch(false, 12, 3), Some(Timestamp { secs: 12, nanos: 3 }));
    assert_eq!(timestamp_from_epoch(true, 12, 0), Some(Timestamp { secs: -12, nanos: 0 }));
    assert_eq!(
        timestamp_from_epoch(true, 12, 250_000_000),
        Some(Timestamp { secs: -13, nanos: 750_000_000 })
    );
    assert_eq!(timestamp_from_epoch(false, u64::MAX, 0), None);
}

use purrgres::clock::LocalStamp;
use purrgres::listing::list_backups;
use purrgres::listing::name_has_sql_ext;
use purrgres::listing::BackupEntry;
use purrgres::restore::read_last_restored;
use purrgres::restore::restore_log_line;

// 2024-01-01 10:00:00 as a Unix timestamp.
const TS: i64 = 1704103200;

fn entry(name: &str, ts: i64) -> BackupEntry {
    BackupEntry { name: String::from(name), created_ts: ts }
}

#[test]
fn sql_extension_detection() {
    assert!(name_has_sql_ext("foo_backup.sql"));
    assert!(name_has_sql_ext("a.sql"));
    assert!(!name_has_sql_ext(".sql"));
    assert!(!name_has_sql_ext("foo.sqlx"));
    assert!(!name_has_sql_ext("foo.txt"));
    assert!(!name_has_sql_ext("sql"));
    assert!(!name_has_sql_ext(""));
}

#[test]
fn listing_formats_creation_date() {
    let entries = vec![entry("a.sql", 0)];
    let rows = list_backups(&entries, &None);
    assert_eq!(rows.len(), 1);
    assert_eq!(rows[0].name, "a.sql");
    assert_eq!(rows[0].date, "01/01/1970 00:00");
    assert!(!rows[0].last_restored);
}

#[test]
fn listing_keeps_only_sql_files() {
    let entries = vec![entry("a.sql", TS), entry("notes.txt", TS), entry("b.sql", TS)];
    let rows = list_backups(&entries, &None);
    assert_eq!(rows.len(), 2);
    assert_eq!(rows[0].name, "a.sql");
    assert_eq!(rows[1].name, "b.sql");
    assert_eq!(rows[0].date, "01/01/2024 10:00");
}

#[test]
fn listing_marks_last_restored() {
    let log = "Backup restored form: foo_backup.sql - Date: 01/01/2024 10:00\n";
    let last = read_last_restored(log);
    assert_eq!(last.as_deref(), Some("foo_backup.sql"));
    let entries = vec![entry("bar_backup.sql", TS), entry("foo_backup.sql", TS)];
    let rows = list_backups(&entries, &last);
    assert_eq!(rows.len(), 2);
    assert!(!rows[0].last_restored);
    assert!(rows[1].last_restored);
}

#[test]
fn restore_log_line_format() {
    let now = LocalStamp { ts: TS, year: 2024, month: 1, day: 1, hour: 10, minute: 0 };
    let line = restore_log_line("foo_backup.sql", &now);
    assert_eq!(line, "Backup restored form: foo_backup.sql - Date: 01/01/2024 10:00");
}

#[test]
fn restore_log_roundtrip() {
    let now = LocalStamp { ts: TS, year: 2024, month: 12, day: 31, hour: 23, minute: 59 };
    let mut log = restore_log_line("baz_backup.sql", &now);
    log.push('\n');
    assert_eq!(read_last_restored(&log).as_deref(), Some("baz_backup.sql"));
}

#[test]
fn read_last_restored_takes_final_line() {
    let log = "Backup restored form: a.sql - Date: 01/01/2024 10:00\nBackup restored form: b.sql - Date: 02/01/2024 11:30\n";
    assert_eq!(read_last_restored(log).as_deref(), Some("b.sql"));
}

#[test]
fn read_last_restored_short_line_is_none() {
    assert_eq!(read_last_restored(""), None);
    assert_eq!(read_last_restored("\n"), None);
    assert_eq!(read_last_restored("too few tokens\n"), None);
}

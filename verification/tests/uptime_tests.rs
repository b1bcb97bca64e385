use purrgres::uptime::canonicalize;
use purrgres::uptime::get_process_uptime;

// 2024-10-14 10:00:00 as a Unix timestamp.
const START: i64 = 1728900000;

#[test]
fn uptime_unavailable_when_inspection_failed() {
    assert_eq!(get_process_uptime(None, 0), "Unable to calculate time");
    assert_eq!(get_process_uptime(None, START), "Unable to calculate time");
}

#[test]
fn uptime_unavailable_on_garbage() {
    assert_eq!(get_process_uptime(Some("not a date"), START), "Unable to calculate time");
    assert_eq!(get_process_uptime(Some(""), START), "Unable to calculate time");
}

#[test]
fn uptime_renders_elapsed_time() {
    let line = "Mon Oct 14 10:00:00 2024";
    assert_eq!(get_process_uptime(Some(line), START + 3723), "1h 2m 3s");
}

#[test]
fn uptime_zero_elapsed() {
    let line = "Mon Oct 14 10:00:00 2024";
    assert_eq!(get_process_uptime(Some(line), START), "0h 0m 0s");
}

#[test]
fn uptime_long_elapsed() {
    let line = "Mon Oct 14 10:00:00 2024";
    // 2 days, 3 minutes: hours keep counting past a day.
    assert_eq!(get_process_uptime(Some(line), START + 2 * 86400 + 180), "48h 3m 0s");
}

#[test]
fn uptime_negative_elapsed() {
    let line = "Mon Oct 14 10:00:00 2024";
    assert_eq!(get_process_uptime(Some(line), START - 3723), "-1h -2m -3s");
}

#[test]
fn uptime_tolerates_surrounding_whitespace() {
    let line = " Mon Oct 14 10:00:00 2024\n";
    assert_eq!(get_process_uptime(Some(line), START + 60), "0h 1m 0s");
}

#[test]
fn uptime_parses_portuguese_line() {
    let line = "seg out 14 10:00:00 2024";
    assert_eq!(get_process_uptime(Some(line), START + 3600), "1h 0m 0s");
}

#[test]
fn canonicalize_maps_weekdays_and_months() {
    assert_eq!(canonicalize("seg out 14"), "Mon Oct 14");
    assert_eq!(canonicalize("dom jan 1"), "Sun Jan 1");
    assert_eq!(canonicalize("sex dez 31"), "Fri Dec 31");
}

#[test]
fn canonicalize_leaves_english_alone() {
    assert_eq!(canonicalize("Mon Oct 14 10:00:00 2024"), "Mon Oct 14 10:00:00 2024");
}

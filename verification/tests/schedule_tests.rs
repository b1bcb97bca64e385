use purrgres::liveness::process_exists;
use purrgres::num_text::decimal_string;
use purrgres::num_text::parse_u32;
use purrgres::schedule::Schedule;
use purrgres::text::replace_all;
use purrgres::text::split_whitespace_vec;
use purrgres::text::trim_str;

#[test]
fn schedule_periods_in_seconds() {
    assert_eq!(Schedule::OneMonth.to_secs(), 2592000);
    assert_eq!(Schedule::SevenDays.to_secs(), 604800);
    assert_eq!(Schedule::SixDays.to_secs(), 518400);
    assert_eq!(Schedule::OneDay.to_secs(), 86400);
    assert_eq!(Schedule::TwelveHours.to_secs(), 43200);
    assert_eq!(Schedule::OneHour.to_secs(), 3600);
    assert_eq!(Schedule::ThirtyMinutes.to_secs(), 1800);
    assert_eq!(Schedule::OneMinute.to_secs(), 60);
}

#[test]
fn schedule_duration_matches_seconds() {
    assert_eq!(Schedule::OneMonth.to_duration().as_secs(), 2592000);
    assert_eq!(Schedule::SevenDays.to_duration().as_secs(), 604800);
    assert_eq!(Schedule::SixDays.to_duration().as_secs(), 518400);
    assert_eq!(Schedule::OneDay.to_duration().as_secs(), 86400);
    assert_eq!(Schedule::TwelveHours.to_duration().as_secs(), 43200);
    assert_eq!(Schedule::OneHour.to_duration().as_secs(), 3600);
    assert_eq!(Schedule::ThirtyMinutes.to_duration().as_secs(), 1800);
    assert_eq!(Schedule::OneMinute.to_duration().as_secs(), 60);
}

#[test]
fn liveness_of_nonexistent_pid_is_false() {
    assert!(!process_exists(999999999));
}

#[test]
fn liveness_of_init_is_true() {
    assert!(process_exists(1));
}

#[test]
fn decimal_rendering() {
    assert_eq!(decimal_string(0), "0");
    assert_eq!(decimal_string(7), "7");
    assert_eq!(decimal_string(10), "10");
    assert_eq!(decimal_string(4294967295), "4294967295");
}

#[test]
fn parsing_decimals() {
    assert_eq!(parse_u32("0"), Some(0));
    assert_eq!(parse_u32("123"), Some(123));
    assert_eq!(parse_u32("4294967295"), Some(4294967295));
    assert_eq!(parse_u32("4294967296"), None);
    assert_eq!(parse_u32(""), None);
    assert_eq!(parse_u32("12x"), None);
    assert_eq!(parse_u32(" 12"), None);
}

#[test]
fn trimming() {
    assert_eq!(trim_str("  cat \n"), "cat");
    assert_eq!(trim_str("cat"), "cat");
    assert_eq!(trim_str(" \t\r\n"), "");
    assert_eq!(trim_str(""), "");
    assert_eq!(trim_str("a b"), "a b");
}

#[test]
fn replacing() {
    assert_eq!(replace_all("ababa", "aba", "X"), "Xba");
    assert_eq!(replace_all("seg seg", "seg", "Mon"), "Mon Mon");
    assert_eq!(replace_all("abc", "zz", "X"), "abc");
    assert_eq!(replace_all("", "zz", "X"), "");
}

#[test]
fn splitting_on_whitespace() {
    assert_eq!(split_whitespace_vec("a b  c"), vec!["a", "b", "c"]);
    assert_eq!(split_whitespace_vec("  a\t\nb "), vec!["a", "b"]);
    assert_eq!(split_whitespace_vec(""), Vec::<String>::new());
    assert_eq!(split_whitespace_vec("   "), Vec::<String>::new());
}

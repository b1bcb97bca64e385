use purrgres::marker::marker_file_name;
use purrgres::marker::MarkerStore;

#[test]
fn marker_file_name_is_fixed() {
    assert_eq!(marker_file_name(), "purrgres_pid");
}

#[test]
fn never_written_reads_none() {
    let store = MarkerStore::new();
    assert_eq!(store.read(), None);
    assert!(store.content().is_none());
}

#[test]
fn absent_file_reads_none() {
    let store = MarkerStore::from_content(None);
    assert_eq!(store.read(), None);
}

#[test]
fn cleared_reads_none() {
    let mut store = MarkerStore::new();
    store.write(4242);
    store.clear();
    assert_eq!(store.read(), None);
    assert!(store.content().is_none());
}

#[test]
fn write_read_roundtrip() {
    let mut store = MarkerStore::new();
    store.write(12345);
    assert_eq!(store.read(), Some(12345));
    assert_eq!(store.content().as_deref(), Some("12345"));
}

#[test]
fn write_read_roundtrip_zero() {
    let mut store = MarkerStore::new();
    store.write(0);
    assert_eq!(store.read(), Some(0));
    assert_eq!(store.content().as_deref(), Some("0"));
}

#[test]
fn write_read_roundtrip_max() {
    let mut store = MarkerStore::new();
    store.write(u32::MAX);
    assert_eq!(store.read(), Some(u32::MAX));
    assert_eq!(store.content().as_deref(), Some("4294967295"));
}

#[test]
fn overwrite_keeps_latest() {
    let mut store = MarkerStore::new();
    store.write(1);
    store.write(999999);
    assert_eq!(store.read(), Some(999999));
}

#[test]
fn non_numeric_reads_none() {
    let store = MarkerStore::from_content(Some(String::from("kitty")));
    assert_eq!(store.read(), None);
}

#[test]
fn mixed_content_reads_none() {
    let store = MarkerStore::from_content(Some(String::from("12a4")));
    assert_eq!(store.read(), None);
}

#[test]
fn empty_content_reads_none() {
    let store = MarkerStore::from_content(Some(String::new()));
    assert_eq!(store.read(), None);
}

#[test]
fn whitespace_only_reads_none() {
    let store = MarkerStore::from_content(Some(String::from(" \n\t")));
    assert_eq!(store.read(), None);
}

#[test]
fn surrounding_whitespace_is_trimmed() {
    let store = MarkerStore::from_content(Some(String::from("  42\n")));
    assert_eq!(store.read(), Some(42));
}

#[test]
fn signed_content_reads_none() {
    let store = MarkerStore::from_content(Some(String::from("+42")));
    assert_eq!(store.read(), None);
}

#[test]
fn inner_space_reads_none() {
    let store = MarkerStore::from_content(Some(String::from("4 2")));
    assert_eq!(store.read(), None);
}

#[test]
fn value_over_u32_reads_none() {
    let store = MarkerStore::from_content(Some(String::from("4294967296")));
    assert_eq!(store.read(), None);
    let store = MarkerStore::from_content(Some(String::from("99999999999999999999")));
    assert_eq!(store.read(), None);
}

#[test]
fn is_present_tracks_content() {
    let mut store = MarkerStore::new();
    assert!(!store.is_present());
    store.write(7);
    assert!(store.is_present());
    store.clear();
    assert!(!store.is_present());
}

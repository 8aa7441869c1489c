use router2::checker::{classify_file, should_delete, FileCheck};
use uuid::Uuid;

fn nanos(rfc3339: &str) -> i64 {
    chrono::DateTime::parse_from_rfc3339(rfc3339)
        .expect("valid timestamp")
        .timestamp_nanos_opt()
        .expect("in range")
}

fn older_time() -> i64 {
    nanos("2022-01-01T00:00:00Z")
}

fn newer_time() -> i64 {
    nanos("2022-02-02T00:00:00Z")
}

fn parquet_name(id: Uuid) -> String {
    format!("{}.parquet", id)
}

#[test]
fn dont_delete_new_file_in_catalog() {
    let id = Uuid::new_v4();
    let cutoff = older_time();
    let last_modified = newer_time();
    let check = classify_file(cutoff, last_modified, &parquet_name(id));
    assert!(!should_delete(check, true));
}

#[test]
fn dont_delete_new_file_not_in_catalog() {
    let id = Uuid::new_v4();
    let cutoff = older_time();
    let last_modified = newer_time();
    let check = classify_file(cutoff, last_modified, &parquet_name(id));
    assert!(!should_delete(check, false));
}

#[test]
fn dont_delete_new_file_with_unparseable_path() {
    let cutoff = older_time();
    let last_modified = newer_time();
    let check = classify_file(cutoff, last_modified, "not-a-uuid.parquet");
    assert!(!should_delete(check, false));
}

#[test]
fn dont_delete_old_file_in_catalog() {
    let id = Uuid::new_v4();
    let cutoff = newer_time();
    let last_modified = older_time();
    let check = classify_file(cutoff, last_modified, &parquet_name(id));
    assert!(!should_delete(check, true));
}

#[test]
fn delete_old_file_not_in_catalog() {
    let id = Uuid::new_v4();
    let cutoff = newer_time();
    let last_modified = older_time();
    let check = classify_file(cutoff, last_modified, &parquet_name(id));
    assert!(should_delete(check, false));
}

#[test]
fn delete_old_file_with_unparseable_path() {
    let cutoff = newer_time();
    let last_modified = older_time();
    let check = classify_file(cutoff, last_modified, "not-a-uuid.parquet");
    assert!(should_delete(check, false));
}

#[test]
fn classification_reads_the_parquet_object_identifier() {
    // The identifier handed to the catalog is the one in the file
    // name: a classifier that ignored its input could not produce it.
    let id = Uuid::parse_str("550e8400-e29b-41d4-a716-446655440000").unwrap();
    let check = classify_file(newer_time(), older_time(), &parquet_name(id));
    assert_eq!(check, FileCheck::AskCatalog(id.as_u128()));
    let other = Uuid::new_v4();
    let check2 = classify_file(newer_time(), older_time(), &parquet_name(other));
    assert_eq!(check2, FileCheck::AskCatalog(other.as_u128()));
}

#[test]
fn old_file_without_parquet_suffix_is_garbage() {
    let check = classify_file(newer_time(), older_time(), "journal.txt");
    assert_eq!(check, FileCheck::Delete);
    let short = classify_file(newer_time(), older_time(), "x");
    assert_eq!(short, FileCheck::Delete);
}

#[test]
fn new_file_is_kept_without_reading_its_name() {
    let check = classify_file(older_time(), newer_time(), "anything-at-all");
    assert_eq!(check, FileCheck::Keep);
}

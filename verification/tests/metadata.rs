use monolith::metadata::CsvMetadata;

fn sample_metadata() -> CsvMetadata {
    CsvMetadata::new(
        "/path/to/Data20260123_1339.csv".to_string(),
        "Data20260123_1339.csv".to_string(),
        10_000,
        2_500_000,
        52,
    )
}

#[test]
fn test_new_metadata() {
    let meta = sample_metadata();
    assert_eq!(meta.file_name, "Data20260123_1339.csv");
    assert_eq!(meta.total_rows, 10_000);
    assert_eq!(meta.total_columns, 32);
    assert_eq!(meta.columns_used, 16);
    assert_eq!(meta.memory_size_bytes, 10_000 * 52);
}

#[test]
fn test_within_limits() {
    let meta = sample_metadata();
    assert!(meta.is_within_limits(10));
    assert!(!meta.is_within_limits(0));
}

#[test]
fn within_limits_is_inclusive_at_the_limit() {
    let meta = CsvMetadata::new(String::new(), String::new(), 1024 * 1024, 0, 1);
    assert!(meta.is_within_limits(1));
    let over = CsvMetadata::new(String::new(), String::new(), 1024 * 1024 + 1, 0, 1);
    assert!(!over.is_within_limits(1));
}

#[test]
fn parse_time_is_now() {
    let before = chrono::Utc::now().timestamp_millis();
    let meta = sample_metadata();
    let after = chrono::Utc::now().timestamp_millis();
    assert!(before <= meta.parsed_at && meta.parsed_at <= after);
    assert_eq!(meta.file_size_bytes, 2_500_000);
    assert_eq!(meta.file_path, "/path/to/Data20260123_1339.csv");
}

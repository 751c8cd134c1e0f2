use monolith::csv_error::CsvError;
use monolith::csv_parser::CsvParser;
use monolith::time::{clock_label, push_decimal, push_signed_decimal};

#[test]
fn clock_labels() {
    assert_eq!(clock_label(1_769_175_540_000), "13:39:00");
    assert_eq!(clock_label(0), "00:00:00");
    assert_eq!(clock_label(-1000), "23:59:59");
    assert_eq!(clock_label(86_399_999), "23:59:59");
    assert_eq!(clock_label(45_296_000), "12:34:56");
}

#[test]
fn start_times_are_parsed_as_utc() {
    assert_eq!(CsvParser::extract_start_time("Data19700101_0000.csv").unwrap(), 0);
    assert_eq!(CsvParser::extract_start_time("Data20240229_2359.csv").unwrap(), 1_709_251_140_000);
    assert!(matches!(
        CsvParser::extract_start_time("Data20260230_1339.csv"),
        Err(CsvError::InvalidDate(_))
    ));
}

#[test]
fn decimals() {
    let mut s = String::from("x");
    push_decimal(&mut s, 0);
    push_decimal(&mut s, 1234567890);
    push_signed_decimal(&mut s, -42);
    push_signed_decimal(&mut s, i64::MIN);
    assert_eq!(s, "x01234567890-42-9223372036854775808");
}

use monolith::csv_error::CsvError;
use monolith::csv_parser::CsvParser;
use monolith::record::ByteValue;

const HEADER: &str = "Recirc Density,Downhole Density,Mix Water Rate,Combo Rate,PS Pressure,DS Pressure,Mix Wtr Stg Ttl,Mix Wtr Job Ttl,Combo Pump Stg Ttl,Combo Pump Job Ttl,Cement Vlv,Wtr Vlv,PS Rate,DS Rate,Digital Outs,Event Num";
const UNITS: &str = "ppg,ppg,bpm,bpm,psi,psi,bbl,bbl,bbl,bbl,cmt%,wtr%,bpm,bpm,DigOut,";

fn start() -> i64 {
    CsvParser::extract_start_time("Data20260123_1339.csv").unwrap()
}

fn parse(content: &str) -> Result<monolith::data::CementingData, CsvError> {
    CsvParser::parse_content(
        "/dir/Data20260123_1339.csv".to_string(),
        "Data20260123_1339.csv".to_string(),
        start(),
        content.len() as u64,
        content.as_bytes(),
    )
    .unwrap()
}

fn real_value(t: &str) -> f32 {
    t.parse::<f32>().unwrap()
}

#[test]
fn start_time_comes_from_the_file_name() {
    assert_eq!(start(), 1_769_175_540_000);
    assert!(CsvParser::start_time_is_defined("Data20260123_1339.csv"));
}

#[test]
fn file_name_without_the_data_shape_is_rejected() {
    assert!(matches!(
        CsvParser::extract_start_time("report.csv"),
        Err(CsvError::InvalidFilename(name)) if name == "report.csv"
    ));
    assert!(matches!(
        CsvParser::extract_start_time("Data20260123_13390.csv"),
        Err(CsvError::InvalidFilename(_))
    ));
}

#[test]
fn impossible_date_in_the_file_name_is_rejected() {
    assert!(matches!(
        CsvParser::extract_start_time("Data20261323_1339.csv"),
        Err(CsvError::InvalidDate(_))
    ));
    assert!(matches!(
        CsvParser::extract_start_time("Data20260123_2561.csv"),
        Err(CsvError::InvalidDate(_))
    ));
}

#[test]
fn name_that_cannot_be_cut_is_reported() {
    assert!(!CsvParser::start_time_is_defined("Data12345678Ж339.csv"));
    assert!(CsvParser::start_time_is_defined("notes.txt"));
}

#[test]
fn parses_units_and_records() {
    let content = format!(
        "{}\n{}\n8.10,0,0,0,21,-36,1201.89,1201.89,0,0,37,90,0,0,0,0\n 8.11 ,0,0,0,21,-34,1201.89,1201.89,0,0,45.00,90,0,0,0.00,\n",
        HEADER, UNITS
    );
    let data = parse(&content).unwrap();
    assert_eq!(data.records.len(), 2);
    assert_eq!(data.units.recirc_density, "ppg");
    assert_eq!(data.units.wtr_vlv_percent, "wtr%");
    assert_eq!(data.units.event_num, "");
    assert_eq!(real_value(&data.records[0].recirc_density.text), 8.10);
    assert_eq!(real_value(&data.records[1].recirc_density.text), 8.11);
    assert_eq!(data.records[0].cement_vlv_percent, ByteValue::Int(37));
    match &data.records[1].cement_vlv_percent {
        ByteValue::Truncated(f) => assert_eq!(real_value(&f.text) as u8, 45),
        other => panic!("unexpected {:?}", other),
    }
    assert_eq!(data.records[1].event_num, ByteValue::Int(0));
    assert_eq!(data.start_time, 1_769_175_540_000);
    assert_eq!(data.end_time, 1_769_175_541_000);
    assert_eq!(data.meta.file_size_bytes, content.len() as u64);
    assert_eq!(data.file_name, "Data20260123_1339.csv");
    assert_eq!(data.file_path, "/dir/Data20260123_1339.csv");
}

#[test]
fn short_header_is_rejected() {
    let content = "a,b,c\nppg,ppg,bpm\n1,2,3\n";
    assert!(matches!(parse(content), Err(CsvError::InvalidHeaders(3))));
}

#[test]
fn file_without_data_rows_is_empty() {
    let only_header = format!("{}\n", HEADER);
    assert!(matches!(parse(&only_header), Err(CsvError::EmptyFile)));
    let header_and_units = format!("{}\n{}\n", HEADER, UNITS);
    assert!(matches!(parse(&header_and_units), Err(CsvError::EmptyFile)));
}

#[test]
fn bad_cell_reports_line_field_and_reason() {
    let content = format!(
        "{}\n{}\n8.10,0,0,0,21,-36,1,1,0,0,37,90,0,0,0,0\n8.10,0,0,0,abc,-36,1,1,0,0,37,90,0,0,0,0\n",
        HEADER, UNITS
    );
    match parse(&content) {
        Err(CsvError::ParseError { row, field, reason }) => {
            assert_eq!(row, 4);
            assert_eq!(field, "ps_pressure");
            assert_eq!(reason, "invalid float literal");
        }
        other => panic!("unexpected {:?}", other),
    }
}

#[test]
fn missing_real_column_is_reported() {
    let content = format!("{}\n{}\n8.10,0,0\n", HEADER, UNITS);
    match parse(&content) {
        Err(CsvError::ParseError { row, field, reason }) => {
            assert_eq!(row, 3);
            assert_eq!(field, "combo_rate");
            assert_eq!(reason, "missing column");
        }
        other => panic!("unexpected {:?}", other),
    }
}

#[test]
fn empty_real_cell_and_bad_byte_cell_are_reported() {
    let empty = format!("{}\n{}\n,0,0,0,21,-36,1,1,0,0,37,90,0,0,0,0\n", HEADER, UNITS);
    match parse(&empty) {
        Err(CsvError::ParseError { field, reason, .. }) => {
            assert_eq!(field, "recirc_density");
            assert_eq!(reason, "cannot parse float from empty string");
        }
        other => panic!("unexpected {:?}", other),
    }
    let byte = format!("{}\n{}\n1,0,0,0,21,-36,1,1,0,0,x7,90,0,0,0,0\n", HEADER, UNITS);
    match parse(&byte) {
        Err(CsvError::ParseError { field, reason, .. }) => {
            assert_eq!(field, "cement_vlv_percent");
            assert_eq!(reason, "invalid float literal");
        }
        other => panic!("unexpected {:?}", other),
    }
}

#[test]
fn missing_byte_columns_read_as_zero() {
    let content = format!("{}\n{}\n1,0,0,0,21,-36,1,1,0,0,37,90,0,0\n", HEADER, UNITS);
    let data = parse(&content).unwrap();
    assert_eq!(data.records[0].digital_outs, ByteValue::Int(0));
    assert_eq!(data.records[0].event_num, ByteValue::Int(0));
}

#[test]
fn unreadable_data_row_is_a_reader_error() {
    let mut content = format!("{}\n{}\n", HEADER, UNITS).into_bytes();
    content.extend_from_slice(b"8.10,0,0,0,21,-36,1,1,0,0,37,90,0,0,0,\xff\n");
    let result = CsvParser::parse_content(
        "/dir/Data20260123_1339.csv".to_string(),
        "Data20260123_1339.csv".to_string(),
        start(),
        content.len() as u64,
        &content,
    )
    .unwrap();
    match result {
        Err(e @ CsvError::CsvError(_)) => {
            let text = e.message();
            assert!(text.starts_with("Ошибка CSV: "));
            assert!(text.len() > "Ошибка CSV: ".len());
        }
        other => panic!("unexpected {:?}", other),
    }
}

#[test]
fn unreadable_units_row_gives_default_units() {
    let mut content = format!("{}\n", HEADER).into_bytes();
    content.extend_from_slice(b"ppg,ppg,\xff,bpm\n");
    content.extend_from_slice(b"8.10,0,0,0,21,-36,1,1,0,0,37,90,0,0,0,0\n");
    let data = CsvParser::parse_content(
        "/dir/Data20260123_1339.csv".to_string(),
        "Data20260123_1339.csv".to_string(),
        start(),
        content.len() as u64,
        &content,
    )
    .unwrap()
    .unwrap();
    assert_eq!(data.units, monolith::units::CementingUnits::default_units());
    assert_eq!(data.records.len(), 1);
}

use monolith::data::{CementingData, ChartPoint};
use monolith::record::{ByteValue, CementingRecord, FieldValue, FloatLiteral, RecordField};
use monolith::time::clock_label;
use monolith::units::CementingUnits;

fn lit(text: &str) -> FloatLiteral {
    FloatLiteral { text: text.to_string() }
}

fn real_value(f: &FloatLiteral) -> f32 {
    f.text.parse::<f32>().unwrap()
}

fn reading(v: &FieldValue) -> f32 {
    match v {
        FieldValue::Number(f) => real_value(f),
        FieldValue::Byte(ByteValue::Int(b)) => *b as f32,
        FieldValue::Byte(ByteValue::Truncated(f)) => (real_value(f) as u8) as f32,
    }
}

fn hms(ms: i64) -> String {
    chrono::DateTime::from_timestamp_millis(ms).unwrap().format("%H:%M:%S").to_string()
}

fn sample_units() -> CementingUnits {
    CementingUnits::default_units()
}

fn record(recirc: &str, ps: &str, ds: &str) -> CementingRecord {
    CementingRecord {
        recirc_density: lit(recirc),
        downhole_density: lit("0.0"),
        mix_water_rate: lit("0.0"),
        combo_rate: lit("0.0"),
        ps_pressure: lit(ps),
        ds_pressure: lit(ds),
        mix_wtr_stg_ttl: lit("1201.89"),
        mix_wtr_job_ttl: lit("1201.89"),
        combo_pump_stg_ttl: lit("0.0"),
        combo_pump_job_ttl: lit("0.0"),
        ps_rate: lit("0.0"),
        ds_rate: lit("0.0"),
        cement_vlv_percent: ByteValue::Int(37),
        wtr_vlv_percent: ByteValue::Int(90),
        digital_outs: ByteValue::Int(0),
        event_num: ByteValue::Int(0),
    }
}

fn sample_records() -> Vec<CementingRecord> {
    vec![
        record("8.10", "21.0", "-36.0"),
        record("8.11", "21.0", "-34.0"),
        record("8.07", "20.0", "-34.0"),
    ]
}

fn sample_start() -> i64 {
    chrono::NaiveDateTime::parse_from_str("20260123 133900", "%Y%m%d %H%M%S")
        .unwrap()
        .and_utc()
        .timestamp_millis()
}

fn sample_data() -> CementingData {
    CementingData::new(
        "/path/to/Data20260123_1339.csv".to_string(),
        "Data20260123_1339.csv".to_string(),
        sample_start(),
        sample_units(),
        sample_records(),
    )
}

fn data_lasting(seconds: usize) -> CementingData {
    let mut records = Vec::new();
    for _ in 0..seconds + 1 {
        records.push(record("1.0", "0.0", "0.0"));
    }
    CementingData::new("/x.csv".to_string(), "x.csv".to_string(), 0, sample_units(), records)
}

#[test]
fn test_new_data() {
    let data = sample_data();

    assert_eq!(data.file_name, "Data20260123_1339.csv");
    assert_eq!(data.records.len(), 3);
    assert_eq!(data.sample_interval_ms, 1000);
    assert!(data.has_data());
}

#[test]
fn test_timestamp_at() {
    let data = sample_data();

    let t0 = data.timestamp_at(0);
    assert_eq!(hms(t0), "13:39:00");

    let t1 = data.timestamp_at(1);
    assert_eq!(hms(t1), "13:39:01");

    let t2 = data.timestamp_at(2);
    assert_eq!(hms(t2), "13:39:02");
}

#[test]
fn test_time_range() {
    let data = sample_data();
    let (start, end) = data.time_range();

    assert_eq!(hms(start), "13:39:00");
    assert_eq!(hms(end), "13:39:02");
}

#[test]
fn test_duration() {
    let data = sample_data();

    assert_eq!(data.duration_secs(), 2);
    assert_eq!(data.duration_human(), "2с");
}

#[test]
fn test_chart_point() {
    let data = sample_data();

    let point = data.to_chart_point(0, RecordField::RecircDensity);
    assert!(point.is_some());

    let point = point.unwrap();
    assert_eq!(reading(&point.y), 8.10);
    assert_eq!(point.time_label, "13:39:00");
}

#[test]
fn test_chart_data() {
    let data = sample_data();

    let chart: Vec<ChartPoint> = data.get_chart_data(RecordField::RecircDensity);
    assert_eq!(chart.len(), 3);

    assert_eq!(reading(&chart[0].y), 8.10);
    assert_eq!(reading(&chart[1].y), 8.11);
    assert_eq!(reading(&chart[2].y), 8.07);
}

#[test]
fn test_first_last_record() {
    let data = sample_data();

    let first = data.first_record();
    assert!(first.is_some());
    assert_eq!(real_value(&first.unwrap().recirc_density), 8.10);

    let last = data.last_record();
    assert!(last.is_some());
    assert_eq!(real_value(&last.unwrap().recirc_density), 8.07);
}

#[test]
fn test_empty_data() {
    let start_time = chrono::Utc::now().timestamp_millis();
    let data = CementingData::new(
        "/empty.csv".to_string(),
        "empty.csv".to_string(),
        start_time,
        sample_units(),
        vec![],
    );

    assert!(!data.has_data());
    assert_eq!(data.records.len(), 0);
    assert_eq!(data.duration_secs(), 0);
    assert_eq!(data.first_record(), None);
}

#[test]
fn new_data_spans_one_second_per_record_after_the_first() {
    let data = sample_data();
    assert_eq!(data.start_time, sample_start());
    assert_eq!(data.end_time, sample_start() + 2000);
    assert_eq!(data.timestamp_at(2), data.end_time);
    assert_eq!(data.meta.total_rows, 3);
    assert_eq!(data.meta.memory_size_bytes, 3 * 52);
    assert_eq!(data.meta.file_size_bytes, 0);
    assert_eq!(data.meta.total_columns, 32);
    assert_eq!(data.meta.columns_used, 16);
}

#[test]
fn new_data_gets_distinct_session_ids() {
    let a = sample_data();
    let b = sample_data();
    assert_ne!(a.id, b.id);
    assert_eq!((a.id >> 76) & 0xf, 4);
}

#[test]
fn duration_human_shows_the_two_largest_units() {
    assert_eq!(data_lasting(3661).duration_human(), "1ч 1м");
    assert_eq!(data_lasting(4980).duration_human(), "1ч 23м");
    assert_eq!(data_lasting(60).duration_human(), "1м 0с");
    assert_eq!(data_lasting(3600).duration_human(), "1ч 0м");
    assert_eq!(data_lasting(0).duration_human(), "0с");
    assert_eq!(data_lasting(59).duration_secs(), 59);
}

#[test]
fn chart_point_past_the_end_is_none() {
    let data = sample_data();
    assert!(data.to_chart_point(3, RecordField::RecircDensity).is_none());
    let empty = CementingData::new(String::new(), String::new(), 0, sample_units(), vec![]);
    assert!(empty.get_chart_data(RecordField::PsPressure).is_empty());
}

#[test]
fn chart_points_carry_time_and_the_chosen_column() {
    let data = sample_data();
    let chart = data.get_chart_data(RecordField::DsPressure);
    assert_eq!(chart[1].x_ms, sample_start() + 1000);
    assert_eq!(chart[1].time_label, "13:39:01");
    assert_eq!(reading(&chart[0].y), -36.0);
    let valve = data.to_chart_point(2, RecordField::WtrVlvPercent).unwrap();
    assert_eq!(valve.y, FieldValue::Byte(ByteValue::Int(90)));
    assert_eq!(clock_label(valve.x_ms), "13:39:02");
}

#[test]
fn set_file_size_changes_only_the_size() {
    let mut data = sample_data();
    let id = data.id;
    data.set_file_size(2_500_000);
    assert_eq!(data.meta.file_size_bytes, 2_500_000);
    assert_eq!(data.id, id);
    assert_eq!(data.records.len(), 3);
}

#[test]
fn clone_keeps_everything() {
    let data = sample_data();
    let copy = data.clone();
    assert_eq!(copy, data);
}

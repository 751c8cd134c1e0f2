use monolith::commands::{debug_serialize, get_csv_data};
use monolith::csv_error::CsvError;
use monolith::csv_manager::CsvManager;
use monolith::csv_parser::CsvParser;
use monolith::data::CementingData;
use monolith::record::{ByteValue, FloatLiteral};
use monolith::units::CementingUnits;

fn data(name: &str) -> CementingData {
    CementingData::new(
        format!("/dir/{}", name),
        name.to_string(),
        1_769_175_540_000,
        CementingUnits::default_units(),
        vec![],
    )
}

#[test]
fn inserted_data_can_be_read_back() {
    let mut manager = CsvManager::new();
    let d = data("a.csv");
    let id = manager.insert_data(d.clone());
    assert_eq!(id, d.id);
    let got = manager.get_data_result(id).unwrap();
    assert_eq!(got, d);
}

#[test]
fn missing_session_reports_its_id() {
    let manager = CsvManager::new();
    let id: u128 = 0x0123_4567_89ab_4cde_8f01_2345_6789_abcd;
    match manager.get_data_result(id) {
        Err(CsvError::FileNotFound(msg)) => assert_eq!(
            msg,
            "Файл с ID 01234567-89ab-4cde-8f01-23456789abcd не найден в кэше"
        ),
        other => panic!("unexpected {:?}", other),
    }
}

#[test]
fn unload_removes_only_that_session() {
    let mut manager = CsvManager::new();
    let a = manager.insert_data(data("a.csv"));
    let b = manager.insert_data(data("b.csv"));
    assert!(manager.unload_file(a));
    assert!(!manager.unload_file(a));
    assert!(manager.get_data_result(a).is_err());
    assert_eq!(manager.get_data_result(b).unwrap().file_name, "b.csv");
    let listed: Vec<u128> = manager.list_files().iter().map(|d| d.id).collect();
    assert_eq!(listed, vec![b]);
}

#[test]
fn default_manager_is_empty() {
    let manager = CsvManager::default();
    assert!(manager.list_files().is_empty());
}

#[test]
fn clear_and_list() {
    let mut manager = CsvManager::new();
    manager.insert_data(data("a.csv"));
    manager.insert_data(data("b.csv"));
    let mut names: Vec<String> = manager.list_files().into_iter().map(|d| d.file_name).collect();
    names.sort();
    assert_eq!(names, vec!["a.csv".to_string(), "b.csv".to_string()]);
    manager.clear_cache();
    assert!(manager.list_files().is_empty());
}

#[test]
fn csv_data_by_session_text() {
    let mut manager = CsvManager::new();
    let d = data("a.csv");
    let id = manager.insert_data(d.clone());
    let text = uuid::Uuid::from_u128(id).to_string();
    assert_eq!(get_csv_data(&manager, &text).unwrap(), d);
    assert_eq!(get_csv_data(&manager, &text.to_uppercase()).unwrap(), d);
}

#[test]
fn csv_data_with_bad_session_text() {
    let manager = CsvManager::new();
    assert_eq!(
        get_csv_data(&manager, "not-a-uuid").unwrap_err(),
        "Невалидный session_id формат"
    );
}

#[test]
fn csv_data_for_session_not_loaded() {
    let manager = CsvManager::new();
    let text = "01234567-89ab-4cde-8f01-23456789abcd";
    assert_eq!(
        get_csv_data(&manager, text).unwrap_err(),
        "Не удалось получить данные: Файл не найден: Файл с ID 01234567-89ab-4cde-8f01-23456789abcd не найден в кэше"
    );
}

#[test]
fn debug_data_set() {
    let d = debug_serialize().unwrap();
    assert_eq!(d.file_path, "/fake/path.csv");
    assert_eq!(d.file_name, "debug.csv");
    assert_eq!(d.records.len(), 1);
    assert_eq!(d.start_time, d.end_time);
    let r = &d.records[0];
    assert_eq!(r.recirc_density, FloatLiteral { text: "1.23".to_string() });
    assert_eq!(r.ps_pressure.text.parse::<f32>().unwrap(), 45.6);
    assert_eq!(r.ds_pressure.text.parse::<f32>().unwrap(), 0.0);
    assert_eq!(r.event_num, ByteValue::Int(0));
    assert_eq!(d.units, CementingUnits::default_units());
}

#[test]
fn error_messages() {
    assert_eq!(CsvError::FileNotFound("x".to_string()).message(), "Файл не найден: x");
    assert_eq!(
        CsvError::InvalidFilename("a.csv".to_string()).message(),
        "Неверный формат имени файла: a.csv. Ожидается DataYYYYMMDD_HHMM.csv"
    );
    assert_eq!(
        CsvError::InvalidHeaders(3).message(),
        "Неверные заголовки. Ожидается 32 колонки, получено: 3"
    );
    assert_eq!(
        CsvError::ParseError { row: 12, field: "ps_pressure".to_string(), reason: "invalid float literal".to_string() }
            .message(),
        "Ошибка парсинга строки 12, поле 'ps_pressure': invalid float literal"
    );
    assert_eq!(CsvError::EmptyFile.message(), "Файл пустой или не содержит данных");
    let io = std::io::Error::new(std::io::ErrorKind::Other, "disk gone");
    assert_eq!(CsvError::IoError(io).message(), "Ошибка IO: disk gone");
}

#[test]
fn parsed_file_round_trips_through_the_cache() {
    let content = "Recirc Density,Downhole Density,Mix Water Rate,Combo Rate,PS Pressure,DS Pressure,Mix Wtr Stg Ttl,Mix Wtr Job Ttl,Combo Pump Stg Ttl,Combo Pump Job Ttl,Cement Vlv,Wtr Vlv,PS Rate,DS Rate,Digital Outs,Event Num\n\
ppg,ppg,bpm,bpm,psi,psi,bbl,bbl,bbl,bbl,cmt%,wtr%,bpm,bpm,,\n\
8.10,0,0,0,21,-36,1201.89,1201.89,0,0,37,90,0,0,0,0\n\
8.11,0,0,0,21,-34,1201.89,1201.89,0,0,37,90,0,0,0,0\n\
8.07,0,0,0,20,-34,1201.89,1201.89,0,0,37,90,0,0,0,0\n";
    let start = CsvParser::extract_start_time("Data20260123_1339.csv").unwrap();
    let data = CsvParser::parse_content(
        "/dir/Data20260123_1339.csv".to_string(),
        "Data20260123_1339.csv".to_string(),
        start,
        content.len() as u64,
        content.as_bytes(),
    )
    .unwrap()
    .unwrap();
    let mut manager = CsvManager::new();
    let id = manager.insert_data(data.clone());
    let cached = manager.get_data_result(id).unwrap();
    assert_eq!(cached, data);
    assert!(cached.has_data());
    assert_eq!(cached.records.len(), 3);
    assert_eq!(cached.duration_human(), "2с");
    assert_eq!(cached.units.ps_pressure, "psi");
    assert_eq!(cached.records[2].recirc_density.text.parse::<f32>().unwrap(), 8.07);
    assert_eq!(cached.meta.file_size_bytes, content.len() as u64);
}

use monolith::ascii_error::AsciiError;
use monolith::ascii_parser::{
    parse_f32_with_unit, parse_line, parse_u8_with_unit, parse_u8_without_unit, validate_unit,
};
use monolith::ascii_stream::{stream_step, StreamStep};
use monolith::record::{ByteValue, FloatLiteral};

fn real_value(f: &FloatLiteral) -> f32 {
    f.text.parse::<f32>().unwrap()
}

fn byte(b: &ByteValue) -> u8 {
    match b {
        ByteValue::Int(v) => *v,
        ByteValue::Truncated(f) => f.text.parse::<f32>().unwrap() as u8,
    }
}

#[test]
fn parse_line_returns_error_when_fields_are_less_than_16() {
    let line = "13.44 ppg,10.88 ppg,12 gpm";

    let result = parse_line(line);

    assert!(matches!(result, Err(AsciiError::NotEnoughFields(3))));
}

#[test]
fn parse_line_parses_first_16_fields_into_cementing_record() {
    let line = "13.44 ppg,10.88 ppg,12 gpm,7.0 bpm,1359 psi,4413 psi,0 gal,0 gal,0.0 bbl,0.0 bbl,81.89 cmt%,82.55 wtr%,0.0 bpm,0.0 bpm,0 DigOut,0";

    let record = parse_line(line).unwrap();

    assert_eq!(real_value(&record.recirc_density), 13.44);
    assert_eq!(real_value(&record.downhole_density), 10.88);
    assert_eq!(real_value(&record.mix_water_rate), 12.0);
    assert_eq!(real_value(&record.combo_rate), 7.0);
    assert_eq!(real_value(&record.ps_pressure), 1359.0);
    assert_eq!(real_value(&record.ds_pressure), 4413.0);
    assert_eq!(real_value(&record.mix_wtr_stg_ttl), 0.0);
    assert_eq!(real_value(&record.mix_wtr_job_ttl), 0.0);
    assert_eq!(real_value(&record.combo_pump_stg_ttl), 0.0);
    assert_eq!(real_value(&record.combo_pump_job_ttl), 0.0);
    assert_eq!(byte(&record.cement_vlv_percent), 81);
    assert_eq!(byte(&record.wtr_vlv_percent), 82);
    assert_eq!(real_value(&record.ps_rate), 0.0);
    assert_eq!(real_value(&record.ds_rate), 0.0);
    assert_eq!(byte(&record.digital_outs), 0);
    assert_eq!(byte(&record.event_num), 0);
}

#[test]
fn parse_line_returns_error_for_invalid_unit() {
    let line = "13.44 psi,10.88 ppg,12 gpm,7.0 bpm,1359 psi,4413 psi,0 gal,0 gal,0.0 bbl,0.0 bbl,81.89 cmt%,82.55 wtr%,0.0 bpm,0.0 bpm,0 DigOut,0";

    let result = parse_line(line);

    assert!(matches!(
        result,
        Err(AsciiError::InvalidUnit {
            field: "recirc_density",
            expected: "ppg",
            ..
        })
    ));
}

#[test]
fn parse_line_returns_error_when_event_num_has_unit() {
    let line = "13.44 ppg,10.88 ppg,12 gpm,7.0 bpm,1359 psi,4413 psi,0 gal,0 gal,0.0 bbl,0.0 bbl,81.89 cmt%,82.55 wtr%,0.0 bpm,0.0 bpm,0 DigOut,0 event";

    let result = parse_line(line);

    assert!(matches!(
        result,
        Err(AsciiError::InvalidUnit {
            field: "event_num",
            expected: "",
            ..
        })
    ));
}

const GOOD: &str = "13.44 ppg,10.88 ppg,12 gpm,7.0 bpm,1359 psi,4413 psi,0 gal,0 gal,0.0 bbl,0.0 bbl,81.89 cmt%,82.55 wtr%,0.0 bpm,0.0 bpm,0 DigOut,0";

#[test]
fn parse_line_keeps_literal_text_and_byte_kinds() {
    let record = parse_line(GOOD).unwrap();
    assert_eq!(record.recirc_density.text, "13.44");
    assert_eq!(record.cement_vlv_percent, ByteValue::Truncated(FloatLiteral { text: "81.89".to_string() }));
    assert_eq!(record.digital_outs, ByteValue::Int(0));
}

#[test]
fn parse_line_reports_bad_float_with_the_whole_field() {
    let line = GOOD.replacen("10.88 ppg", "1x.88 ppg", 1);
    match parse_line(&line) {
        Err(AsciiError::ParseFloat { field, value }) => {
            assert_eq!(field, "downhole_density");
            assert_eq!(value, "1x.88 ppg");
        }
        other => panic!("unexpected {:?}", other),
    }
}

#[test]
fn parse_line_reports_bad_byte() {
    let line = GOOD.replacen("81.89 cmt%", "lots cmt%", 1);
    match parse_line(&line) {
        Err(AsciiError::ParseU8 { field, value }) => {
            assert_eq!(field, "cement_vlv_percent");
            assert_eq!(value, "lots cmt%");
        }
        other => panic!("unexpected {:?}", other),
    }
}

#[test]
fn parse_line_checks_unit_before_number_and_fields_in_order() {
    let line = GOOD.replacen("13.44 ppg", "bad ppg", 1).replacen("10.88 ppg", "10.88 gpm", 1);
    assert!(matches!(parse_line(&line), Err(AsciiError::ParseFloat { field: "recirc_density", .. })));
    let line = GOOD.replacen("13.44 ppg", "bad psi", 1);
    match parse_line(&line) {
        Err(AsciiError::InvalidUnit { field, expected, actual }) => {
            assert_eq!(field, "recirc_density");
            assert_eq!(expected, "ppg");
            assert_eq!(actual, "psi");
        }
        other => panic!("unexpected {:?}", other),
    }
}

#[test]
fn parse_line_accepts_float_syntax_of_the_standard_library() {
    let line = GOOD
        .replacen("13.44 ppg", "  +1e3   ppg  ", 1)
        .replacen("10.88 ppg", "inf ppg", 1)
        .replacen("12 gpm", ".5 gpm", 1)
        .replacen("7.0 bpm", "NaN bpm", 1)
        .replacen("1359 psi", "3. psi", 1);
    let record = parse_line(&line).unwrap();
    assert_eq!(real_value(&record.recirc_density), 1000.0);
    assert!(real_value(&record.downhole_density).is_infinite());
    assert_eq!(real_value(&record.mix_water_rate), 0.5);
    assert!(real_value(&record.combo_rate).is_nan());
    assert_eq!(real_value(&record.ps_pressure), 3.0);
    for bad in ["e5", ".", "1e", "1.2.3", "+", "--1", "0x10", "infinite"] {
        let line = GOOD.replacen("13.44 ppg", &format!("{} ppg", bad), 1);
        assert!(matches!(parse_line(&line), Err(AsciiError::ParseFloat { .. })), "{}", bad);
        assert!(bad.parse::<f32>().is_err(), "{}", bad);
    }
}

#[test]
fn parse_line_ignores_fields_after_the_sixteenth() {
    let line = format!("{},extra stuff,more", GOOD);
    assert!(parse_line(&line).is_ok());
}

#[test]
fn parse_line_reads_byte_literals_with_plus_and_truncation() {
    let line = GOOD.replacen("0 DigOut", "+255 DigOut", 1).replacen("0.0 bpm,0 DigOut", "0.0 bpm,+255 DigOut", 1);
    let record = parse_line(&line).unwrap();
    assert_eq!(record.digital_outs, ByteValue::Int(255));
    let line = GOOD.replacen("0 DigOut", "256 DigOut", 1);
    let record = parse_line(&line).unwrap();
    assert_eq!(byte(&record.digital_outs), 255);
    assert!(matches!(record.digital_outs, ByteValue::Truncated(_)));
}

#[test]
fn stream_step_forwards_skips_and_stops() {
    assert!(matches!(stream_step(Ok(GOOD.to_string())), StreamStep::Forward(_)));
    assert!(matches!(stream_step(Ok("junk".to_string())), StreamStep::Skip));
    assert!(matches!(stream_step(Err(AsciiError::ReadError("x".to_string()))), StreamStep::Stop));
}

fn chars(s: &str) -> Vec<char> {
    s.chars().collect()
}

#[test]
fn split_value_and_unit_takes_the_first_two_words() {
    let (v, u) = monolith::ascii_parser::split_value_and_unit(&chars("  13.44 \t ppg extra"));
    assert_eq!(v, chars("13.44"));
    assert_eq!(u, chars("ppg"));
    let (v, u) = monolith::ascii_parser::split_value_and_unit(&chars("7"));
    assert_eq!(v, chars("7"));
    assert!(u.is_empty());
}

#[test]
fn field_helpers_check_unit_then_number() {
    assert!(validate_unit("ps_pressure", "psi", &chars("psi")).is_ok());
    assert!(matches!(
        validate_unit("ps_pressure", "psi", &chars("bar")),
        Err(AsciiError::InvalidUnit { field: "ps_pressure", expected: "psi", actual }) if actual == "bar"
    ));
    assert_eq!(real_value(&parse_f32_with_unit(&chars("1359 psi"), "ps_pressure", "psi").unwrap()), 1359.0);
    assert!(matches!(
        parse_f32_with_unit(&chars("x psi"), "ps_pressure", "psi"),
        Err(AsciiError::ParseFloat { field: "ps_pressure", value }) if value == "x psi"
    ));
    assert_eq!(byte(&parse_u8_with_unit(&chars("81.89 cmt%"), "cement_vlv_percent", "cmt%").unwrap()), 81);
    assert!(matches!(
        parse_u8_with_unit(&chars("-1 cmt%"), "cement_vlv_percent", "cmt%"),
        Ok(ByteValue::Truncated(_))
    ));
    assert!(matches!(
        parse_u8_with_unit(&chars("abc cmt%"), "cement_vlv_percent", "cmt%"),
        Err(AsciiError::ParseU8 { field: "cement_vlv_percent", value }) if value == "abc cmt%"
    ));
    assert_eq!(parse_u8_without_unit(&chars("300"), "event_num").ok().map(|b| byte(&b)), Some(255));
    assert!(matches!(
        parse_u8_without_unit(&chars("3 ev"), "event_num"),
        Err(AsciiError::InvalidUnit { field: "event_num", expected: "", actual }) if actual == "ev"
    ));
}

#[test]
fn fields_after_the_sixteenth_are_ignored() {
    let line = "13.44 ppg,10.88 ppg,12 gpm,7.0 bpm,1359 psi,4413 psi,0 gal,0 gal,0.0 bbl,0.0 bbl,81.89 cmt%,82.55 wtr%,0.0 bpm,0.0 bpm,0 DigOut,0";
    let longer = format!("{},garbage,more", line);
    assert_eq!(parse_line(line).unwrap(), parse_line(&longer).unwrap());
    let bad = "13.44 psi,10.88 ppg,12 gpm,7.0 bpm,1359 psi,4413 psi,0 gal,0 gal,0.0 bbl,0.0 bbl,81.89 cmt%,82.55 wtr%,0.0 bpm,0.0 bpm,0 DigOut,0";
    let bad_longer = format!("{},x", bad);
    assert_eq!(format!("{:?}", parse_line(bad)), format!("{:?}", parse_line(&bad_longer)));
}

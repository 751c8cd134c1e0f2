use monolith::units::CementingUnits;

#[test]
fn test_default_units() {
    let units = CementingUnits::default_units();
    assert_eq!(units.recirc_density, "ppg");
    assert_eq!(units.ps_pressure, "psi");
    assert_eq!(units.cement_vlv_percent, "cmt%");
    assert!(units.digital_outs.is_empty());
    assert!(units.event_num.is_empty());
}

#[test]
fn test_get_by_index() {
    let units = CementingUnits::default_units();
    assert_eq!(units.get_by_index(0), Some("ppg"));
    assert_eq!(units.get_by_index(4), Some("psi"));
    assert_eq!(units.get_by_index(12), Some("cmt%"));
    assert_eq!(units.get_by_index(99), None);
}

#[test]
fn test_get_by_field() {
    let units = CementingUnits::default_units();
    assert_eq!(units.get_by_field("recirc_density"), Some("ppg"));
    assert_eq!(units.get_by_field("ps_pressure"), Some("psi"));
    assert_eq!(units.get_by_field("unknown_field"), None);
}

#[test]
fn lookups_by_index_and_by_name_agree() {
    let names = [
        "recirc_density", "downhole_density", "mix_water_rate", "combo_rate", "ps_pressure",
        "ds_pressure", "mix_wtr_stg_ttl", "mix_wtr_job_ttl", "combo_pump_stg_ttl",
        "combo_pump_job_ttl", "ps_rate", "ds_rate", "cement_vlv_percent", "wtr_vlv_percent",
        "digital_outs", "event_num",
    ];
    let units = CementingUnits::default_units();
    for (i, name) in names.iter().enumerate() {
        assert_eq!(units.get_by_index(i), units.get_by_field(name));
    }
    assert_eq!(units.get_by_index(10), Some("bpm"));
    assert_eq!(units.get_by_index(16), None);
}

#[test]
fn completeness_ignores_the_unitless_fields() {
    let mut units = CementingUnits::default_units();
    assert!(units.is_complete());
    units.digital_outs = "state".to_string();
    assert!(units.is_complete());
    units.wtr_vlv_percent = String::new();
    assert!(!units.is_complete());
}

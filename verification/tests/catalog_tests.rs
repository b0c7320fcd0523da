use wave_criteria::catalog::{
    RawDataset, RawField, RawRecord, RawValue, ServiceAreaCatalog,
};
use wave_criteria::errors::CriteriaError;
use wave_criteria::numeric::Decimal;

fn num_field(name: &str, micros: i64) -> RawField {
    RawField { name: name.to_string(), value: RawValue::Number(Decimal::from_micros(micros)) }
}

fn wave_rec(id: &str, h_s: i64, t_z: i64, t_sd: i64, h_x: i64) -> RawRecord {
    RawRecord {
        id: id.to_string(),
        fields: vec![
            num_field("h_s", h_s),
            num_field("t_z", t_z),
            num_field("t_sd", t_sd),
            num_field("h_x", h_x),
        ],
    }
}

fn factors_rec(id: &str, f_1: i64, f_2: i64) -> RawRecord {
    RawRecord {
        id: id.to_string(),
        fields: vec![num_field("f_1", f_1), num_field("f_2", f_2)],
    }
}

fn sample_dataset() -> RawDataset {
    RawDataset {
        wavedata: vec![
            wave_rec("CSA", 4_000_000, 8_000_000, 1_000_000, 7_000_000),
            wave_rec("NSR", 2_500_000, 6_500_000, 500_000, 4_750_000),
        ],
        factors: vec![
            factors_rec("CSA", 850_000, 50_000),
            factors_rec("NSR", 800_000, 100_000),
        ],
    }
}

#[test]
fn load_then_get_round_trip() {
    let cat = ServiceAreaCatalog::load(&sample_dataset()).unwrap();
    let csa = cat.get(&"CSA".to_string()).unwrap();
    assert_eq!(csa.wave_data.h_s.micros, 4_000_000);
    assert_eq!(csa.wave_data.t_z.micros, 8_000_000);
    assert_eq!(csa.wave_data.t_sd.micros, 1_000_000);
    assert_eq!(csa.wave_data.h_x.micros, 7_000_000);
    assert_eq!(csa.service_factors.f_1.micros, 850_000);
    assert_eq!(csa.service_factors.f_2.micros, 50_000);
    let nsr = cat.get(&"NSR".to_string()).unwrap();
    assert_eq!(nsr.wave_data.h_s.micros, 2_500_000);
    assert_eq!(nsr.wave_data.t_z.micros, 6_500_000);
    assert_eq!(nsr.wave_data.t_sd.micros, 500_000);
    assert_eq!(nsr.wave_data.h_x.micros, 4_750_000);
    assert_eq!(nsr.service_factors.f_1.micros, 800_000);
    assert_eq!(nsr.service_factors.f_2.micros, 100_000);
}

#[test]
fn get_unknown_id_fails() {
    let cat = ServiceAreaCatalog::load(&sample_dataset()).unwrap();
    let r = cat.get(&"NOPE".to_string());
    match r {
        Err(CriteriaError::UnknownServiceAreaError { id }) => assert_eq!(id, "NOPE"),
        other => panic!("expected an unknown-service-area error, got {:?}", other),
    }
}

#[test]
fn load_rejects_missing_field() {
    let mut raw = sample_dataset();
    raw.wavedata[0].fields.remove(1);
    assert!(matches!(
        ServiceAreaCatalog::load(&raw),
        Err(CriteriaError::SchemaError { .. })
    ));
}

#[test]
fn load_rejects_wrong_type() {
    let mut raw = sample_dataset();
    raw.factors[0].fields[0].value = RawValue::WrongType;
    assert!(matches!(
        ServiceAreaCatalog::load(&raw),
        Err(CriteriaError::SchemaError { .. })
    ));
}

#[test]
fn load_rejects_non_finite_value() {
    let mut raw = sample_dataset();
    raw.wavedata[1].fields[3].value = RawValue::NonFinite;
    assert!(matches!(
        ServiceAreaCatalog::load(&raw),
        Err(CriteriaError::SchemaError { .. })
    ));
}

#[test]
fn load_rejects_nonpositive_wave_height() {
    let mut raw = sample_dataset();
    raw.wavedata[0].fields[0].value = RawValue::Number(Decimal { micros: 0 });
    assert!(matches!(
        ServiceAreaCatalog::load(&raw),
        Err(CriteriaError::SchemaError { .. })
    ));
}

#[test]
fn load_rejects_key_only_in_wavedata() {
    let mut raw = sample_dataset();
    raw.factors.pop();
    assert!(matches!(
        ServiceAreaCatalog::load(&raw),
        Err(CriteriaError::SchemaError { .. })
    ));
}

#[test]
fn load_rejects_key_only_in_factors() {
    let mut raw = sample_dataset();
    raw.wavedata.pop();
    assert!(matches!(
        ServiceAreaCatalog::load(&raw),
        Err(CriteriaError::SchemaError { .. })
    ));
}

#[test]
fn load_rejects_duplicate_id() {
    let mut raw = sample_dataset();
    raw.wavedata.push(wave_rec("CSA", 1_000_000, 1_000_000, 0, 1_000_000));
    assert!(matches!(
        ServiceAreaCatalog::load(&raw),
        Err(CriteriaError::SchemaError { .. })
    ));
}

#[test]
fn load_accepts_extra_fields() {
    let mut raw = sample_dataset();
    raw.wavedata[0].fields.push(num_field("note", 1));
    assert!(ServiceAreaCatalog::load(&raw).is_ok());
}

#[test]
fn wave_statistics_methods_match_formulas() {
    let cat = ServiceAreaCatalog::load(&sample_dataset()).unwrap();
    let w = cat.get(&"CSA".to_string()).unwrap().wave_data;
    assert_eq!(w.h_dw().pico, 6_680_000_000_000);
    assert_eq!(w.t_dw().pico, 8_000_000_000_000);
    assert_eq!(w.t_dsd().pico, 1_000_000_000_000);
    assert_eq!(w.t_drange().lower.pico, 6_000_000_000_000);
    assert_eq!(w.t_drange().upper.pico, 10_000_000_000_000);
    assert_eq!(w.h_xw().pico, 7_000_000_000_000);
    assert_eq!(w.t_xw().pico, 9_000_000_000_000);
    assert_eq!(w.t_xrange().lower.pico, 7_500_000_000_000);
    assert_eq!(w.t_xrange().upper.pico, 10_500_000_000_000);
}

use wave_criteria::errors::CriteriaError;
use wave_criteria::notation::normalize_notation;
use wave_criteria::numeric::{Decimal, DesignValue};
use wave_criteria::type_of;

#[test]
fn strips_one_quote_layer() {
    assert_eq!(normalize_notation("\"CSA\"").unwrap(), "CSA");
}

#[test]
fn leaves_bare_identifier_unchanged() {
    assert_eq!(normalize_notation("CSA").unwrap(), "CSA");
}

#[test]
fn second_pass_changes_nothing() {
    let once = normalize_notation("\"CSA\"").unwrap();
    let twice = normalize_notation(&once).unwrap();
    assert_eq!(once, twice);
}

#[test]
fn strips_only_matching_quotes() {
    assert_eq!(normalize_notation("\"CSA").unwrap(), "\"CSA");
    assert_eq!(normalize_notation("CSA\"").unwrap(), "CSA\"");
}

#[test]
fn two_character_quoted_string_normalizes_to_empty() {
    assert_eq!(normalize_notation("\"\"").unwrap(), "");
}

#[test]
fn too_short_input_fails_loudly() {
    assert!(matches!(
        normalize_notation("A"),
        Err(CriteriaError::InvalidInputError)
    ));
    assert!(matches!(
        normalize_notation(""),
        Err(CriteriaError::InvalidInputError)
    ));
}

#[test]
fn type_labels_name_the_types() {
    assert_eq!(type_of(Decimal { micros: 1 }), "Decimal");
    assert_eq!(type_of(DesignValue { pico: 1 }), "DesignValue");
}

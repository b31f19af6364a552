use exclave::events::FieldType;
use exclave::unit::{UnitKind, UnitName, UnitNameError};

#[test]
fn name_parses_kind_ignoring_case() {
    let n = UnitName::from_str("generic", "JiG").unwrap();
    assert_eq!(n.kind(), UnitKind::Jig);
    assert_eq!(n.id().as_str(), "generic");
    assert_eq!(n.to_string(), "generic.jig");
}

#[test]
fn name_rejects_unknown_kind() {
    assert_eq!(UnitName::from_str("x", "widget").unwrap_err(), UnitNameError::InvalidKind);
}

#[test]
fn name_rejects_empty_or_spaced_id() {
    assert_eq!(UnitName::from_str("", "test").unwrap_err(), UnitNameError::InvalidId);
    assert_eq!(UnitName::from_str("a b", "test").unwrap_err(), UnitNameError::InvalidId);
}

#[test]
fn names_equal_only_when_id_and_kind_match() {
    let a = UnitName::from_str("one", "test").unwrap();
    let b = UnitName::from_str("one", "TEST").unwrap();
    let c = UnitName::from_str("one", "scenario").unwrap();
    assert!(a == b);
    assert!(a != c);
    assert_eq!(c.to_string(), "one.scenario");
}

#[test]
fn every_kind_word_round_trips() {
    for k in [
        UnitKind::Jig,
        UnitKind::Scenario,
        UnitKind::Test,
        UnitKind::Interface,
        UnitKind::Trigger,
        UnitKind::Logger,
        UnitKind::Internal,
    ] {
        assert_eq!(UnitKind::from_text(k.as_str()), Some(k));
    }
}

#[test]
fn field_types_have_lowercase_words() {
    assert_eq!(FieldType::Name.to_string(), "name");
    assert_eq!(FieldType::Description.to_string(), "description");
}

#[test]
fn name_rejects_unicode_whitespace() {
    assert_eq!(UnitName::from_str("a\u{a0}b", "test").unwrap_err(), UnitNameError::InvalidId);
    assert_eq!(UnitName::from_str("a\u{3000}b", "test").unwrap_err(), UnitNameError::InvalidId);
    assert!(UnitName::from_str("a-b_c", "test").is_ok());
}

use yucon::config::{get_unit_type, parse_line, ConfigPropertyError, UnitProperty};
use yucon::token::{Expectation, SyntaxError};
use yucon::units::UnitType;

fn prop(line: &str) -> UnitProperty {
    parse_line(line).unwrap().unwrap()
}

fn err(line: &str) -> ConfigPropertyError {
    parse_line(line).unwrap_err()
}

#[test]
fn common_name_line() {
    match prop("[ Cubic Meter ]") {
        UnitProperty::CommonName(n) => assert_eq!(n, "Cubic Meter"),
        other => panic!("{:?}", other),
    }
}

#[test]
fn numeric_lines_keep_their_literal() {
    match prop("conv_factor = 0.0254") {
        UnitProperty::ConvFactor(v) => assert_eq!(v, "0.0254"),
        other => panic!("{:?}", other),
    }
    match prop("zero_point=273.15") {
        UnitProperty::ZeroPoint(v) => assert_eq!(v, "273.15"),
        other => panic!("{:?}", other),
    }
    match prop("dimensions = 2") {
        UnitProperty::Dimensions(v) => assert_eq!(v, "2"),
        other => panic!("{:?}", other),
    }
    match prop("inverse = 1") {
        UnitProperty::Inverse(v) => assert_eq!(v, "1"),
        other => panic!("{:?}", other),
    }
}

#[test]
fn list_lines() {
    match prop("aliases = m, meter,metre") {
        UnitProperty::Aliases(v) => assert_eq!(v, vec!["m", "meter", "metre"]),
        other => panic!("{:?}", other),
    }
    match prop("tags = us, imperial") {
        UnitProperty::Tags(v) => assert_eq!(v, vec!["us", "imperial"]),
        other => panic!("{:?}", other),
    }
}

#[test]
fn type_line() {
    match prop("type = fuel economy") {
        UnitProperty::UnitType(t) => assert_eq!(t, UnitType::FuelEconomy),
        other => panic!("{:?}", other),
    }
    assert_eq!(get_unit_type("length".to_string()).unwrap(), UnitType::Length);
    assert!(matches!(get_unit_type("smell".to_string()), Err(ConfigPropertyError::NoSuchType(s)) if s == "smell"));
}

#[test]
fn blank_and_comment_lines_state_nothing() {
    assert!(parse_line("").unwrap().is_none());
    assert!(parse_line("   \t").unwrap().is_none());
    assert!(parse_line("# just a comment").unwrap().is_none());
    assert!(parse_line("\n").unwrap().is_none());
}

#[test]
fn config_line_errors() {
    assert!(matches!(err("type = smell"), ConfigPropertyError::NoSuchType(s) if s == "smell"));
    assert!(matches!(err("color = red"), ConfigPropertyError::NoSuchProperty(s) if s == "color"));
    assert!(matches!(err("conv_factor = abc"), ConfigPropertyError::InvalidField(s) if s == "abc"));
    assert!(matches!(err("conv_factor ="), ConfigPropertyError::EmptyField(s) if s == "conv_factor"));
    assert!(matches!(err("aliases = , "), ConfigPropertyError::EmptyField(s) if s == "aliases"));
    assert!(matches!(err("[ ]"), ConfigPropertyError::EmptyField(s) if s == "common name"));
    assert!(matches!(err("oops"), ConfigPropertyError::Syntax(SyntaxError::Expected(3, Expectation::EqualsSign))));
}

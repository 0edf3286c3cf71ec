use yucon::expr::{parse_number_expr, parse_unit_expr, prefix_as_power, to_conv_primitive, ExprParseError, NO_PREFIX};
use yucon::token::{Expectation, SyntaxError, TokenType};

fn s(x: &str) -> String {
    x.to_string()
}

fn args(words: &[&str]) -> Vec<TokenType> {
    words.iter().map(|w| TokenType::Normal(w.to_string())).collect()
}

#[test]
fn number_expressions() {
    let v = parse_number_expr(&s("5")).unwrap();
    assert_eq!(v.value, "5");
    assert!(!v.recall);
    assert!(parse_number_expr(&s(";")).unwrap().recall);
    for good in ["1e5", "-.5", "+3.", "inf", "-Infinity", "NaN", "2.5E-3"] {
        assert_eq!(parse_number_expr(&s(good)).unwrap().value, good);
    }
    for bad in [".", "e5", "1e", "1e+", "--1", "1.2.3", "0x10", " 1"] {
        assert!(parse_number_expr(&s(bad)).is_err(), "{}", bad);
    }
}

#[test]
fn number_expression_errors() {
    assert!(matches!(
        parse_number_expr(&s("abc")),
        Err(ExprParseError::Syntax(SyntaxError::Expected(2, Expectation::FloatLiteral)))
    ));
    assert!(matches!(
        parse_number_expr(&s("5;")),
        Err(ExprParseError::Syntax(SyntaxError::Expected(1, Expectation::NothingAfterValue)))
    ));
    assert!(matches!(
        parse_number_expr(&s("")),
        Err(ExprParseError::Syntax(SyntaxError::Expected(0, Expectation::FloatOrRecall)))
    ));
}

#[test]
fn unit_expressions() {
    let u = parse_unit_expr(&s("m")).unwrap();
    assert_eq!((u.prefix, u.alias.as_deref(), u.recall, u.tag.as_deref()), (NO_PREFIX, Some("m"), false, None));
    let u = parse_unit_expr(&s("_km")).unwrap();
    assert_eq!((u.prefix, u.alias.as_deref(), u.recall), ('k', Some("m"), false));
    let u = parse_unit_expr(&s("_k:")).unwrap();
    assert_eq!((u.prefix, u.alias.as_deref(), u.recall), ('k', None, true));
    let u = parse_unit_expr(&s(":")).unwrap();
    assert_eq!((u.prefix, u.alias.as_deref(), u.recall), (NO_PREFIX, None, true));
    let u = parse_unit_expr(&s("oz@mass")).unwrap();
    assert_eq!((u.alias.as_deref(), u.tag.as_deref()), (Some("oz"), Some("mass")));
    let u = parse_unit_expr(&s("_Mft@us")).unwrap();
    assert_eq!((u.prefix, u.alias.as_deref(), u.tag.as_deref()), ('M', Some("ft"), Some("us")));
    let u = parse_unit_expr(&s("a\\_b")).unwrap();
    assert_eq!(u.alias.as_deref(), Some("a_b"));
}

#[test]
fn unit_expression_errors() {
    assert!(matches!(parse_unit_expr(&s("_xm")), Err(ExprParseError::BadPrefix('x'))));
    assert!(matches!(
        parse_unit_expr(&s("_k")),
        Err(ExprParseError::Syntax(SyntaxError::Expected(1, Expectation::PrefixWithUnit)))
    ));
    assert!(matches!(
        parse_unit_expr(&s("")),
        Err(ExprParseError::Syntax(SyntaxError::Expected(0, Expectation::PrefixWithUnit)))
    ));
}

#[test]
fn prefix_powers() {
    assert_eq!(prefix_as_power('Y'), Some(24));
    assert_eq!(prefix_as_power('k'), Some(3));
    assert_eq!(prefix_as_power(NO_PREFIX), Some(0));
    assert_eq!(prefix_as_power('m'), Some(-3));
    assert_eq!(prefix_as_power('y'), Some(-24));
    assert_eq!(prefix_as_power('x'), None);
}

#[test]
fn batch_request() {
    let p = to_conv_primitive(&args(&["5", "6", "m", "mm", "_kft"])).unwrap();
    let vals: Vec<&str> = p.input_vals.iter().map(|v| v.value.as_str()).collect();
    assert_eq!(vals, vec!["5", "6"]);
    assert_eq!(p.input_unit.alias.as_deref(), Some("m"));
    assert_eq!(p.output_units.len(), 2);
    assert_eq!(p.output_units[1].prefix, 'k');
    assert_eq!(p.output_units[1].alias.as_deref(), Some("ft"));
}

#[test]
fn batch_request_errors() {
    let e = to_conv_primitive(&args(&["x", "m", "mm"])).unwrap_err();
    assert_eq!(e.failed_at, 0);
    let e = to_conv_primitive(&args(&["5", "m", "_qm"])).unwrap_err();
    assert_eq!(e.failed_at, 2);
    assert!(matches!(e.err, ExprParseError::BadPrefix('q')));
}

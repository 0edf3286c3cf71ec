use yucon::config::UnitPropertyCheck;
use yucon::expr::{NumberCheck, UnitCheck};
use yucon::interpret::LineCheck;
use yucon::token::{tokenize, Expectation, SyntaxError, TokenType};

fn texts(tokens: &[TokenType]) -> Vec<(bool, String)> {
    tokens
        .iter()
        .map(|t| match t {
            TokenType::Delim(s) => (true, s.clone()),
            TokenType::Normal(s) => (false, s.clone()),
        })
        .collect()
}

fn n(s: &str) -> (bool, String) {
    (false, s.to_string())
}

fn d(s: &str) -> (bool, String) {
    (true, s.to_string())
}

#[test]
fn plain_line_is_one_normal_token() {
    let mut c = LineCheck::new();
    let t = tokenize("abc", &mut c).unwrap();
    assert_eq!(texts(&t), vec![n("abc")]);
}

#[test]
fn plain_config_value_is_one_normal_token() {
    let mut c = NumberCheck::new();
    let t = tokenize("2.5e3", &mut c).unwrap();
    assert_eq!(texts(&t), vec![n("2.5e3")]);
}

#[test]
fn empty_line_is_one_empty_token() {
    let mut c = UnitPropertyCheck::new();
    let t = tokenize("", &mut c).unwrap();
    assert_eq!(texts(&t), vec![n("")]);
}

#[test]
fn comment_only_line_is_one_empty_token() {
    let mut c = UnitPropertyCheck::new();
    let t = tokenize("# a comment, with = signs [and] brackets", &mut c).unwrap();
    assert_eq!(texts(&t), vec![n("")]);
    let mut l = LineCheck::new();
    let t = tokenize("#exit", &mut l).unwrap();
    assert_eq!(texts(&t), vec![n("")]);
}

#[test]
fn comment_after_value_is_dropped() {
    let mut c = UnitPropertyCheck::new();
    let t = tokenize("type = length # the base", &mut c).unwrap();
    assert_eq!(texts(&t), vec![n("type "), d("="), n(" length ")]);
}

#[test]
fn escaped_hash_is_literal() {
    let mut l = LineCheck::new();
    let t = tokenize("\\#foo", &mut l).unwrap();
    assert_eq!(texts(&t), vec![n("#foo")]);
}

#[test]
fn escaped_comma_is_literal() {
    let mut c = UnitPropertyCheck::new();
    let t = tokenize("aliases = a\\,b", &mut c).unwrap();
    assert_eq!(texts(&t), vec![n("aliases "), d("="), n(" a,b")]);
    let mut c = UnitPropertyCheck::new();
    let t = tokenize("aliases = a,b", &mut c).unwrap();
    assert_eq!(texts(&t), vec![n("aliases "), d("="), n(" a"), d(","), n("b")]);
}

#[test]
fn delimiters_split_and_trail() {
    let mut l = LineCheck::new();
    let t = tokenize("5 m mm ", &mut l).unwrap();
    assert_eq!(texts(&t), vec![n("5"), d(" "), n("m"), d(" "), n("mm"), d(" "), n("")]);
    assert_eq!(l.argc, 3);
}

#[test]
fn preserved_delimiters_keep_their_escape() {
    let mut l = LineCheck::new();
    let t = tokenize("a\\:b c\\ d", &mut l).unwrap();
    assert_eq!(texts(&t), vec![n("a\\:b"), d(" "), n("c d")]);
}

#[test]
fn bad_escape_is_reported() {
    let mut l = LineCheck::new();
    assert_eq!(tokenize("a\\b", &mut l).unwrap_err(), SyntaxError::BadEscSeq(2, 'b'));
    let mut l = LineCheck::new();
    assert_eq!(tokenize("ab\\", &mut l).unwrap_err(), SyntaxError::BadEscSeq(2, '\0'));
}

#[test]
fn config_grammar_errors() {
    let mut c = UnitPropertyCheck::new();
    assert_eq!(tokenize("abc", &mut c).unwrap_err(), SyntaxError::Expected(2, Expectation::EqualsSign));
    let mut c = UnitPropertyCheck::new();
    assert_eq!(tokenize("[abc", &mut c).unwrap_err(), SyntaxError::Expected(3, Expectation::CloseBrace));
    let mut c = UnitPropertyCheck::new();
    assert_eq!(tokenize("[a] x", &mut c).unwrap_err(), SyntaxError::Expected(4, Expectation::WhitespaceOrComment));
    let mut c = UnitPropertyCheck::new();
    assert_eq!(tokenize("type = a, b", &mut c).unwrap_err(), SyntaxError::Expected(8, Expectation::WhitespaceOrComment));
    let mut c = UnitPropertyCheck::new();
    assert_eq!(tokenize("x ] y", &mut c).unwrap_err(), SyntaxError::Expected(2, Expectation::EqualsSign));
}

#[test]
fn unit_grammar_errors() {
    let mut u = UnitCheck::new();
    assert_eq!(tokenize("_k", &mut u).unwrap_err(), SyntaxError::Expected(1, Expectation::PrefixWithUnit));
    let mut u = UnitCheck::new();
    assert_eq!(tokenize("m@", &mut u).unwrap_err(), SyntaxError::Expected(1, Expectation::NonEmptyTag));
    let mut u = UnitCheck::new();
    assert_eq!(tokenize("m@a@b", &mut u).unwrap_err(), SyntaxError::Expected(3, Expectation::NothingAfterTag));
}

#[test]
fn token_accessors() {
    let t = TokenType::Normal("abc".to_string());
    assert_eq!(t.peek(), "abc");
    assert!(!t.is_empty());
    assert_eq!(t.unwrap(), "abc");
    let d = TokenType::Delim(String::new());
    assert!(d.is_empty());
    assert_eq!(Expectation::CloseBrace.describe(), "']'");
}

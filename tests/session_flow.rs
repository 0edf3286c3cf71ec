use yucon::convert::{convert, convert_all, ConversionError, ConversionFmt};
use yucon::expr::{to_conv_primitive, NO_PREFIX};
use yucon::interpret::{InterpretErr, Interpreter};
use yucon::options::Options;
use yucon::session::RecallField;
use yucon::token::TokenType;
use yucon::units::{Unit, UnitDatabase, UnitType};

fn s(x: &str) -> String {
    x.to_string()
}

fn unit(name: &str, aliases: &[&str], t: UnitType, factor: &str) -> Unit {
    let mut u = Unit::new();
    u.name = name.to_string();
    u.aliases = aliases.iter().map(|a| a.to_string()).collect();
    u.unit_type = t;
    u.conv_factor = factor.to_string();
    u
}

fn sample_db() -> UnitDatabase {
    let mut db = UnitDatabase::new(None);
    db.add(unit("meter", &["m"], UnitType::Length, "1")).unwrap();
    db.add(unit("millimeter", &["mm"], UnitType::Length, "0.001")).unwrap();
    db.add(unit("centimeter", &["cm"], UnitType::Length, "0.01")).unwrap();
    db.add(unit("inch", &["in"], UnitType::Length, "0.0254")).unwrap();
    db.add(unit("liter", &["L"], UnitType::Volume, "0.001")).unwrap();
    db
}

fn words(tokens: &[TokenType]) -> Vec<String> {
    tokens.iter().map(|t| t.peek().clone()).collect()
}

#[test]
fn conversion_between_known_units_is_ready() {
    let db = sample_db();
    let c = convert(s("1.0"), true, NO_PREFIX, s("in"), None, NO_PREFIX, s("mm"), None, &db);
    assert_eq!(c.result, Ok(()));
    assert_eq!((c.from, c.to), (Some(3), Some(1)));
    assert_eq!(db.units[3].conv_factor, "0.0254");
    assert_eq!(c.format, ConversionFmt::Desc);
}

#[test]
fn conversion_between_categories_is_a_type_mismatch() {
    let db = sample_db();
    let c = convert(s("1.0"), true, NO_PREFIX, s("m"), None, NO_PREFIX, s("L"), None, &db);
    assert_eq!(c.result, Err(ConversionError::TypeMismatch));
}

#[test]
fn conversion_failures() {
    let db = sample_db();
    let c = convert(s("1"), true, NO_PREFIX, s("x"), None, NO_PREFIX, s("y"), None, &db);
    assert_eq!(c.result, Err(ConversionError::UnitNotFound(true)));
    let c = convert(s("1"), true, NO_PREFIX, s("x"), None, NO_PREFIX, s("m"), None, &db);
    assert_eq!(c.result, Err(ConversionError::UnitNotFound(false)));
    assert_eq!(c.to, Some(0));
    let c = convert(s("inf"), false, NO_PREFIX, s("m"), None, NO_PREFIX, s("mm"), None, &db);
    assert_eq!(c.result, Err(ConversionError::OutOfRange(false)));
    assert_eq!((c.from, c.to), (None, None));
    let c = convert(s("1"), true, NO_PREFIX, s("m"), Some(s("us")), NO_PREFIX, s("mm"), None, &db);
    assert_eq!(c.result, Err(ConversionError::UnitNotFound(false)));
}

#[test]
fn batch_conversions_in_order() {
    let db = sample_db();
    let args: Vec<TokenType> = ["1", "2", "m", "mm", "cm"].iter().map(|w| TokenType::Normal(s(w))).collect();
    let p = to_conv_primitive(&args).unwrap();
    let all = convert_all(&p, &vec![true, true], &db);
    let got: Vec<(String, String)> = all.iter().map(|c| (c.input.clone(), c.to_alias.clone())).collect();
    assert_eq!(got, vec![(s("1"), s("mm")), (s("1"), s("cm")), (s("2"), s("mm")), (s("2"), s("cm"))]);
}

#[test]
fn recall_after_a_successful_conversion() {
    let db = sample_db();
    let mut interp = Interpreter::new();
    let first = interp.interpret("5 m mm\n").unwrap();
    assert_eq!(words(&first), vec!["5", "m", "mm"]);
    let mut p = to_conv_primitive(&first).unwrap();
    assert!(interp.perform_recall(&mut p).is_ok());
    let done = convert_all(&p, &vec![true], &db);
    assert_eq!(done[0].result, Ok(()));
    interp.update_recall(&done);
    let second = interp.interpret("; m cm").unwrap();
    let mut p = to_conv_primitive(&second).unwrap();
    assert!(p.input_vals[0].recall);
    assert!(interp.perform_recall(&mut p).is_ok());
    assert_eq!(p.input_vals[0].value, "5");
    let again = convert_all(&p, &vec![true], &db);
    assert_eq!(again[0].input, "5");
    assert_eq!(again[0].result, Ok(()));
}

#[test]
fn recall_before_any_conversion_fails() {
    let mut interp = Interpreter::new();
    let t = interp.interpret("; ; cm").unwrap();
    let mut p = to_conv_primitive(&t).unwrap();
    let e = interp.perform_recall(&mut p).unwrap_err();
    assert_eq!(RecallField::InputValue.describe(), "input value");
    match e {
        InterpretErr::RecallErr(a, b) => assert_eq!((a.as_str(), b.as_str()), ("input value", "not set")),
        other => panic!("{:?}", other),
    }
}

#[test]
fn recall_of_units() {
    let mut interp = Interpreter::new();
    let args: Vec<TokenType> = ["3", ":", "_k:"].iter().map(|w| TokenType::Normal(s(w))).collect();
    let mut p = to_conv_primitive(&args).unwrap();
    assert!(matches!(interp.perform_recall(&mut p), Err(InterpretErr::RecallErr(f, _)) if f == "input unit"));
    interp.session.input_unit = Some(s("m"));
    let mut p = to_conv_primitive(&args).unwrap();
    assert!(matches!(interp.perform_recall(&mut p), Err(InterpretErr::RecallErr(f, _)) if f == "output unit"));
    assert_eq!(p.input_unit.alias.as_deref(), Some("m"));
    interp.session.output_unit = Some(s("ft"));
    let mut p = to_conv_primitive(&args).unwrap();
    assert!(interp.perform_recall(&mut p).is_ok());
    assert_eq!(p.output_units[0].alias.as_deref(), Some("ft"));
    assert_eq!(p.output_units[0].prefix, 'k');
}

#[test]
fn failed_conversions_remember_what_they_can() {
    let db = sample_db();
    let mut interp = Interpreter::new();
    let c = vec![convert(s("2"), true, NO_PREFIX, s("m"), None, NO_PREFIX, s("zz"), None, &db)];
    interp.update_recall(&c);
    assert_eq!(interp.session.input_value.as_deref(), Some("2"));
    assert_eq!(interp.session.input_unit.as_deref(), Some("m"));
    assert_eq!(interp.session.output_unit, None);
    let c = vec![convert(s("nan"), false, NO_PREFIX, s("L"), None, NO_PREFIX, s("mm"), None, &db)];
    interp.update_recall(&c);
    assert_eq!(interp.session.input_value.as_deref(), Some("2"));
    assert_eq!(interp.session.input_unit.as_deref(), Some("L"));
    assert_eq!(interp.session.output_unit.as_deref(), Some("mm"));
    let c = vec![convert(s("4"), true, NO_PREFIX, s("m"), None, NO_PREFIX, s("L"), None, &db)];
    interp.update_recall(&c);
    assert_eq!(interp.session.input_value.as_deref(), Some("4"));
    assert_eq!(interp.session.output_unit.as_deref(), Some("L"));
}

#[test]
fn session_commands() {
    let mut interp = Interpreter::new();
    assert!(matches!(interp.interpret("exit"), Err(InterpretErr::ExitSig)));
    assert!(matches!(interp.interpret("help"), Err(InterpretErr::HelpSig)));
    assert!(matches!(interp.interpret("version"), Err(InterpretErr::VersionSig)));
    assert!(matches!(interp.interpret("   "), Err(InterpretErr::BlankLine)));
    assert!(matches!(interp.interpret("# nothing"), Err(InterpretErr::BlankLine)));
    assert!(matches!(interp.interpret("exit now"), Err(InterpretErr::UnrecognizedCmd(w)) if w == "now"));
    assert!(matches!(interp.interpret("format"), Err(InterpretErr::CmdSuccess(m)) if m == "d: descriptive / value and output unit"));
    assert!(matches!(interp.interpret("format l"), Err(InterpretErr::CmdSuccess(m)) if m == "Okay."));
    assert_eq!(interp.format, ConversionFmt::Long);
    assert!(matches!(interp.interpret("format q"), Err(InterpretErr::InvalidState(m)) if m == "q"));
    assert!(matches!(interp.interpret("value"), Err(InterpretErr::CmdSuccess(m)) if m == "[not set]"));
    assert!(matches!(interp.interpret("value 12.5"), Err(InterpretErr::CmdSuccess(m)) if m == "Okay."));
    assert!(matches!(interp.interpret("value"), Err(InterpretErr::CmdSuccess(m)) if m == "12.5"));
    assert!(matches!(interp.interpret("value ;"), Err(InterpretErr::InvalidState(m)) if m == "recall variables must be literals"));
    assert!(matches!(interp.interpret("input_unit _km"), Err(InterpretErr::InvalidState(_))));
    assert!(matches!(interp.interpret("output_unit ft"), Err(InterpretErr::CmdSuccess(_))));
    assert_eq!(interp.session.output_unit.as_deref(), Some("ft"));
    assert!(matches!(interp.interpret("5 m"), Err(InterpretErr::IncompleteErr)));
    assert!(matches!(interp.interpret("a\\b"), Err(InterpretErr::TokenizeErr(_))));
}

#[test]
fn program_options() {
    let (o, extra) = Options::get_opts(&vec![s("-l")]).unwrap();
    assert!(o.interactive);
    assert_eq!(o.format, ConversionFmt::Long);
    assert!(extra.is_empty());
    let (o, extra) = Options::get_opts(&vec![s("-s"), s("5"), s("m"), s("mm")]).unwrap();
    assert!(!o.interactive);
    assert_eq!(o.format, ConversionFmt::Short);
    assert_eq!(extra, vec![s("5"), s("m"), s("mm")]);
    let (_, extra) = Options::get_opts(&vec![s("-5"), s("m"), s("mm")]).unwrap();
    assert_eq!(extra, vec![s("-5"), s("m"), s("mm")]);
    assert!(matches!(Options::get_opts(&vec![s("--help")]), Err(InterpretErr::HelpSig)));
    assert!(matches!(Options::get_opts(&vec![s("--version")]), Err(InterpretErr::VersionSig)));
    assert!(matches!(Options::get_opts(&vec![s("--what")]), Err(InterpretErr::UnknownLongOpt(o)) if o == "--what"));
    assert!(matches!(Options::get_opts(&vec![s("-x")]), Err(InterpretErr::UnknownShortOpt('x'))));
    assert!(matches!(Options::get_opts(&vec![s("5"), s("m")]), Err(InterpretErr::IncompleteErr)));
}

#[test]
fn temperature_conversion_is_ready_with_zero_points() {
    let mut db = UnitDatabase::new(None);
    let mut c = unit("celsius", &["C"], UnitType::Temperature, "1");
    c.zero_point = s("273.15");
    let mut f = unit("fahrenheit", &["F"], UnitType::Temperature, "0.5555555555555556");
    f.zero_point = s("255.3722");
    db.add(c).unwrap();
    db.add(f).unwrap();
    let conv = convert(s("0.0"), true, NO_PREFIX, s("C"), None, NO_PREFIX, s("F"), None, &db);
    assert_eq!(conv.result, Ok(()));
    assert_eq!((conv.from, conv.to), (Some(0), Some(1)));
    assert_eq!(db.units[0].zero_point, "273.15");
    assert_eq!(db.units[1].zero_point, "255.3722");
}

#[test]
fn tagged_units_from_a_units_file() {
    let text = "[ounce]\naliases = oz\ntags = mass\ntype = mass\nconv_factor = 0.028\n[fluid ounce]\naliases = oz\ntags = fluid\ntype = volume\nconv_factor = 0.0000296";
    let lines: Vec<String> = text.lines().map(|l| l.to_string()).collect();
    let r = yucon::loader::load_units_list(&lines, Some(s("mass")));
    assert!(r.problems.is_empty());
    assert_eq!(r.db.query(&s("oz"), None), Some(0));
    assert_eq!(r.db.query(&s("oz"), Some(&s("fluid"))), Some(1));
    let c = convert(s("1"), true, NO_PREFIX, s("oz"), Some(s("fluid")), NO_PREFIX, s("oz"), None, &r.db);
    assert_eq!(c.result, Err(ConversionError::TypeMismatch));
}

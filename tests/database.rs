use yucon::loader::{load_units_list, Field, LoadProblem};
use yucon::units::{Unit, UnitDatabase, UnitInit, UnitType};

fn unit(name: &str, aliases: &[&str], tags: &[&str], t: UnitType) -> Unit {
    let mut u = Unit::new();
    u.name = name.to_string();
    u.aliases = aliases.iter().map(|s| s.to_string()).collect();
    u.tags = tags.iter().map(|s| s.to_string()).collect();
    u.unit_type = t;
    u
}

fn s(x: &str) -> String {
    x.to_string()
}

#[test]
fn untagged_units_resolve_by_any_name() {
    let mut db = UnitDatabase::new(None);
    assert!(db.add(unit("meter", &["m", "metre"], &[], UnitType::Length)).is_ok());
    assert_eq!(db.query(&s("m"), None), Some(0));
    assert_eq!(db.query(&s("meter"), None), Some(0));
    assert_eq!(db.query(&s("metre"), Some(&s("default"))), Some(0));
    assert_eq!(db.query(&s("ft"), None), None);
}

#[test]
fn collision_leaves_database_unchanged() {
    let mut db = UnitDatabase::new(None);
    assert!(db.add(unit("meter", &["m"], &[], UnitType::Length)).is_ok());
    let c = db.add(unit("mile", &["mi", "m"], &[], UnitType::Length)).unwrap_err();
    assert_eq!(c.namespace, "default");
    assert_eq!(c.alias, "m");
    assert_eq!(db.query(&s("mile"), None), None);
    assert_eq!(db.query(&s("mi"), None), None);
    assert_eq!(db.query(&s("m"), None), Some(0));
    assert_eq!(db.units.len(), 1);
}

#[test]
fn collision_reports_first_namespace_and_name() {
    let mut db = UnitDatabase::new(None);
    assert!(db.add(unit("ounce", &["oz"], &["mass"], UnitType::Mass)).is_ok());
    assert!(db.add(unit("pound", &["lb"], &["us"], UnitType::Mass)).is_ok());
    let c = db.add(unit("lb", &["oz"], &["us", "mass"], UnitType::Mass)).unwrap_err();
    assert_eq!(c.namespace, "us");
    assert_eq!(c.alias, "lb");
    let c = db.add(unit("lb", &["oz"], &["mass", "us"], UnitType::Mass)).unwrap_err();
    assert_eq!(c.namespace, "mass");
    assert_eq!(c.alias, "oz");
}

#[test]
fn tagged_query_finds_only_its_namespace() {
    for preferred in [None, Some(s("fluid")), Some(s("mass"))] {
        let mut db = UnitDatabase::new(preferred);
        assert!(db.add(unit("fluid ounce", &["oz"], &["fluid"], UnitType::Volume)).is_ok());
        assert!(db.add(unit("ounce", &["oz"], &["mass"], UnitType::Mass)).is_ok());
        assert_eq!(db.query(&s("oz"), Some(&s("mass"))), Some(1));
        assert_eq!(db.query(&s("oz"), Some(&s("fluid"))), Some(0));
        assert_eq!(db.query(&s("oz"), Some(&s("us"))), None);
    }
}

#[test]
fn untagged_query_order() {
    let mut db = UnitDatabase::new(None);
    assert!(db.add(unit("ounce", &["oz"], &["mass"], UnitType::Mass)).is_ok());
    assert!(db.add(unit("fluid ounce", &["oz"], &["fluid"], UnitType::Volume)).is_ok());
    assert_eq!(db.query(&s("oz"), None), Some(1));
    let mut db = UnitDatabase::new(Some(s("mass")));
    assert!(db.add(unit("fluid ounce", &["oz"], &["fluid"], UnitType::Volume)).is_ok());
    assert!(db.add(unit("ounce", &["oz"], &["mass"], UnitType::Mass)).is_ok());
    assert_eq!(db.query(&s("oz"), None), Some(1));
    assert!(db.add(unit("ounce troy", &["oz"], &[], UnitType::Mass)).is_ok());
    assert_eq!(db.query(&s("oz"), None), Some(1));
    let mut db = UnitDatabase::new(None);
    assert!(db.add(unit("fluid ounce", &["oz"], &["fluid"], UnitType::Volume)).is_ok());
    assert!(db.add(unit("ounce", &["oz"], &[], UnitType::Mass)).is_ok());
    assert_eq!(db.query(&s("oz"), None), Some(1));
}

#[test]
fn builder_refuses_second_assignment() {
    let mut b = UnitInit::new();
    assert!(!b.is_well_formed());
    assert!(b.set_common_name(s("meter")));
    assert!(b.set_conv_factor(s("1")));
    assert!(!b.set_conv_factor(s("2")));
    assert_eq!(b.unit.conv_factor, "1");
    assert!(b.set_unit_type(UnitType::Length));
    assert!(b.is_well_formed());
    assert!(b.set_aliases(vec![s("m")]));
    assert!(!b.set_aliases(vec![s("x")]));
    assert_eq!(b.unit.aliases, vec![s("m")]);
    assert!(b.unit.has_aliases());
    assert!(!b.unit.has_tags());
}

#[test]
fn loader_builds_units_and_reports_problems() {
    let text = "# units\n[meter]\naliases = m\ntype = length\nconv_factor = 1\nconv_factor = 2\n\n[inch]\naliases = in\ntype = length\nconv_factor = 0.0254\n[broken]\ntype = length\n[mile]\naliases = m\ntype = length\nconv_factor = 1609\nbogus line\n[liter]\naliases = L\ntype = volume\nconv_factor = 0.001";
    let lines: Vec<String> = text.lines().map(|l| l.to_string()).collect();
    let r = load_units_list(&lines, None);
    assert_eq!(r.db.units.len(), 3);
    assert_eq!(r.db.units[0].name, "meter");
    assert_eq!(r.db.units[0].conv_factor, "1");
    assert_eq!(r.db.units[1].conv_factor, "0.0254");
    assert_eq!(r.db.units[2].unit_type, UnitType::Volume);
    assert_eq!(r.db.query(&s("in"), None), Some(1));
    assert_eq!(r.db.query(&s("L"), None), Some(2));
    assert_eq!(r.db.query(&s("mile"), None), None);
    assert_eq!(r.problems.len(), 4);
    assert!(matches!(r.problems[0], LoadProblem::AlreadySet(5, Field::ConvFactor)));
    assert!(matches!(&r.problems[1], LoadProblem::Incomplete(n) if n == "broken"));
    assert!(matches!(&r.problems[2], LoadProblem::BadLine(17, _)));
    assert!(matches!(&r.problems[3], LoadProblem::Collision(n, c) if n == "mile" && c.alias == "m"));
}

#[test]
fn loader_with_no_units_reports_empty_unit() {
    let r = load_units_list(&vec![s("# nothing here")], None);
    assert_eq!(r.db.units.len(), 0);
    assert_eq!(r.problems.len(), 1);
    assert!(matches!(&r.problems[0], LoadProblem::Incomplete(n) if n.is_empty()));
}

//! Assembling the unit table from the lines of a units file.
use vstd::prelude::*;
use crate::config::{ConfigPropertyError, PropertyView, UnitProperty, parse_line, parse_line_spec, strs_of};
use crate::units::{NameCollision, Unit, UnitDatabase, UnitInit};
use crate::expr::opt_view;

verus! {

/// A property of a unit, as named in the problems the loader reports.
#[derive(Debug, Clone, Copy, PartialEq, Eq, Structural)]
pub enum Field {
    Name,
    Aliases,
    UnitType,
    ConvFactor,
    ZeroPoint,
    Dimensions,
    Inverse,
    Tags,
}

/// Something the loader skipped while reading a units file. Lines are numbered from 0.
#[derive(Debug, Clone)]
pub enum LoadProblem {
    /// A line that does not parse.
    BadLine(usize, ConfigPropertyError),
    /// A line that sets a property the unit already has; it is ignored.
    AlreadySet(usize, Field),
    /// A unit without its name, conversion factor or type; it is not added.
    Incomplete(String),
    /// A unit with a name that is taken; it is not added.
    Collision(String, NameCollision),
}

/// The loader's state between two lines.
#[derive(Debug)]
pub struct UnitLoader {
    pub db: UnitDatabase,
    pub current: UnitInit,
    pub first_unit: bool,
    pub problems: Vec<LoadProblem>,
}

/// Whether property `p` can still be set on `b`.
pub open spec fn accepts(b: UnitInit, p: PropertyView) -> bool {
    match p {
        PropertyView::CommonName(_) => b.default_name,
        PropertyView::Aliases(_) => !b.has_aliases,
        PropertyView::UnitType(_) => b.default_type,
        PropertyView::ConvFactor(_) => b.default_conv,
        PropertyView::ZeroPoint(_) => b.default_zpt,
        PropertyView::Dimensions(_) => b.default_dims,
        PropertyView::Inverse(_) => b.default_inv,
        PropertyView::Tags(_) => !b.has_tags,
    }
}

/// The field that `p` sets.
pub open spec fn field_of(p: PropertyView) -> Field {
    match p {
        PropertyView::CommonName(_) => Field::Name,
        PropertyView::Aliases(_) => Field::Aliases,
        PropertyView::UnitType(_) => Field::UnitType,
        PropertyView::ConvFactor(_) => Field::ConvFactor,
        PropertyView::ZeroPoint(_) => Field::ZeroPoint,
        PropertyView::Dimensions(_) => Field::Dimensions,
        PropertyView::Inverse(_) => Field::Inverse,
        PropertyView::Tags(_) => Field::Tags,
    }
}

/// `b2` is `b` with property `p` set.
pub open spec fn set_to(b: UnitInit, b2: UnitInit, p: PropertyView) -> bool {
    match p {
        PropertyView::CommonName(v) => b2.unit.name@ == v && b2 == (UnitInit { unit: Unit { name: b2.unit.name, ..b.unit }, default_name: false, ..b }),
        PropertyView::Aliases(v) => strs_of(b2.unit.aliases@) == v && b2 == (UnitInit { unit: Unit { aliases: b2.unit.aliases, ..b.unit }, has_aliases: true, ..b }),
        PropertyView::UnitType(t) => b2 == (UnitInit { unit: Unit { unit_type: t, ..b.unit }, default_type: false, ..b }),
        PropertyView::ConvFactor(v) => b2.unit.conv_factor@ == v && b2 == (UnitInit { unit: Unit { conv_factor: b2.unit.conv_factor, ..b.unit }, default_conv: false, ..b }),
        PropertyView::ZeroPoint(v) => b2.unit.zero_point@ == v && b2 == (UnitInit { unit: Unit { zero_point: b2.unit.zero_point, ..b.unit }, default_zpt: false, ..b }),
        PropertyView::Dimensions(v) => b2.unit.dimensions@ == v && b2 == (UnitInit { unit: Unit { dimensions: b2.unit.dimensions, ..b.unit }, default_dims: false, ..b }),
        PropertyView::Inverse(v) => b2.unit.inverse@ == v && b2 == (UnitInit { unit: Unit { inverse: b2.unit.inverse, ..b.unit }, default_inv: false, ..b }),
        PropertyView::Tags(v) => strs_of(b2.unit.tags@) == v && b2 == (UnitInit { unit: Unit { tags: b2.unit.tags, ..b.unit }, has_tags: true, ..b }),
    }
}

/// `ps` is `old` with one more problem at the end, of which `last` holds.
pub open spec fn one_more(ps: Seq<LoadProblem>, old: Seq<LoadProblem>) -> bool {
    ps.len() == old.len() + 1 && ps.drop_last() == old
}

impl UnitLoader {
    pub open spec fn wf(&self) -> bool {
        &&& self.db.wf()
        &&& self.first_unit ==> self.current.default_name
    }

    /// `self` is `old` after unit `b` was offered to the database.
    pub open spec fn flushed(&self, old: UnitLoader, b: UnitInit) -> bool {
        let u = b.unit;
        if b.default_name || b.default_conv || b.default_type {
            &&& self.db == old.db
            &&& one_more(self.problems@, old.problems@)
            &&& self.problems@.last() matches LoadProblem::Incomplete(n) && n@ == u.name@
        } else if old.db.fits(u) {
            &&& self.db.added(old.db, u)
            &&& self.problems@ == old.problems@
        } else {
            &&& self.db == old.db
            &&& one_more(self.problems@, old.problems@)
            &&& self.problems@.last() matches LoadProblem::Collision(n, c) && n@ == u.name@
                && old.db.first_collision(u, c.namespace@, c.alias@)
        }
    }

    /// A loader with an empty database and no unit begun.
    pub fn start(preferred: Option<String>) -> (r: UnitLoader)
        ensures
            r.wf(),
            r.is_start(opt_view(preferred)),
    {
        UnitLoader { db: UnitDatabase::new(preferred), current: UnitInit::new(), first_unit: true, problems: Vec::new() }
    }

    /// Offers unit `b` to the database.
    fn flush(&mut self, b: UnitInit)
        requires
            old(self).db.wf(),
            old(self).db.units@.len() < usize::MAX,
        ensures
            final(self).db.wf(),
            final(self).flushed(*old(self), b),
            final(self).current == old(self).current,
            final(self).first_unit == old(self).first_unit,
    {
        if b.is_well_formed() {
            let name = b.unit.name.clone();
            match self.db.add(b.unit) {
                Ok(()) => {},
                Err(c) => {
                    let ghost before = self.problems@;
                    self.problems.push(LoadProblem::Collision(name, c));
                    assert(self.problems@.drop_last() =~= before);
                },
            }
        } else {
            let ghost before = self.problems@;
            self.problems.push(LoadProblem::Incomplete(b.unit.name));
            assert(self.problems@.drop_last() =~= before);
        }
    }
}

/// The unit table read from a units file, with what was skipped.
#[derive(Debug)]
pub struct LoadReport {
    pub db: UnitDatabase,
    pub problems: Vec<LoadProblem>,
}

impl UnitLoader {
    /// What reading one more line does to the loader.
    pub open spec fn fed(&self, old: UnitLoader, line_no: usize, line: Seq<char>) -> bool {
        match parse_line_spec(line) {
            Err(e) => {
                &&& self.db == old.db
                &&& self.current == old.current
                &&& self.first_unit == old.first_unit
                &&& one_more(self.problems@, old.problems@)
                &&& self.problems@.last() matches LoadProblem::BadLine(n, x) && n == line_no && x@ == e
            },
            Ok(None) => *self == old,
            Ok(Some(p)) => match p {
                PropertyView::CommonName(_) => {
                    &&& !self.first_unit
                    &&& if old.first_unit {
                        &&& self.db == old.db
                        &&& self.problems@ == old.problems@
                        &&& set_to(old.current, self.current, p)
                    } else {
                        &&& self.flushed(old, old.current)
                        &&& exists|f: UnitInit| f.spec_fresh() && set_to(f, self.current, p)
                    }
                },
                _ => {
                    &&& self.db == old.db
                    &&& self.first_unit == old.first_unit
                    &&& if accepts(old.current, p) {
                        &&& set_to(old.current, self.current, p)
                        &&& self.problems@ == old.problems@
                    } else {
                        &&& self.current == old.current
                        &&& one_more(self.problems@, old.problems@)
                        &&& self.problems@.last() matches LoadProblem::AlreadySet(n, f) && n == line_no && f == field_of(p)
                    }
                },
            },
        }
    }

    fn refused(&mut self, line_no: usize, f: Field)
        ensures
            final(self).db == old(self).db,
            final(self).current == old(self).current,
            final(self).first_unit == old(self).first_unit,
            one_more(final(self).problems@, old(self).problems@),
            final(self).problems@.last() matches LoadProblem::AlreadySet(n, g) && n == line_no && g == f,
    {
        let ghost before = self.problems@;
        self.problems.push(LoadProblem::AlreadySet(line_no, f));
        assert(self.problems@.drop_last() =~= before);
    }

    /// Reads line number `line_no`: a `[Name]` line closes the unit being
    /// assembled (offering it to the database) and begins the next; other
    /// properties are set on the current unit. Bad lines and repeated
    /// properties are recorded and skipped.
    pub fn feed_line(&mut self, line_no: usize, line: &str)
        requires
            old(self).wf(),
            old(self).db.units@.len() < usize::MAX,
        ensures
            final(self).wf(),
            final(self).db.units@.len() <= old(self).db.units@.len() + 1,
            final(self).fed(*old(self), line_no, line@),
    {
        let parsed = parse_line(line);
        match parsed {
            Err(e) => {
                let ghost before = self.problems@;
                self.problems.push(LoadProblem::BadLine(line_no, e));
                assert(self.problems@.drop_last() =~= before);
            },
            Ok(None) => {},
            Ok(Some(prop)) => {
                let ghost pv = prop@;
                match prop {
                    UnitProperty::CommonName(n) => {
                        if self.first_unit {
                            self.current.set_common_name(n);
                        } else {
                            let mut cur = UnitInit::new();
                            let ghost fresh = cur;
                            core::mem::swap(&mut self.current, &mut cur);
                            self.flush(cur);
                            self.current.set_common_name(n);
                            assert(fresh.spec_fresh() && set_to(fresh, self.current, pv));
                        }
                        self.first_unit = false;
                    },
                    UnitProperty::Aliases(v) => {
                        if !self.current.set_aliases(v) {
                            self.refused(line_no, Field::Aliases);
                        }
                    },
                    UnitProperty::UnitType(t) => {
                        if !self.current.set_unit_type(t) {
                            self.refused(line_no, Field::UnitType);
                        }
                    },
                    UnitProperty::ConvFactor(v) => {
                        if !self.current.set_conv_factor(v) {
                            self.refused(line_no, Field::ConvFactor);
                        }
                    },
                    UnitProperty::ZeroPoint(v) => {
                        if !self.current.set_zero_point(v) {
                            self.refused(line_no, Field::ZeroPoint);
                        }
                    },
                    UnitProperty::Dimensions(v) => {
                        if !self.current.set_dimensions(v) {
                            self.refused(line_no, Field::Dimensions);
                        }
                    },
                    UnitProperty::Inverse(v) => {
                        if !self.current.set_inverse(v) {
                            self.refused(line_no, Field::Inverse);
                        }
                    },
                    UnitProperty::Tags(v) => {
                        if !self.current.set_tags(v) {
                            self.refused(line_no, Field::Tags);
                        }
                    },
                }
            },
        }
    }

    /// Offers the last unit to the database and hands back the result.
    pub fn finish(self) -> (r: LoadReport)
        requires
            self.wf(),
            self.db.units@.len() < usize::MAX,
        ensures
            r.db.wf(),
            (UnitLoader { db: r.db, problems: r.problems, ..self }).flushed(self, self.current),
    {
        let UnitLoader { db, current, first_unit, problems } = self;
        let mut l = UnitLoader { db, current: UnitInit::new(), first_unit, problems };
        l.flush(current);
        LoadReport { db: l.db, problems: l.problems }
    }
}

impl UnitLoader {
    /// A loader with an empty database whose preferred namespace is
    /// `preferred` (the default one when not given), and no unit begun.
    pub open spec fn is_start(&self, preferred: Option<Seq<char>>) -> bool {
        &&& self.first_unit
        &&& self.problems@.len() == 0
        &&& self.current.spec_fresh()
        &&& self.db.units@.len() == 0
        &&& self.db.default_namespace@ == "default"@
        &&& self.db.preferred_namespace@ == (match preferred {
            Some(p) => p,
            None => "default"@,
        })
        &&& forall|t: Seq<char>, a: Seq<char>| self.db.spec_lookup(t, a) is None
    }
}

/// Reads the unit table from the lines of a units file: from the start
/// state, each line in order is read as `feed_line` does, and the last unit
/// is offered to the database at the end.
pub fn load_units_list(lines: &Vec<String>, preferred: Option<String>) -> (r: LoadReport)
    requires
        lines@.len() < usize::MAX,
    ensures
        r.db.wf(),
        exists|states: Seq<UnitLoader>|
            {
                &&& states.len() == lines@.len() + 1
                &&& states[0].is_start(opt_view(preferred))
                &&& forall|k: int|
                    0 <= k < lines@.len() ==> #[trigger] states[k + 1].fed(states[k], k as usize, lines@[k]@)
                &&& (UnitLoader { db: r.db, problems: r.problems, ..states.last() }).flushed(
                    states.last(),
                    states.last().current,
                )
            },
{
    let ghost pv = opt_view(preferred);
    let mut l = UnitLoader::start(preferred);
    let ghost mut states: Seq<UnitLoader> = seq![l];
    let mut i: usize = 0;
    while i < lines.len()
        invariant
            lines@.len() < usize::MAX,
            i <= lines@.len(),
            l.wf(),
            l.db.units@.len() <= i,
            states.len() == i + 1,
            states[i as int] == l,
            states[0].is_start(pv),
            forall|k: int| 0 <= k < i ==> #[trigger] states[k + 1].fed(states[k], k as usize, lines@[k]@),
        decreases lines.len() - i,
    {
        l.feed_line(i, lines[i].as_str());
        proof {
            let old_states = states;
            states = states.push(l);
            assert forall|k: int| 0 <= k < i + 1 implies #[trigger] states[k + 1].fed(states[k], k as usize, lines@[k]@) by {
                if k < i {
                    assert(states[k + 1] == old_states[k + 1] && states[k] == old_states[k]);
                }
            }
        }
        i = i + 1;
    }
    let r = l.finish();
    assert(states.last() == l);
    r
}

} // verus!

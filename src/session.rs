//! What a session remembers between conversions, and how recall markers
//! are filled in from it.
use vstd::prelude::*;
use crate::convert::{Conversion, ConversionError};
use crate::expr::{NumberExpr, NumberView, PrimView, UnitExpr, UnitView, numbers_of, opt_view, units_of, copy_opt};

verus! {

/// The last value, input unit and output unit of the session; the value is
/// kept as its literal.
#[derive(Debug, Clone)]
pub struct Session {
    pub input_value: Option<String>,
    pub input_unit: Option<String>,
    pub output_unit: Option<String>,
}

pub struct SessionView {
    pub value: Option<Seq<char>>,
    pub input_unit: Option<Seq<char>>,
    pub output_unit: Option<Seq<char>>,
}

impl View for Session {
    type V = SessionView;

    open spec fn view(&self) -> SessionView {
        SessionView { value: opt_view(self.input_value), input_unit: opt_view(self.input_unit), output_unit: opt_view(self.output_unit) }
    }
}

/// A recall marker that could not be filled in: the session has not yet seen that field.
#[derive(Debug, Clone, Copy, PartialEq, Eq, Structural)]
pub enum RecallField {
    InputValue,
    InputUnit,
    OutputUnit,
}

impl RecallField {
    pub open spec fn spec_describe(self) -> Seq<char> {
        match self {
            RecallField::InputValue => "input value"@,
            RecallField::InputUnit => "input unit"@,
            RecallField::OutputUnit => "output unit"@,
        }
    }

    /// The field's name in messages.
    pub fn describe(&self) -> (r: String)
        ensures
            r@ == self.spec_describe(),
    {
        let s = match self {
            RecallField::InputValue => "input value",
            RecallField::InputUnit => "input unit",
            RecallField::OutputUnit => "output unit",
        };
        crate::text::owned(s)
    }
}

pub open spec fn any_value_recall(v: Seq<NumberView>) -> bool {
    exists|i: int| 0 <= i < v.len() && #[trigger] v[i].recall
}

pub open spec fn any_unit_recall(v: Seq<UnitView>) -> bool {
    exists|i: int| 0 <= i < v.len() && #[trigger] v[i].recall
}

pub open spec fn fill_values(v: Seq<NumberView>, x: Seq<char>) -> Seq<NumberView> {
    v.map_values(|n: NumberView| if n.recall { NumberView { value: x, recall: true } } else { n })
}

pub open spec fn fill_unit(u: UnitView, a: Seq<char>) -> UnitView {
    if u.recall {
        UnitView { alias: Some(a), ..u }
    } else {
        u
    }
}

pub open spec fn fill_units(v: Seq<UnitView>, a: Seq<char>) -> Seq<UnitView> {
    v.map_values(|u: UnitView| fill_unit(u, a))
}

/// Filling in the recall markers of `p` from session `s`, values first, then
/// the input unit, then the output units. The first field that the session
/// lacks stops the work: what was filled in before stays filled in.
pub open spec fn recall_spec(s: SessionView, p: PrimView) -> (PrimView, Option<RecallField>) {
    if any_value_recall(p.vals) && s.value is None {
        (p, Some(RecallField::InputValue))
    } else {
        let with_vals = PrimView {
            vals: if s.value is Some { fill_values(p.vals, s.value->0) } else { p.vals },
            ..p
        };
        if p.input.recall && s.input_unit is None {
            (with_vals, Some(RecallField::InputUnit))
        } else {
            let with_input = PrimView {
                input: if s.input_unit is Some { fill_unit(p.input, s.input_unit->0) } else { p.input },
                ..with_vals
            };
            if any_unit_recall(p.outs) && s.output_unit is None {
                (with_input, Some(RecallField::OutputUnit))
            } else {
                (
                    PrimView {
                        outs: if s.output_unit is Some { fill_units(p.outs, s.output_unit->0) } else { p.outs },
                        ..with_input
                    },
                    None,
                )
            }
        }
    }
}

/// What the session remembers after conversion `c`: the value and both
/// aliases, except that a unit that was not found is not remembered and an
/// input out of range does not replace the value.
pub open spec fn remember(s: SessionView, c: Conversion) -> SessionView {
    let v = Some(c.input@);
    let fa = Some(c.from_alias@);
    let ta = Some(c.to_alias@);
    match c.result {
        Ok(_) => SessionView { value: v, input_unit: fa, output_unit: ta },
        Err(ConversionError::TypeMismatch) => SessionView { value: v, input_unit: fa, output_unit: ta },
        Err(ConversionError::OutOfRange(output)) => SessionView {
            value: if output { v } else { s.value },
            input_unit: fa,
            output_unit: ta,
        },
        Err(ConversionError::UnitNotFound(_)) => SessionView {
            value: v,
            input_unit: if c.from is Some { fa } else { s.input_unit },
            output_unit: if c.to is Some { ta } else { s.output_unit },
        },
    }
}

/// The session after the conversions `cs`, in order.
pub open spec fn remember_all(s: SessionView, cs: Seq<Conversion>) -> SessionView
    decreases cs.len(),
{
    if cs.len() == 0 {
        s
    } else {
        remember(remember_all(s, cs.drop_last()), cs.last())
    }
}

impl Session {
    pub fn new() -> (r: Session)
        ensures
            r@.value is None && r@.input_unit is None && r@.output_unit is None,
    {
        Session { input_value: None, input_unit: None, output_unit: None }
    }
}

pub(crate) fn has_value_recall(v: &Vec<NumberExpr>) -> (r: bool)
    ensures
        r == any_value_recall(numbers_of(v@)),
{
    let mut i: usize = 0;
    while i < v.len()
        invariant
            i <= v@.len(),
            forall|k: int| 0 <= k < i ==> !(#[trigger] v@[k]).recall,
        decreases v.len() - i,
    {
        if v[i].recall {
            assert(numbers_of(v@)[i as int].recall);
            return true;
        }
        i = i + 1;
    }
    proof {
        assert forall|k: int| 0 <= k < numbers_of(v@).len() implies !(#[trigger] numbers_of(v@)[k]).recall by {
            assert(!v@[k].recall);
        }
    }
    false
}

pub(crate) fn has_unit_recall(v: &Vec<UnitExpr>) -> (r: bool)
    ensures
        r == any_unit_recall(units_of(v@)),
{
    let mut i: usize = 0;
    while i < v.len()
        invariant
            i <= v@.len(),
            forall|k: int| 0 <= k < i ==> !(#[trigger] v@[k]).recall,
        decreases v.len() - i,
    {
        if v[i].recall {
            assert(units_of(v@)[i as int].recall);
            return true;
        }
        i = i + 1;
    }
    proof {
        assert forall|k: int| 0 <= k < units_of(v@).len() implies !(#[trigger] units_of(v@)[k]).recall by {
            assert(!v@[k].recall);
        }
    }
    false
}

pub(crate) fn fill_value_recalls(v: &mut Vec<NumberExpr>, x: &String)
    ensures
        numbers_of(final(v)@) == fill_values(numbers_of(old(v)@), x@),
{
    let ghost target = fill_values(numbers_of(old(v)@), x@);
    let mut i: usize = 0;
    while i < v.len()
        invariant
            i <= v@.len(),
            v@.len() == old(v)@.len(),
            target == fill_values(numbers_of(old(v)@), x@),
            forall|k: int| 0 <= k < i ==> (#[trigger] v@[k])@ == target[k],
            forall|k: int| i <= k < v@.len() ==> #[trigger] v@[k] == old(v)@[k],
        decreases v.len() - i,
    {
        if v[i].recall {
            v[i] = NumberExpr { value: x.clone(), recall: true };
        }
        i = i + 1;
    }
    assert(numbers_of(v@) =~= target);
}

pub(crate) fn fill_unit_recalls(v: &mut Vec<UnitExpr>, a: &String)
    ensures
        units_of(final(v)@) == fill_units(units_of(old(v)@), a@),
{
    let ghost target = fill_units(units_of(old(v)@), a@);
    let mut i: usize = 0;
    while i < v.len()
        invariant
            i <= v@.len(),
            v@.len() == old(v)@.len(),
            target == fill_units(units_of(old(v)@), a@),
            forall|k: int| 0 <= k < i ==> (#[trigger] v@[k])@ == target[k],
            forall|k: int| i <= k < v@.len() ==> #[trigger] v@[k] == old(v)@[k],
        decreases v.len() - i,
    {
        if v[i].recall {
            let pf = v[i].prefix;
            let tg = copy_opt(&v[i].tag);
            v[i] = UnitExpr { prefix: pf, alias: Some(a.clone()), recall: true, tag: tg };
        }
        i = i + 1;
    }
    assert(units_of(v@) =~= target);
}

} // verus!

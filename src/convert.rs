//! Conversion requests: resolving both units and checking that they convert.
//! The arithmetic on the values is done by the caller, in floating point.
use vstd::prelude::*;
use crate::expr::{ConvPrimitive, copy_opt, opt_view};
use crate::units::UnitDatabase;

verus! {

/// Why a conversion failed. The flag tells which side: `false` the input, `true` the output.
#[derive(Debug, Clone, Copy, PartialEq, Eq, Structural)]
pub enum ConversionError {
    OutOfRange(bool),
    UnitNotFound(bool),
    TypeMismatch,
}

pub const INPUT: bool = false;

pub const OUTPUT: bool = true;

/// How a finished conversion is shown: the value; the value and unit; or
/// input and output with their units.
#[derive(Debug, Clone, Copy, PartialEq, Eq, Structural)]
pub enum ConversionFmt {
    Short,
    Desc,
    Long,
}

impl ConversionFmt {
    pub open spec fn spec_describe(self) -> Seq<char> {
        match self {
            ConversionFmt::Short => "s: short / value only"@,
            ConversionFmt::Desc => "d: descriptive / value and output unit"@,
            ConversionFmt::Long => "l: long / input and output values and units"@,
        }
    }

    /// A description of the format, as the `format` command reports it.
    pub fn describe(&self) -> (r: String)
        ensures
            r@ == self.spec_describe(),
    {
        let s = match self {
            ConversionFmt::Short => "s: short / value only",
            ConversionFmt::Desc => "d: descriptive / value and output unit",
            ConversionFmt::Long => "l: long / input and output values and units",
        };
        crate::text::owned(s)
    }
}

/// One conversion of a request. `result` is `Ok` when both units were found
/// and are of one category: the value is then ready to be converted.
#[derive(Debug)]
pub struct Conversion {
    pub from_prefix: char,
    pub to_prefix: char,
    pub from_alias: String,
    pub to_alias: String,
    pub from_tag: Option<String>,
    pub to_tag: Option<String>,
    pub from: Option<usize>,
    pub to: Option<usize>,
    /// The input value's literal.
    pub input: String,
    pub result: Result<(), ConversionError>,
    pub format: ConversionFmt,
}

/// The outcome of resolving a conversion: the input's range is checked
/// first, then both units are looked up (a missing output unit is the one
/// reported when both are missing), then their categories are compared.
pub open spec fn conversion_outcome(
    input_in_range: bool,
    from: Option<usize>,
    to: Option<usize>,
    db: UnitDatabase,
) -> Result<(), ConversionError> {
    if !input_in_range {
        Err(ConversionError::OutOfRange(INPUT))
    } else if to is None {
        Err(ConversionError::UnitNotFound(OUTPUT))
    } else if from is None {
        Err(ConversionError::UnitNotFound(INPUT))
    } else if db.units@[from->0 as int].unit_type != db.units@[to->0 as int].unit_type {
        Err(ConversionError::TypeMismatch)
    } else {
        Ok(())
    }
}

/// `c` is the conversion of the given request against `db`.
pub open spec fn is_conversion(
    c: Conversion,
    input: Seq<char>,
    input_in_range: bool,
    from_prefix: char,
    from_alias: Seq<char>,
    from_tag: Option<Seq<char>>,
    to_prefix: char,
    to_alias: Seq<char>,
    to_tag: Option<Seq<char>>,
    db: UnitDatabase,
) -> bool {
    &&& c.input@ == input
    &&& c.from_prefix == from_prefix
    &&& c.to_prefix == to_prefix
    &&& c.from_alias@ == from_alias
    &&& c.to_alias@ == to_alias
    &&& opt_view(c.from_tag) == from_tag
    &&& opt_view(c.to_tag) == to_tag
    &&& c.format == ConversionFmt::Desc
    &&& c.from == (if input_in_range { db.query_spec(from_alias, from_tag) } else { None })
    &&& c.to == (if input_in_range { db.query_spec(to_alias, to_tag) } else { None })
    &&& c.result == conversion_outcome(input_in_range, c.from, c.to, db)
}

/// Resolves one conversion of `input` (whose literal is `input`) from
/// `from_prefix`/`from` into `to_prefix`/`to`. `input_in_range` tells
/// whether the input value is finite and either zero or normal.
pub fn convert(
    input: String,
    input_in_range: bool,
    from_prefix: char,
    from: String,
    from_tag: Option<String>,
    to_prefix: char,
    to: String,
    to_tag: Option<String>,
    units: &UnitDatabase,
) -> (r: Conversion)
    requires
        units.wf(),
    ensures
        is_conversion(r, input@, input_in_range, from_prefix, from@, opt_view(from_tag), to_prefix, to@, opt_view(to_tag), *units),
        r.from is Some ==> r.from->0 < units.units@.len(),
        r.to is Some ==> r.to->0 < units.units@.len(),
{
    let mut c = Conversion {
        from_prefix,
        to_prefix,
        from_alias: from,
        to_alias: to,
        from_tag,
        to_tag,
        from: None,
        to: None,
        input,
        result: Ok(()),
        format: ConversionFmt::Desc,
    };
    if !input_in_range {
        c.result = Err(ConversionError::OutOfRange(INPUT));
        return c;
    }
    c.from = units.query(&c.from_alias, c.from_tag.as_ref());
    c.to = units.query(&c.to_alias, c.to_tag.as_ref());
    if c.from.is_none() {
        c.result = Err(ConversionError::UnitNotFound(INPUT));
    }
    if c.to.is_none() {
        c.result = Err(ConversionError::UnitNotFound(OUTPUT));
    }
    if c.result.is_err() {
        return c;
    }
    let f = c.from.unwrap();
    let t = c.to.unwrap();
    if units.units[f].unit_type != units.units[t].unit_type {
        c.result = Err(ConversionError::TypeMismatch);
    }
    c
}

pub open spec fn alias_text(o: Option<String>) -> Seq<char> {
    match o {
        Some(s) => s@,
        None => Seq::empty(),
    }
}

/// Entry `i * m + j` of `r` is the conversion of value `i` into output unit `j`.
pub open spec fn batch_entry(r: Seq<Conversion>, p: ConvPrimitive, in_range: Seq<bool>, db: UnitDatabase, i: int, j: int) -> bool {
    let m = p.output_units@.len() as int;
    let u = p.input_unit;
    let o = p.output_units@[j];
    is_conversion(
        r[i * m + j],
        p.input_vals@[i].value@,
        in_range[i],
        u.prefix,
        alias_text(u.alias),
        opt_view(u.tag),
        o.prefix,
        alias_text(o.alias),
        opt_view(o.tag),
        db,
    )
}

fn alias_or_empty(o: &Option<String>) -> (r: String)
    ensures
        r@ == alias_text(*o),
{
    match o {
        Some(s) => s.clone(),
        None => String::new(),
    }
}

/// Resolves every value of the request into every output unit: value by
/// value, and for each value the output units in order. `in_range[i]` tells
/// whether value `i` is finite and either zero or normal. A unit expression
/// without an alias names no unit.
pub fn convert_all(conv_primitive: &ConvPrimitive, in_range: &Vec<bool>, units: &UnitDatabase) -> (r: Vec<Conversion>)
    requires
        units.wf(),
        in_range@.len() == conv_primitive.input_vals@.len(),
    ensures
        r@.len() == conv_primitive.input_vals@.len() * conv_primitive.output_units@.len(),
        forall|i: int, j: int|
            0 <= i < conv_primitive.input_vals@.len() && 0 <= j < conv_primitive.output_units@.len()
                ==> #[trigger] batch_entry(r@, *conv_primitive, in_range@, *units, i, j),
{
    let n = conv_primitive.input_vals.len();
    let m = conv_primitive.output_units.len();
    let u = &conv_primitive.input_unit;
    let mut all: Vec<Conversion> = Vec::new();
    let mut i: usize = 0;
    while i < n
        invariant
            units.wf(),
            n == conv_primitive.input_vals@.len(),
            m == conv_primitive.output_units@.len(),
            in_range@.len() == n,
            u == conv_primitive.input_unit,
            i <= n,
            all@.len() == i * m,
            forall|i2: int, j2: int| 0 <= i2 < i && 0 <= j2 < m ==> #[trigger] batch_entry(all@, *conv_primitive, in_range@, *units, i2, j2),
        decreases n - i,
    {
        let mut j: usize = 0;
        while j < m
            invariant
                units.wf(),
                n == conv_primitive.input_vals@.len(),
                m == conv_primitive.output_units@.len(),
                in_range@.len() == n,
                u == conv_primitive.input_unit,
                i < n,
                j <= m,
                all@.len() == i * m + j,
                forall|i2: int, j2: int|
                    (0 <= i2 < i && 0 <= j2 < m) || (i2 == i && 0 <= j2 < j) ==> #[trigger] batch_entry(all@, *conv_primitive, in_range@, *units, i2, j2),
            decreases m - j,
        {
            let o = &conv_primitive.output_units[j];
            let c = convert(
                conv_primitive.input_vals[i].value.clone(),
                in_range[i],
                u.prefix,
                alias_or_empty(&u.alias),
                copy_opt(&u.tag),
                o.prefix,
                alias_or_empty(&o.alias),
                copy_opt(&o.tag),
                units,
            );
            let ghost before = all@;
            all.push(c);
            proof {
                assert forall|i2: int, j2: int|
                    (0 <= i2 < i && 0 <= j2 < m) || (i2 == i && 0 <= j2 < j + 1) implies #[trigger] batch_entry(all@, *conv_primitive, in_range@, *units, i2, j2) by {
                    if i2 == i && j2 == j {
                        assert(i2 * m + j2 == before.len());
                    } else {
                        assert(batch_entry(before, *conv_primitive, in_range@, *units, i2, j2));
                        if i2 < i {
                            assert(i2 * m + j2 < i * m) by (nonlinear_arith)
                                requires
                                    0 <= i2 < i,
                                    0 <= j2 < m,
                            ;
                        }
                        assert(all@[i2 * m + j2] == before[i2 * m + j2]);
                    }
                }
            }
            j = j + 1;
        }
        assert((i + 1) * m == i * m + m) by (nonlinear_arith);
        i = i + 1;
    }
    all
}

} // verus!

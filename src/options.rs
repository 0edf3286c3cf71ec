//! Program options from the command-line arguments.
use vstd::prelude::*;
use crate::convert::ConversionFmt;
use crate::floatlit::{float_literal, is_float_literal};
use crate::interpret::{InterpretErr, InterpretView};
use crate::text::{chars_of, is_text};

verus! {

/// Whether the program runs interactively, and how it shows conversions.
#[derive(Debug, Clone, Copy, PartialEq, Eq, Structural)]
pub struct Options {
    pub interactive: bool,
    pub format: ConversionFmt,
}

pub open spec fn default_options() -> Options {
    Options { interactive: true, format: ConversionFmt::Desc }
}

pub open spec fn strs_view(v: Seq<String>) -> Seq<Seq<char>> {
    v.map_values(|s: String| s@)
}

/// The format that the short flags of `a` from position `j` on select,
/// starting from `f`, or the first unknown flag.
pub open spec fn flags_spec(a: Seq<char>, j: nat, f: ConversionFmt) -> Result<ConversionFmt, char>
    decreases a.len() - j,
{
    if j >= a.len() {
        Ok(f)
    } else if a[j as int] == 's' {
        flags_spec(a, j + 1, ConversionFmt::Short)
    } else if a[j as int] == 'l' {
        flags_spec(a, j + 1, ConversionFmt::Long)
    } else {
        Err(a[j as int])
    }
}

pub open spec fn is_long_opt(a: Seq<char>) -> bool {
    a.len() >= 2 && a[0] == '-' && a[1] == '-'
}

pub open spec fn is_short_opts(a: Seq<char>) -> bool {
    a.len() >= 1 && a[0] == '-' && !float_literal(a)
}

/// Reading the arguments from `i` on with options `o`: the options and the
/// words of a conversion given on the command line (from the first argument
/// that is not an option on), or the signal or error that ends the run.
pub open spec fn opts_spec(args: Seq<Seq<char>>, i: nat, o: Options) -> Result<(Options, Seq<Seq<char>>), InterpretView>
    decreases args.len() - i,
{
    if i >= args.len() {
        Ok((o, Seq::empty()))
    } else {
        let a = args[i as int];
        if is_long_opt(a) {
            if a == "--help"@ {
                Err(InterpretView::HelpSig)
            } else if a == "--version"@ {
                Err(InterpretView::VersionSig)
            } else {
                Err(InterpretView::UnknownLongOpt(a))
            }
        } else if is_short_opts(a) {
            match flags_spec(a, 1, o.format) {
                Err(c) => Err(InterpretView::UnknownShortOpt(c)),
                Ok(f) => opts_spec(args, i + 1, Options { interactive: o.interactive, format: f }),
            }
        } else if args.len() - i < 3 {
            Err(InterpretView::IncompleteErr)
        } else {
            Ok((Options { interactive: false, format: o.format }, args.subrange(i as int, args.len() as int)))
        }
    }
}

pub open spec fn opts_view(r: Result<(Options, Vec<String>), InterpretErr>) -> Result<(Options, Seq<Seq<char>>), InterpretView> {
    match r {
        Ok((o, v)) => Ok((o, strs_view(v@))),
        Err(e) => Err(e@),
    }
}

fn short_flags(a: &Vec<char>, f: ConversionFmt) -> (r: Result<ConversionFmt, char>)
    requires
        a@.len() >= 1,
    ensures
        r == flags_spec(a@, 1, f),
{
    let mut fmt = f;
    let mut j: usize = 1;
    while j < a.len()
        invariant
            1 <= j <= a@.len(),
            flags_spec(a@, j as nat, fmt) == flags_spec(a@, 1, f),
        decreases a.len() - j,
    {
        if a[j] == 's' {
            fmt = ConversionFmt::Short;
        } else if a[j] == 'l' {
            fmt = ConversionFmt::Long;
        } else {
            return Err(a[j]);
        }
        j = j + 1;
    }
    Ok(fmt)
}

impl Options {
    pub fn new() -> (r: Options)
        ensures
            r == default_options(),
    {
        Options { interactive: true, format: ConversionFmt::Desc }
    }

    /// Reads the program's arguments (without the program's name): `--help`,
    /// `--version`, short flags `-s` (short format) and `-l` (long format),
    /// then optionally a conversion of at least three words, which makes the
    /// run non-interactive.
    pub fn get_opts(args: &Vec<String>) -> (r: Result<(Options, Vec<String>), InterpretErr>)
        ensures
            opts_view(r) == opts_spec(strs_view(args@), 0, default_options()),
    {
        let ghost sv = strs_view(args@);
        let mut opts = Options::new();
        let mut i: usize = 0;
        while i < args.len()
            invariant
                sv == strs_view(args@),
                i <= args@.len(),
                opts_spec(sv, i as nat, opts) == opts_spec(sv, 0, default_options()),
            decreases args.len() - i,
        {
            let a = chars_of(args[i].as_str());
            assert(sv[i as int] == a@);
            if a.len() >= 2 && a[0] == '-' && a[1] == '-' {
                if is_text(&a, "--help") {
                    return Err(InterpretErr::HelpSig);
                } else if is_text(&a, "--version") {
                    return Err(InterpretErr::VersionSig);
                } else {
                    return Err(InterpretErr::UnknownLongOpt(args[i].clone()));
                }
            } else if a.len() >= 1 && a[0] == '-' && !is_float_literal(&a) {
                match short_flags(&a, opts.format) {
                    Err(c) => return Err(InterpretErr::UnknownShortOpt(c)),
                    Ok(f) => {
                        opts = Options { interactive: opts.interactive, format: f };
                    },
                }
            } else {
                if args.len() - i < 3 {
                    return Err(InterpretErr::IncompleteErr);
                }
                let mut extras: Vec<String> = Vec::new();
                let mut k: usize = i;
                while k < args.len()
                    invariant
                        i <= k <= args@.len(),
                        sv == strs_view(args@),
                        strs_view(extras@) == sv.subrange(i as int, k as int),
                    decreases args.len() - k,
                {
                    let ghost before = extras@;
                    let x = args[k].clone();
                    extras.push(x);
                    assert(strs_view(extras@) =~= strs_view(before).push(x@));
                    assert(sv[k as int] == x@);
                    k = k + 1;
                    assert(strs_view(extras@) =~= sv.subrange(i as int, k as int));
                }
                return Ok((Options { interactive: false, format: opts.format }, extras));
            }
            i = i + 1;
        }
        let none: Vec<String> = Vec::new();
        assert(strs_view(none@) =~= Seq::<Seq<char>>::empty());
        Ok((opts, none))
    }
}

} // verus!

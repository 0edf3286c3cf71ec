//! The interactive command line: splitting a line into arguments, the
//! session commands, and what is left to be converted.
use vstd::prelude::*;
use crate::convert::ConversionFmt;
use crate::expr::{ExprErrView, ExprParseError, NO_PREFIX, number_spec, parse_number_expr, parse_unit_expr, unit_spec};
use crate::convert::{Conversion, ConversionError};
use crate::expr::ConvPrimitive;
use crate::session::{RecallField, Session, SessionView, fill_unit_recalls, fill_value_recalls, has_unit_recall, has_value_recall, recall_spec, remember_all};
use crate::text::{is_text, owned};
use crate::token::{SyntaxChecker, SyntaxError, Tok, TokenType, tokenize, tokenize_spec, toks_of};

verus! {

/// The grammar of a command line: arguments separated by spaces, `#` or a
/// line break ending the line. `:`, `;`, `_` and an escaped backslash keep
/// their escape so that the expression grammars still see it.
#[derive(Debug, Clone, Copy, PartialEq, Eq, Structural)]
pub struct LineCheck {
    pub esc: bool,
    pub valid: bool,
    pub argc: usize,
}

pub open spec fn line_start() -> LineCheck {
    LineCheck { esc: false, valid: true, argc: 0 }
}

impl LineCheck {
    pub fn new() -> (r: LineCheck)
        ensures
            r == line_start(),
    {
        LineCheck { esc: false, valid: true, argc: 0 }
    }
}

impl SyntaxChecker for LineCheck {
    open spec fn spec_is_esc(&self, ch: char) -> bool {
        ch == '\\' && !self.esc
    }

    open spec fn spec_is_comment(&self, ch: char) -> bool {
        ch == '#' || ch == '\n' || ch == '\r'
    }

    open spec fn spec_is_delim(&self, ch: char) -> bool {
        ch == ' '
    }

    open spec fn spec_is_preserved_delim(&self, ch: char) -> bool {
        ch == ':' || ch == ';' || ch == '_' || (ch == '\\' && self.esc)
    }

    open spec fn spec_esc_char(&self) -> char {
        '\\'
    }

    open spec fn spec_valid(&self) -> bool {
        self.valid
    }

    open spec fn spec_esc_set(&self) -> bool {
        self.esc
    }

    open spec fn spec_fed(&self, token: Seq<char>, delim: bool) -> Self {
        if !delim && token.len() > 0 && self.argc < usize::MAX {
            LineCheck { argc: (self.argc + 1) as usize, ..*self }
        } else {
            *self
        }
    }

    open spec fn spec_with_esc(&self, set: bool) -> Self {
        LineCheck { esc: set, ..*self }
    }

    open spec fn spec_check(&self, index: nat, more_tokens: bool) -> Result<(), SyntaxError> {
        Ok(())
    }

    open spec fn spec_fresh(&self) -> bool {
        !self.esc
    }

    fn feed_token(&mut self, token: &Vec<char>, delim: bool) -> (r: bool) {
        if !delim && token.len() > 0 && self.argc < usize::MAX {
            self.argc = self.argc + 1;
        }
        self.valid
    }

    fn is_esc(&self, ch: char) -> (r: bool) {
        ch == '\\' && !self.esc
    }

    fn is_comment(&self, ch: char) -> (r: bool) {
        ch == '#' || ch == '\n' || ch == '\r'
    }

    fn is_delim(&self, ch: char) -> (r: bool) {
        ch == ' '
    }

    fn is_preserved_delim(&self, ch: char) -> (r: bool) {
        ch == ':' || ch == ';' || ch == '_' || (ch == '\\' && self.esc)
    }

    fn esc_char(&self) -> (r: char) {
        '\\'
    }

    fn valid(&self) -> (r: bool) {
        self.valid
    }

    fn assert_valid(&self, index: usize, more_tokens: bool) -> (r: Result<(), SyntaxError>) {
        Ok(())
    }

    fn esc_set(&self) -> (r: bool) {
        self.esc
    }

    fn set_esc(&mut self, set: bool) {
        self.esc = set;
    }

    fn reset(&mut self) {
        self.esc = false;
    }
}

/// The outcome of a line that is not a conversion, or why a line failed.
#[derive(Debug, Clone)]
pub enum InterpretErr {
    CmdSuccess(String),
    UnrecognizedCmd(String),
    InvalidState(String),
    BadExpr(ExprParseError),
    TokenizeErr(SyntaxError),
    RecallErr(String, String),
    UnknownLongOpt(String),
    UnknownShortOpt(char),
    IncompleteErr,
    ExitSig,
    BlankLine,
    HelpSig,
    VersionSig,
    ConversionSig,
}

pub enum InterpretView {
    CmdSuccess(Seq<char>),
    UnrecognizedCmd(Seq<char>),
    InvalidState(Seq<char>),
    BadExpr(ExprErrView),
    TokenizeErr(SyntaxError),
    RecallErr(Seq<char>, Seq<char>),
    UnknownLongOpt(Seq<char>),
    UnknownShortOpt(char),
    IncompleteErr,
    ExitSig,
    BlankLine,
    HelpSig,
    VersionSig,
    ConversionSig,
}

impl View for InterpretErr {
    type V = InterpretView;

    open spec fn view(&self) -> InterpretView {
        match self {
            InterpretErr::CmdSuccess(s) => InterpretView::CmdSuccess(s@),
            InterpretErr::UnrecognizedCmd(s) => InterpretView::UnrecognizedCmd(s@),
            InterpretErr::InvalidState(s) => InterpretView::InvalidState(s@),
            InterpretErr::BadExpr(e) => InterpretView::BadExpr(e@),
            InterpretErr::TokenizeErr(e) => InterpretView::TokenizeErr(*e),
            InterpretErr::RecallErr(a, b) => InterpretView::RecallErr(a@, b@),
            InterpretErr::UnknownLongOpt(s) => InterpretView::UnknownLongOpt(s@),
            InterpretErr::UnknownShortOpt(c) => InterpretView::UnknownShortOpt(*c),
            InterpretErr::IncompleteErr => InterpretView::IncompleteErr,
            InterpretErr::ExitSig => InterpretView::ExitSig,
            InterpretErr::BlankLine => InterpretView::BlankLine,
            InterpretErr::HelpSig => InterpretView::HelpSig,
            InterpretErr::VersionSig => InterpretView::VersionSig,
            InterpretErr::ConversionSig => InterpretView::ConversionSig,
        }
    }
}

impl InterpretErr {
    /// The error for a recall marker the session cannot fill in.
    pub fn recall(f: RecallField) -> (r: InterpretErr)
        ensures
            r@ == InterpretView::RecallErr(f.spec_describe(), "not set"@),
    {
        InterpretErr::RecallErr(f.describe(), owned("not set"))
    }
}

/// The non-blank ordinary tokens: the arguments of the line.
pub open spec fn word_toks(toks: Seq<Tok>) -> Seq<Tok>
    decreases toks.len(),
{
    if toks.len() == 0 {
        Seq::empty()
    } else {
        let rest = word_toks(toks.drop_last());
        match toks.last() {
            Tok::Normal(s) => if s.len() > 0 {
                rest.push(toks.last())
            } else {
                rest
            },
            Tok::Delim(_) => rest,
        }
    }
}

fn keep_words(raw: Vec<TokenType>) -> (r: Vec<TokenType>)
    ensures
        toks_of(r@) == word_toks(toks_of(raw@)),
{
    let mut out: Vec<TokenType> = Vec::new();
    let mut i: usize = 0;
    assert(toks_of(raw@).subrange(0, 0) =~= Seq::<Tok>::empty());
    assert(toks_of(out@) =~= Seq::<Tok>::empty());
    while i < raw.len()
        invariant
            i <= raw@.len(),
            toks_of(out@) == word_toks(toks_of(raw@).subrange(0, i as int)),
        decreases raw.len() - i,
    {
        let ghost before = out@;
        let ghost next = toks_of(raw@).subrange(0, i + 1);
        assert(next.drop_last() =~= toks_of(raw@).subrange(0, i as int));
        assert(next.last() == raw@[i as int]@);
        match &raw[i] {
            TokenType::Normal(s) => {
                if !s.as_str().is_empty() {
                    let t = raw[i].duplicate();
                    out.push(t);
                    assert(toks_of(out@) =~= toks_of(before).push(t@));
                }
            },
            TokenType::Delim(_) => {},
        }
        i = i + 1;
    }
    assert(toks_of(raw@).subrange(0, raw@.len() as int) =~= toks_of(raw@));
    out
}

/// The interpreter's state: the display format and the session's memory.
#[derive(Debug, Clone)]
pub struct Interpreter {
    pub format: ConversionFmt,
    pub session: Session,
}

pub struct InterpState {
    pub format: ConversionFmt,
    pub session: SessionView,
}

impl View for Interpreter {
    type V = InterpState;

    open spec fn view(&self) -> InterpState {
        InterpState { format: self.format, session: self.session@ }
    }
}

pub type LineOutcome = (Result<Seq<Tok>, InterpretView>, InterpState);

/// A command that consumed `k` arguments: any further argument is unrecognised.
pub open spec fn done(w: Seq<Tok>, k: int, e: InterpretView, st: InterpState) -> LineOutcome {
    if w.len() > k {
        (Err(InterpretView::UnrecognizedCmd(w[k].text())), st)
    } else {
        (Err(e), st)
    }
}

pub open spec fn shown(o: Option<Seq<char>>) -> Seq<char> {
    match o {
        Some(s) => s,
        None => "[not set]"@,
    }
}

pub open spec fn okay() -> InterpretView {
    InterpretView::CmdSuccess("Okay."@)
}

pub open spec fn nonliteral() -> InterpretView {
    InterpretView::InvalidState("recall variables must be literals"@)
}

/// What a line with arguments `w` does, from state `st`.
pub open spec fn command_spec(w: Seq<Tok>, st: InterpState) -> LineOutcome {
    let c = w[0].text();
    if c == "exit"@ {
        done(w, 1, InterpretView::ExitSig, st)
    } else if c == "format"@ {
        if w.len() < 2 {
            done(w, 1, InterpretView::CmdSuccess(st.format.spec_describe()), st)
        } else if w[1].text() == "s"@ {
            done(w, 2, okay(), InterpState { format: ConversionFmt::Short, ..st })
        } else if w[1].text() == "d"@ {
            done(w, 2, okay(), InterpState { format: ConversionFmt::Desc, ..st })
        } else if w[1].text() == "l"@ {
            done(w, 2, okay(), InterpState { format: ConversionFmt::Long, ..st })
        } else {
            (Err(InterpretView::InvalidState(w[1].text())), st)
        }
    } else if c == "help"@ {
        done(w, 1, InterpretView::HelpSig, st)
    } else if c == "input_unit"@ || c == "output_unit"@ {
        let is_input = c == "input_unit"@;
        if w.len() < 2 {
            done(
                w,
                1,
                InterpretView::CmdSuccess(shown(if is_input { st.session.input_unit } else { st.session.output_unit })),
                st,
            )
        } else {
            match unit_spec(w[1].text()) {
                Err(e) => (Err(InterpretView::BadExpr(e)), st),
                Ok(u) => if u.alias is None || u.prefix != NO_PREFIX || u.recall {
                    (Err(nonliteral()), st)
                } else if is_input {
                    done(w, 2, okay(), InterpState { session: SessionView { input_unit: u.alias, ..st.session }, ..st })
                } else {
                    done(w, 2, okay(), InterpState { session: SessionView { output_unit: u.alias, ..st.session }, ..st })
                },
            }
        }
    } else if c == "value"@ {
        if w.len() < 2 {
            done(w, 1, InterpretView::CmdSuccess(shown(st.session.value)), st)
        } else {
            match number_spec(w[1].text()) {
                Err(e) => (Err(InterpretView::BadExpr(e)), st),
                Ok(n) => if n.recall {
                    (Err(nonliteral()), st)
                } else {
                    done(w, 2, okay(), InterpState { session: SessionView { value: Some(n.value), ..st.session }, ..st })
                },
            }
        }
    } else if c == "version"@ {
        done(w, 1, InterpretView::VersionSig, st)
    } else if w.len() < 3 {
        (Err(InterpretView::IncompleteErr), st)
    } else {
        (Ok(w), st)
    }
}

/// What the line `line` does, from state `st`: a conversion request's
/// arguments, or the outcome of a command, and the state afterwards.
pub open spec fn interpret_spec(line: Seq<char>, st: InterpState) -> LineOutcome {
    match tokenize_spec(line, line_start()).0 {
        Err(e) => (Err(InterpretView::TokenizeErr(e)), st),
        Ok(toks) => {
            let w = word_toks(toks);
            if w.len() == 0 {
                (Err(InterpretView::BlankLine), st)
            } else {
                command_spec(w, st)
            }
        },
    }
}

pub open spec fn outcome_view(r: Result<Vec<TokenType>, InterpretErr>) -> Result<Seq<Tok>, InterpretView> {
    match r {
        Ok(v) => Ok(toks_of(v@)),
        Err(e) => Err(e@),
    }
}

fn text_of(t: &TokenType) -> (r: Vec<char>)
    ensures
        r@ == t@.text(),
{
    crate::text::chars_of(t.peek().as_str())
}

fn copy_text(t: &TokenType) -> (r: String)
    ensures
        r@ == t@.text(),
{
    t.peek().clone()
}

impl Interpreter {
    pub fn new() -> (r: Interpreter)
        ensures
            r.format == ConversionFmt::Desc,
            r.session@.value is None && r.session@.input_unit is None && r.session@.output_unit is None,
    {
        Interpreter { format: ConversionFmt::Desc, session: Session::new() }
    }

    fn finish(w: &Vec<TokenType>, k: usize, e: InterpretErr) -> (r: Result<Vec<TokenType>, InterpretErr>)
        requires
            k <= w@.len(),
        ensures
            r is Err,
            r->Err_0@ == (if w@.len() > k { InterpretView::UnrecognizedCmd(toks_of(w@)[k as int].text()) } else { e@ }),
    {
        if w.len() > k {
            assert(toks_of(w@)[k as int] == w@[k as int]@);
            Err(InterpretErr::UnrecognizedCmd(copy_text(&w[k])))
        } else {
            Err(e)
        }
    }

    /// Interprets one line: runs a session command (`exit`, `format`,
    /// `help`, `input_unit`, `output_unit`, `value`, `version`) and reports
    /// its outcome as an error value, or hands back the arguments of a
    /// conversion request.
    pub fn interpret(&mut self, raw_line: &str) -> (r: Result<Vec<TokenType>, InterpretErr>)
        ensures
            (outcome_view(r), final(self)@) == interpret_spec(raw_line@, old(self)@),
    {
        let mut checker = LineCheck::new();
        let raw = match tokenize(raw_line, &mut checker) {
            Ok(t) => t,
            Err(e) => return Err(InterpretErr::TokenizeErr(e)),
        };
        let w = keep_words(raw);
        let ghost g = toks_of(w@);
        if w.len() == 0 {
            return Err(InterpretErr::BlankLine);
        }
        assert(g[0] == w@[0]@);
        let c = text_of(&w[0]);
        if is_text(&c, "exit") {
            return Self::finish(&w, 1, InterpretErr::ExitSig);
        }
        if is_text(&c, "format") {
            if w.len() < 2 {
                return Self::finish(&w, 1, InterpretErr::CmdSuccess(self.format.describe()));
            }
            assert(g[1] == w@[1]@);
            let v = text_of(&w[1]);
            if is_text(&v, "s") {
                self.format = ConversionFmt::Short;
            } else if is_text(&v, "d") {
                self.format = ConversionFmt::Desc;
            } else if is_text(&v, "l") {
                self.format = ConversionFmt::Long;
            } else {
                return Err(InterpretErr::InvalidState(copy_text(&w[1])));
            }
            return Self::finish(&w, 2, InterpretErr::CmdSuccess(owned("Okay.")));
        }
        if is_text(&c, "help") {
            return Self::finish(&w, 1, InterpretErr::HelpSig);
        }
        let is_input = is_text(&c, "input_unit");
        if is_input || is_text(&c, "output_unit") {
            if w.len() < 2 {
                let shown = match if is_input { &self.session.input_unit } else { &self.session.output_unit } {
                    Some(a) => a.clone(),
                    None => owned("[not set]"),
                };
                return Self::finish(&w, 1, InterpretErr::CmdSuccess(shown));
            }
            assert(g[1] == w@[1]@);
            let u = match parse_unit_expr(w[1].peek()) {
                Ok(u) => u,
                Err(e) => return Err(InterpretErr::BadExpr(e)),
            };
            if u.alias.is_none() || u.prefix != NO_PREFIX || u.recall {
                return Err(InterpretErr::InvalidState(owned("recall variables must be literals")));
            }
            if is_input {
                self.session.input_unit = u.alias;
            } else {
                self.session.output_unit = u.alias;
            }
            return Self::finish(&w, 2, InterpretErr::CmdSuccess(owned("Okay.")));
        }
        if is_text(&c, "value") {
            if w.len() < 2 {
                let shown = match &self.session.input_value {
                    Some(a) => a.clone(),
                    None => owned("[not set]"),
                };
                return Self::finish(&w, 1, InterpretErr::CmdSuccess(shown));
            }
            assert(g[1] == w@[1]@);
            let n = match parse_number_expr(w[1].peek()) {
                Ok(n) => n,
                Err(e) => return Err(InterpretErr::BadExpr(e)),
            };
            if n.recall {
                return Err(InterpretErr::InvalidState(owned("recall variables must be literals")));
            }
            self.session.input_value = Some(n.value);
            return Self::finish(&w, 2, InterpretErr::CmdSuccess(owned("Okay.")));
        }
        if is_text(&c, "version") {
            return Self::finish(&w, 1, InterpretErr::VersionSig);
        }
        if w.len() < 3 {
            return Err(InterpretErr::IncompleteErr);
        }
        Ok(w)
    }

    /// Fills in the recall markers of `exprs` from what the session
    /// remembers: values first, then the input unit, then the output units.
    /// The first field the session lacks is reported as not set; what was
    /// filled in before it stays filled in.
    pub fn perform_recall(&self, exprs: &mut ConvPrimitive) -> (r: Result<(), InterpretErr>)
        ensures
            final(exprs)@ == recall_spec(self.session@, old(exprs)@).0,
            r is Ok <==> recall_spec(self.session@, old(exprs)@).1 is None,
            r is Err ==> r->Err_0@ == InterpretView::RecallErr(
                recall_spec(self.session@, old(exprs)@).1->0.spec_describe(),
                "not set"@,
            ),
    {
        let s = &self.session;
        if has_value_recall(&exprs.input_vals) && s.input_value.is_none() {
            return Err(InterpretErr::recall(RecallField::InputValue));
        }
        if let Some(v) = &s.input_value {
            fill_value_recalls(&mut exprs.input_vals, v);
        }
        if exprs.input_unit.recall && s.input_unit.is_none() {
            return Err(InterpretErr::recall(RecallField::InputUnit));
        }
        if let Some(a) = &s.input_unit {
            if exprs.input_unit.recall {
                exprs.input_unit.alias = Some(a.clone());
            }
        }
        if has_unit_recall(&exprs.output_units) && s.output_unit.is_none() {
            return Err(InterpretErr::recall(RecallField::OutputUnit));
        }
        if let Some(a) = &s.output_unit {
            fill_unit_recalls(&mut exprs.output_units, a);
        }
        Ok(())
    }

    /// Remembers what the conversions used, in order: the value and both
    /// aliases, except that a unit that was not found is not remembered and
    /// an input out of range does not replace the value.
    pub fn update_recall(&mut self, conversions: &Vec<Conversion>)
        ensures
            final(self).session@ == remember_all(old(self).session@, conversions@),
            final(self).format == old(self).format,
    {
        let mut i: usize = 0;
        while i < conversions.len()
            invariant
                i <= conversions@.len(),
                self.format == old(self).format,
                self.session@ == remember_all(old(self).session@, conversions@.subrange(0, i as int)),
            decreases conversions.len() - i,
        {
            let c = &conversions[i];
            let ghost pre = conversions@.subrange(0, i as int);
            assert(conversions@.subrange(0, i + 1).drop_last() =~= pre);
            match &c.result {
                Ok(_) => {
                    self.session.input_value = Some(c.input.clone());
                    self.session.input_unit = Some(c.from_alias.clone());
                    self.session.output_unit = Some(c.to_alias.clone());
                },
                Err(ConversionError::TypeMismatch) => {
                    self.session.input_value = Some(c.input.clone());
                    self.session.input_unit = Some(c.from_alias.clone());
                    self.session.output_unit = Some(c.to_alias.clone());
                },
                Err(ConversionError::OutOfRange(output)) => {
                    if *output {
                        self.session.input_value = Some(c.input.clone());
                    }
                    self.session.input_unit = Some(c.from_alias.clone());
                    self.session.output_unit = Some(c.to_alias.clone());
                },
                Err(ConversionError::UnitNotFound(_)) => {
                    if c.to.is_some() {
                        self.session.output_unit = Some(c.to_alias.clone());
                    }
                    if c.from.is_some() {
                        self.session.input_unit = Some(c.from_alias.clone());
                    }
                    self.session.input_value = Some(c.input.clone());
                },
            }
            i = i + 1;
        }
        assert(conversions@.subrange(0, i as int) =~= conversions@);
    }
}

} // verus!

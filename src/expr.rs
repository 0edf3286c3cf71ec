//! The number-expression and unit-expression grammars and what they denote.
use vstd::prelude::*;
use crate::floatlit::{float_literal, is_float_literal};
use crate::text::{chars_of, string_of};
use crate::token::{Expectation, SyntaxChecker, SyntaxError, Tok, TokenType, tokenize, tokenize_spec, toks_of};

verus! {

/// The prefix code meaning "no metric prefix".
pub const NO_PREFIX: char = '\0';

/// The power of ten that a metric prefix code stands for, from yotta (`Y`)
/// to yocto (`y`); `NO_PREFIX` stands for 10^0.
pub open spec fn prefix_power(c: char) -> Option<int> {
    if c == 'Y' {
        Some(24)
    } else if c == 'Z' {
        Some(21)
    } else if c == 'E' {
        Some(18)
    } else if c == 'P' {
        Some(15)
    } else if c == 'T' {
        Some(12)
    } else if c == 'G' {
        Some(9)
    } else if c == 'M' {
        Some(6)
    } else if c == 'k' {
        Some(3)
    } else if c == 'h' {
        Some(2)
    } else if c == 'D' {
        Some(1)
    } else if c == NO_PREFIX {
        Some(0)
    } else if c == 'd' {
        Some(-1)
    } else if c == 'c' {
        Some(-2)
    } else if c == 'm' {
        Some(-3)
    } else if c == 'u' {
        Some(-6)
    } else if c == 'n' {
        Some(-9)
    } else if c == 'p' {
        Some(-12)
    } else if c == 'f' {
        Some(-15)
    } else if c == 'a' {
        Some(-18)
    } else if c == 'z' {
        Some(-21)
    } else if c == 'y' {
        Some(-24)
    } else {
        None
    }
}

/// The power of ten of a metric prefix code, or `None` for an unknown code.
pub fn prefix_as_power(c: char) -> (r: Option<i8>)
    ensures
        r is Some == prefix_power(c) is Some,
        r is Some ==> r->0 as int == prefix_power(c)->0,
{
    match c {
        'Y' => Some(24),
        'Z' => Some(21),
        'E' => Some(18),
        'P' => Some(15),
        'T' => Some(12),
        'G' => Some(9),
        'M' => Some(6),
        'k' => Some(3),
        'h' => Some(2),
        'D' => Some(1),
        '\0' => Some(0),
        'd' => Some(-1),
        'c' => Some(-2),
        'm' => Some(-3),
        'u' => Some(-6),
        'n' => Some(-9),
        'p' => Some(-12),
        'f' => Some(-15),
        'a' => Some(-18),
        'z' => Some(-21),
        'y' => Some(-24),
        _ => None,
    }
}

/// Why an expression was rejected.
#[derive(Debug, Clone)]
pub enum ExprParseError {
    Syntax(SyntaxError),
    BadPrefix(char),
    EmptyField(String),
}

pub enum ExprErrView {
    Syntax(SyntaxError),
    BadPrefix(char),
    EmptyField(Seq<char>),
}

impl View for ExprParseError {
    type V = ExprErrView;

    open spec fn view(&self) -> ExprErrView {
        match self {
            ExprParseError::Syntax(e) => ExprErrView::Syntax(*e),
            ExprParseError::BadPrefix(c) => ExprErrView::BadPrefix(*c),
            ExprParseError::EmptyField(s) => ExprErrView::EmptyField(s@),
        }
    }
}

/// The tokens with non-empty text, in order.
pub open spec fn nonblank(toks: Seq<Tok>) -> Seq<Tok>
    decreases toks.len(),
{
    if toks.len() == 0 {
        Seq::empty()
    } else if toks.last().text().len() == 0 {
        nonblank(toks.drop_last())
    } else {
        nonblank(toks.drop_last()).push(toks.last())
    }
}

/// The tokens with non-empty text, in order.
fn keep_nonblank(raw: Vec<TokenType>) -> (r: Vec<TokenType>)
    ensures
        toks_of(r@) == nonblank(toks_of(raw@)),
{
    let mut out: Vec<TokenType> = Vec::new();
    let mut i: usize = 0;
    assert(toks_of(raw@).subrange(0, 0) =~= Seq::<Tok>::empty());
    assert(toks_of(out@) =~= Seq::<Tok>::empty());
    while i < raw.len()
        invariant
            i <= raw@.len(),
            toks_of(out@) == nonblank(toks_of(raw@).subrange(0, i as int)),
        decreases raw.len() - i,
    {
        let ghost before = out@;
        let ghost next = toks_of(raw@).subrange(0, i + 1);
        assert(next.drop_last() =~= toks_of(raw@).subrange(0, i as int));
        assert(next.last() == raw@[i as int]@);
        if !raw[i].is_empty() {
            let t = raw[i].duplicate();
            out.push(t);
            assert(toks_of(out@) =~= toks_of(before).push(t@));
        }
        i = i + 1;
    }
    assert(toks_of(raw@).subrange(0, raw@.len() as int) =~= toks_of(raw@));
    out
}

/// States of the number-expression grammar.
#[derive(Debug, Clone, Copy, PartialEq, Eq, Structural)]
pub enum NumberCheckState {
    FloatLiteral,
    Semicolon,
    Trailing,
}

/// The grammar of a value: a float literal, or `;` meaning the recalled value.
#[derive(Debug, Clone, Copy, PartialEq, Eq, Structural)]
pub struct NumberCheck {
    pub valid: bool,
    pub state: NumberCheckState,
}

pub open spec fn number_start() -> NumberCheck {
    NumberCheck { valid: true, state: NumberCheckState::FloatLiteral }
}

impl NumberCheck {
    pub fn new() -> (r: NumberCheck)
        ensures
            r == number_start(),
    {
        NumberCheck { valid: true, state: NumberCheckState::FloatLiteral }
    }
}

impl SyntaxChecker for NumberCheck {
    open spec fn spec_is_esc(&self, ch: char) -> bool {
        false
    }

    open spec fn spec_is_comment(&self, ch: char) -> bool {
        ch == '#'
    }

    open spec fn spec_is_delim(&self, ch: char) -> bool {
        ch == ';'
    }

    open spec fn spec_is_preserved_delim(&self, ch: char) -> bool {
        false
    }

    open spec fn spec_esc_char(&self) -> char {
        '\\'
    }

    open spec fn spec_valid(&self) -> bool {
        self.valid
    }

    open spec fn spec_esc_set(&self) -> bool {
        false
    }

    open spec fn spec_fed(&self, token: Seq<char>, delim: bool) -> Self {
        let bad = NumberCheck { valid: false, ..*self };
        if !self.valid {
            *self
        } else {
            match self.state {
                NumberCheckState::FloatLiteral => if delim {
                    bad
                } else if token.len() == 0 {
                    NumberCheck { state: NumberCheckState::Semicolon, ..*self }
                } else if float_literal(token) {
                    NumberCheck { state: NumberCheckState::Trailing, ..*self }
                } else {
                    bad
                },
                NumberCheckState::Semicolon => if delim && token == seq![';'] {
                    NumberCheck { state: NumberCheckState::Trailing, ..*self }
                } else {
                    bad
                },
                NumberCheckState::Trailing => if token.len() != 0 {
                    bad
                } else {
                    *self
                },
            }
        }
    }

    open spec fn spec_with_esc(&self, set: bool) -> Self {
        *self
    }

    open spec fn spec_check(&self, index: nat, more_tokens: bool) -> Result<(), SyntaxError> {
        let i = index as usize;
        if (!more_tokens || !self.valid) && self.state == NumberCheckState::FloatLiteral {
            Err(SyntaxError::Expected(i, Expectation::FloatLiteral))
        } else if (!more_tokens || !self.valid) && self.state == NumberCheckState::Semicolon {
            Err(SyntaxError::Expected(i, Expectation::FloatOrRecall))
        } else if !self.valid && self.state == NumberCheckState::Trailing {
            Err(SyntaxError::Expected(i, Expectation::NothingAfterValue))
        } else {
            Ok(())
        }
    }

    open spec fn spec_fresh(&self) -> bool {
        *self == number_start()
    }

    fn feed_token(&mut self, token: &Vec<char>, delim: bool) -> (r: bool) {
        if self.valid {
            match self.state {
                NumberCheckState::FloatLiteral => {
                    if delim {
                        self.valid = false;
                    } else if token.len() == 0 {
                        self.state = NumberCheckState::Semicolon;
                    } else if is_float_literal(token) {
                        self.state = NumberCheckState::Trailing;
                    } else {
                        self.valid = false;
                    }
                },
                NumberCheckState::Semicolon => {
                    if delim && token.len() == 1 && token[0] == ';' {
                        assert(token@ =~= seq![';']);
                        self.state = NumberCheckState::Trailing;
                    } else {
                        proof {
                            if token@ == seq![';'] {
                                assert(token@[0] == ';');
                            }
                        }
                        self.valid = false;
                    }
                },
                NumberCheckState::Trailing => {
                    if token.len() != 0 {
                        self.valid = false;
                    }
                },
            }
        }
        self.valid
    }

    fn is_esc(&self, ch: char) -> (r: bool) {
        false
    }

    fn is_comment(&self, ch: char) -> (r: bool) {
        ch == '#'
    }

    fn is_delim(&self, ch: char) -> (r: bool) {
        ch == ';'
    }

    fn is_preserved_delim(&self, ch: char) -> (r: bool) {
        false
    }

    fn esc_char(&self) -> (r: char) {
        '\\'
    }

    fn valid(&self) -> (r: bool) {
        self.valid
    }

    fn assert_valid(&self, index: usize, more_tokens: bool) -> (r: Result<(), SyntaxError>) {
        if !more_tokens || !self.valid {
            match self.state {
                NumberCheckState::FloatLiteral => {
                    return Err(SyntaxError::Expected(index, Expectation::FloatLiteral));
                },
                NumberCheckState::Semicolon => {
                    return Err(SyntaxError::Expected(index, Expectation::FloatOrRecall));
                },
                _ => {},
            }
        }
        if !self.valid {
            match self.state {
                NumberCheckState::Trailing => {
                    return Err(SyntaxError::Expected(index, Expectation::NothingAfterValue));
                },
                _ => {},
            }
        }
        Ok(())
    }

    fn esc_set(&self) -> (r: bool) {
        false
    }

    fn set_esc(&mut self, set: bool) {
    }

    fn reset(&mut self) {
        self.valid = true;
        self.state = NumberCheckState::FloatLiteral;
    }
}

/// A value expression: a float literal as written, or a request for the
/// recalled value (then `value` is empty).
#[derive(Debug, Clone)]
pub struct NumberExpr {
    pub value: String,
    pub recall: bool,
}

pub struct NumberView {
    pub value: Seq<char>,
    pub recall: bool,
}

impl View for NumberExpr {
    type V = NumberView;

    open spec fn view(&self) -> NumberView {
        NumberView { value: self.value@, recall: self.recall }
    }
}

/// What a value expression denotes, from its non-blank tokens.
pub open spec fn number_of(f: Seq<Tok>) -> Result<NumberView, ExprErrView> {
    if f.len() == 0 {
        Err(ExprErrView::Syntax(SyntaxError::Expected(0, Expectation::FloatOrRecall)))
    } else if f.len() > 1 {
        Err(ExprErrView::Syntax(SyntaxError::Expected(0, Expectation::NothingAfterValue)))
    } else {
        match f[0] {
            Tok::Normal(n) => if float_literal(n) {
                Ok(NumberView { value: n, recall: false })
            } else {
                Err(ExprErrView::Syntax(SyntaxError::Expected(0, Expectation::FloatLiteral)))
            },
            Tok::Delim(d) => if d == seq![';'] {
                Ok(NumberView { value: Seq::empty(), recall: true })
            } else {
                Err(ExprErrView::Syntax(SyntaxError::Expected(0, Expectation::FloatOrRecall)))
            },
        }
    }
}

/// What the text `s` denotes as a value expression.
pub open spec fn number_spec(s: Seq<char>) -> Result<NumberView, ExprErrView> {
    match tokenize_spec(s, number_start()).0 {
        Err(e) => Err(ExprErrView::Syntax(e)),
        Ok(toks) => number_of(nonblank(toks)),
    }
}

pub open spec fn number_result(r: Result<NumberExpr, ExprParseError>) -> Result<NumberView, ExprErrView> {
    match r {
        Ok(n) => Ok(n@),
        Err(e) => Err(e@),
    }
}

/// Parses a value expression: a float literal or `;`.
pub fn parse_number_expr(token: &String) -> (r: Result<NumberExpr, ExprParseError>)
    ensures
        number_result(r) == number_spec(token@),
        r matches Ok(n) ==> (n.recall || float_literal(n.value@)),
{
    let mut checker = NumberCheck::new();
    let raw = match tokenize(token.as_str(), &mut checker) {
        Ok(t) => t,
        Err(e) => return Err(ExprParseError::Syntax(e)),
    };
    let f = keep_nonblank(raw);
    let ghost g = toks_of(f@);
    if f.len() == 0 {
        return Err(ExprParseError::Syntax(SyntaxError::Expected(0, Expectation::FloatOrRecall)));
    }
    if f.len() > 1 {
        return Err(ExprParseError::Syntax(SyntaxError::Expected(0, Expectation::NothingAfterValue)));
    }
    assert(g[0] == f@[0]@);
    match &f[0] {
        TokenType::Normal(n) => {
            let cs = chars_of(n.as_str());
            if is_float_literal(&cs) {
                Ok(NumberExpr { value: n.clone(), recall: false })
            } else {
                Err(ExprParseError::Syntax(SyntaxError::Expected(0, Expectation::FloatLiteral)))
            }
        },
        TokenType::Delim(d) => {
            let cs = chars_of(d.as_str());
            if cs.len() == 1 && cs[0] == ';' {
                assert(cs@ =~= seq![';']);
                Ok(NumberExpr { value: String::new(), recall: true })
            } else {
                proof {
                    if cs@ == seq![';'] {
                        assert(cs@[0] == ';');
                    }
                }
                Err(ExprParseError::Syntax(SyntaxError::Expected(0, Expectation::FloatOrRecall)))
            }
        },
    }
}

/// States of the unit-expression grammar.
#[derive(Debug, Clone, Copy, PartialEq, Eq, Structural)]
pub enum UnitCheckState {
    NameOrExpr,
    UnderscoreOrColon,
    PrefixOrName,
    Colon,
    FinishOrTag,
    Tag,
    Finish,
}

/// The grammar of a unit: an alias, `:` for the recalled unit, either of
/// them after `_` and a one-character metric prefix, and an optional `@tag`.
#[derive(Debug, Clone, Copy, PartialEq, Eq, Structural)]
pub struct UnitCheck {
    pub esc_seq: bool,
    pub valid: bool,
    pub state: UnitCheckState,
}

pub open spec fn unit_start() -> UnitCheck {
    UnitCheck { esc_seq: false, valid: true, state: UnitCheckState::NameOrExpr }
}

/// The token is under two bytes long in UTF-8: a single ASCII character.
pub open spec fn short_token(t: Seq<char>) -> bool {
    t.len() == 1 && '\u{80}' > t[0]
}

impl UnitCheck {
    pub fn new() -> (r: UnitCheck)
        ensures
            r == unit_start(),
    {
        UnitCheck { esc_seq: false, valid: true, state: UnitCheckState::NameOrExpr }
    }

    pub open spec fn goto(self, s: UnitCheckState) -> Self {
        UnitCheck { state: s, ..self }
    }
}

impl SyntaxChecker for UnitCheck {
    open spec fn spec_is_esc(&self, ch: char) -> bool {
        ch == '\\'
    }

    open spec fn spec_is_comment(&self, ch: char) -> bool {
        false
    }

    open spec fn spec_is_delim(&self, ch: char) -> bool {
        ch == '_' || ch == ':' || ch == '@'
    }

    open spec fn spec_is_preserved_delim(&self, ch: char) -> bool {
        false
    }

    open spec fn spec_esc_char(&self) -> char {
        '\\'
    }

    open spec fn spec_valid(&self) -> bool {
        self.valid
    }

    open spec fn spec_esc_set(&self) -> bool {
        self.esc_seq
    }

    open spec fn spec_fed(&self, token: Seq<char>, delim: bool) -> Self {
        let bad = UnitCheck { valid: false, ..*self };
        if !self.valid {
            *self
        } else {
            match self.state {
                UnitCheckState::NameOrExpr => if delim {
                    bad
                } else if token.len() == 0 {
                    self.goto(UnitCheckState::UnderscoreOrColon)
                } else {
                    self.goto(UnitCheckState::FinishOrTag)
                },
                UnitCheckState::UnderscoreOrColon => if !delim {
                    bad
                } else if token == seq!['_'] {
                    self.goto(UnitCheckState::PrefixOrName)
                } else if token == seq![':'] {
                    self.goto(UnitCheckState::FinishOrTag)
                } else {
                    bad
                },
                UnitCheckState::PrefixOrName => if delim || token.len() == 0 {
                    bad
                } else if short_token(token) {
                    self.goto(UnitCheckState::Colon)
                } else {
                    self.goto(UnitCheckState::FinishOrTag)
                },
                UnitCheckState::Colon => if delim && token == seq![':'] {
                    self.goto(UnitCheckState::FinishOrTag)
                } else {
                    bad
                },
                UnitCheckState::FinishOrTag => if token == seq!['@'] {
                    self.goto(UnitCheckState::Tag)
                } else if token.len() != 0 {
                    bad
                } else {
                    *self
                },
                UnitCheckState::Tag => if delim || token.len() == 0 {
                    bad
                } else {
                    self.goto(UnitCheckState::Finish)
                },
                UnitCheckState::Finish => if token.len() != 0 {
                    bad
                } else {
                    *self
                },
            }
        }
    }

    open spec fn spec_with_esc(&self, set: bool) -> Self {
        UnitCheck { esc_seq: set, ..*self }
    }

    open spec fn spec_check(&self, index: nat, more_tokens: bool) -> Result<(), SyntaxError> {
        let i = index as usize;
        let st = self.state;
        if (!more_tokens || !self.valid) && (st == UnitCheckState::NameOrExpr || st == UnitCheckState::UnderscoreOrColon) {
            Err(SyntaxError::Expected(i, Expectation::UnitOrRecall))
        } else if (!more_tokens || !self.valid) && (st == UnitCheckState::PrefixOrName || st == UnitCheckState::Colon) {
            Err(SyntaxError::Expected(i, Expectation::PrefixWithUnit))
        } else if (!more_tokens || !self.valid) && st == UnitCheckState::Tag {
            Err(SyntaxError::Expected(i, Expectation::NonEmptyTag))
        } else if !self.valid && st == UnitCheckState::FinishOrTag {
            Err(SyntaxError::Expected(i, Expectation::TagOrNothing))
        } else if !self.valid && st == UnitCheckState::Finish {
            Err(SyntaxError::Expected(i, Expectation::NothingAfterTag))
        } else {
            Ok(())
        }
    }

    open spec fn spec_fresh(&self) -> bool {
        *self == unit_start()
    }

    fn feed_token(&mut self, token: &Vec<char>, delim: bool) -> (r: bool) {
        let one = token.len() == 1;
        proof {
            if one {
                assert(token@ =~= seq![token@[0]]);
            }
        }
        if self.valid {
            match self.state {
                UnitCheckState::NameOrExpr => {
                    if delim {
                        self.valid = false;
                    } else if token.len() == 0 {
                        self.state = UnitCheckState::UnderscoreOrColon;
                    } else {
                        self.state = UnitCheckState::FinishOrTag;
                    }
                },
                UnitCheckState::UnderscoreOrColon => {
                    if !delim {
                        self.valid = false;
                    } else if one && token[0] == '_' {
                        self.state = UnitCheckState::PrefixOrName;
                    } else if one && token[0] == ':' {
                        self.state = UnitCheckState::FinishOrTag;
                    } else {
                        self.valid = false;
                    }
                },
                UnitCheckState::PrefixOrName => {
                    if delim || token.len() == 0 {
                        self.valid = false;
                    } else if one && '\u{80}' > token[0] {
                        self.state = UnitCheckState::Colon;
                    } else {
                        self.state = UnitCheckState::FinishOrTag;
                    }
                },
                UnitCheckState::Colon => {
                    if delim && one && token[0] == ':' {
                        self.state = UnitCheckState::FinishOrTag;
                    } else {
                        self.valid = false;
                    }
                },
                UnitCheckState::FinishOrTag => {
                    if one && token[0] == '@' {
                        self.state = UnitCheckState::Tag;
                    } else if token.len() != 0 {
                        self.valid = false;
                    }
                },
                UnitCheckState::Tag => {
                    if delim || token.len() == 0 {
                        self.valid = false;
                    } else {
                        self.state = UnitCheckState::Finish;
                    }
                },
                UnitCheckState::Finish => {
                    if token.len() != 0 {
                        self.valid = false;
                    }
                },
            }
        }
        self.valid
    }

    fn is_esc(&self, ch: char) -> (r: bool) {
        ch == '\\'
    }

    fn is_comment(&self, ch: char) -> (r: bool) {
        false
    }

    fn is_delim(&self, ch: char) -> (r: bool) {
        ch == '_' || ch == ':' || ch == '@'
    }

    fn is_preserved_delim(&self, ch: char) -> (r: bool) {
        false
    }

    fn esc_char(&self) -> (r: char) {
        '\\'
    }

    fn valid(&self) -> (r: bool) {
        self.valid
    }

    fn assert_valid(&self, index: usize, more_tokens: bool) -> (r: Result<(), SyntaxError>) {
        if !more_tokens || !self.valid {
            match self.state {
                UnitCheckState::NameOrExpr | UnitCheckState::UnderscoreOrColon => {
                    return Err(SyntaxError::Expected(index, Expectation::UnitOrRecall));
                },
                UnitCheckState::PrefixOrName | UnitCheckState::Colon => {
                    return Err(SyntaxError::Expected(index, Expectation::PrefixWithUnit));
                },
                UnitCheckState::Tag => {
                    return Err(SyntaxError::Expected(index, Expectation::NonEmptyTag));
                },
                _ => {},
            }
        }
        if !self.valid {
            match self.state {
                UnitCheckState::FinishOrTag => {
                    return Err(SyntaxError::Expected(index, Expectation::TagOrNothing));
                },
                UnitCheckState::Finish => {
                    return Err(SyntaxError::Expected(index, Expectation::NothingAfterTag));
                },
                _ => {},
            }
        }
        Ok(())
    }

    fn esc_set(&self) -> (r: bool) {
        self.esc_seq
    }

    fn set_esc(&mut self, set: bool) {
        self.esc_seq = set;
    }

    fn reset(&mut self) {
        self.valid = true;
        self.state = UnitCheckState::NameOrExpr;
        self.esc_seq = false;
    }
}

/// A unit expression: an optional metric prefix, the alias (absent when the
/// recalled unit is asked for), and an optional namespace tag.
#[derive(Debug, Clone)]
pub struct UnitExpr {
    pub prefix: char,
    pub alias: Option<String>,
    pub recall: bool,
    pub tag: Option<String>,
}

pub struct UnitView {
    pub prefix: char,
    pub alias: Option<Seq<char>>,
    pub recall: bool,
    pub tag: Option<Seq<char>>,
}

pub open spec fn opt_view(o: Option<String>) -> Option<Seq<char>> {
    match o {
        Some(s) => Some(s@),
        None => None,
    }
}

/// A copy of an optional string.
pub(crate) fn copy_opt(o: &Option<String>) -> (r: Option<String>)
    ensures
        opt_view(r) == opt_view(*o),
{
    match o {
        Some(s) => Some(s.clone()),
        None => None,
    }
}

impl View for UnitExpr {
    type V = UnitView;

    open spec fn view(&self) -> UnitView {
        UnitView { prefix: self.prefix, alias: opt_view(self.alias), recall: self.recall, tag: opt_view(self.tag) }
    }
}

/// What follows the unit from token `i` on: nothing, or `@` and the tag.
pub open spec fn tail_tag(f: Seq<Tok>, i: int) -> Option<Option<Seq<char>>> {
    if f.len() == i {
        Some(None)
    } else if f.len() == i + 2 && f[i] == Tok::Delim(seq!['@']) {
        Some(Some(f[i + 1].text()))
    } else {
        None
    }
}

pub open spec fn with_tail(f: Seq<Tok>, i: int, prefix: char, alias: Option<Seq<char>>, recall: bool) -> Result<UnitView, ExprErrView> {
    match tail_tag(f, i) {
        Some(tag) => Ok(UnitView { prefix, alias, recall, tag }),
        None => Err(ExprErrView::Syntax(SyntaxError::Expected(0, Expectation::TagOrNothing))),
    }
}

/// What a unit expression denotes, from its non-blank tokens.
pub open spec fn unit_of(f: Seq<Tok>) -> Result<UnitView, ExprErrView> {
    if f.len() == 0 {
        Err(ExprErrView::Syntax(SyntaxError::Expected(0, Expectation::PrefixWithUnit)))
    } else if f[0] == Tok::Delim(seq!['_']) {
        if f.len() < 2 || f[1].text().len() == 0 {
            Err(ExprErrView::Syntax(SyntaxError::Expected(0, Expectation::PrefixWithUnit)))
        } else {
            let p = f[1].text()[0];
            let rest = f[1].text().drop_first();
            if prefix_power(p) is None {
                Err(ExprErrView::BadPrefix(p))
            } else if rest.len() > 0 {
                with_tail(f, 2, p, Some(rest), false)
            } else if f.len() > 2 && f[2] == Tok::Delim(seq![':']) {
                with_tail(f, 3, p, None, true)
            } else {
                Err(ExprErrView::Syntax(SyntaxError::Expected(0, Expectation::PrefixWithUnit)))
            }
        }
    } else if f[0] == Tok::Delim(seq![':']) {
        with_tail(f, 1, NO_PREFIX, None, true)
    } else {
        match f[0] {
            Tok::Normal(a) => with_tail(f, 1, NO_PREFIX, Some(a), false),
            Tok::Delim(_) => Err(ExprErrView::Syntax(SyntaxError::Expected(0, Expectation::UnitOrRecall))),
        }
    }
}

/// What the text `s` denotes as a unit expression.
pub open spec fn unit_spec(s: Seq<char>) -> Result<UnitView, ExprErrView> {
    match tokenize_spec(s, unit_start()).0 {
        Err(e) => Err(ExprErrView::Syntax(e)),
        Ok(toks) => unit_of(nonblank(toks)),
    }
}

pub open spec fn unit_result(r: Result<UnitExpr, ExprParseError>) -> Result<UnitView, ExprErrView> {
    match r {
        Ok(u) => Ok(u@),
        Err(e) => Err(e@),
    }
}

/// Whether the token is the delimiter `c`.
fn is_delim_tok(t: &TokenType, c: char) -> (r: bool)
    ensures
        r == (t@ == Tok::Delim(seq![c])),
{
    match t {
        TokenType::Delim(d) => {
            let cs = chars_of(d.as_str());
            if cs.len() == 1 && cs[0] == c {
                assert(cs@ =~= seq![c]);
                true
            } else {
                proof {
                    if cs@ == seq![c] {
                        assert(cs@[0] == c);
                    }
                }
                false
            }
        },
        TokenType::Normal(_) => false,
    }
}

fn finish_unit(f: &Vec<TokenType>, i: usize, prefix: char, alias: Option<String>, recall: bool) -> (r: Result<UnitExpr, ExprParseError>)
    requires
        i <= f@.len(),
    ensures
        unit_result(r) == with_tail(toks_of(f@), i as int, prefix, opt_view(alias), recall),
{
    let ghost g = toks_of(f@);
    if f.len() == i {
        Ok(UnitExpr { prefix, alias, recall, tag: None })
    } else if f.len() - i == 2 && is_delim_tok(&f[i], '@') {
        assert(g[i as int] == f@[i as int]@ && g[i + 1] == f@[i + 1]@);
        Ok(UnitExpr { prefix, alias, recall, tag: Some(f[i + 1].peek().clone()) })
    } else {
        assert(f.len() - i != 2 ==> f@.len() != i + 2);
        assert(g[i as int] == f@[i as int]@);
        Err(ExprParseError::Syntax(SyntaxError::Expected(0, Expectation::TagOrNothing)))
    }
}

/// Parses a unit expression such as `m`, `_km`, `_k:`, `:` or `oz@mass`.
pub fn parse_unit_expr(token: &String) -> (r: Result<UnitExpr, ExprParseError>)
    ensures
        unit_result(r) == unit_spec(token@),
{
    let mut checker = UnitCheck::new();
    let raw = match tokenize(token.as_str(), &mut checker) {
        Ok(t) => t,
        Err(e) => return Err(ExprParseError::Syntax(e)),
    };
    let f = keep_nonblank(raw);
    let ghost g = toks_of(f@);
    if f.len() == 0 {
        return Err(ExprParseError::Syntax(SyntaxError::Expected(0, Expectation::PrefixWithUnit)));
    }
    assert(g[0] == f@[0]@);
    if is_delim_tok(&f[0], '_') {
        if f.len() < 2 {
            return Err(ExprParseError::Syntax(SyntaxError::Expected(0, Expectation::PrefixWithUnit)));
        }
        assert(g[1] == f@[1]@);
        let text = chars_of(f[1].peek().as_str());
        if text.len() == 0 {
            return Err(ExprParseError::Syntax(SyntaxError::Expected(0, Expectation::PrefixWithUnit)));
        }
        let p = text[0];
        if prefix_as_power(p).is_none() {
            return Err(ExprParseError::BadPrefix(p));
        }
        let mut rest: Vec<char> = Vec::new();
        let mut k: usize = 1;
        while k < text.len()
            invariant
                1 <= k <= text@.len(),
                rest@ == text@.subrange(1, k as int),
            decreases text.len() - k,
        {
            rest.push(text[k]);
            k = k + 1;
            assert(rest@ =~= text@.subrange(1, k as int));
        }
        assert(rest@ =~= text@.drop_first());
        if rest.len() > 0 {
            finish_unit(&f, 2, p, Some(string_of(&rest)), false)
        } else if f.len() > 2 && is_delim_tok(&f[2], ':') {
            assert(g[2] == f@[2]@);
            finish_unit(&f, 3, p, None, true)
        } else {
            proof {
                if f@.len() > 2 {
                    assert(g[2] == f@[2]@);
                }
            }
            Err(ExprParseError::Syntax(SyntaxError::Expected(0, Expectation::PrefixWithUnit)))
        }
    } else if is_delim_tok(&f[0], ':') {
        finish_unit(&f, 1, NO_PREFIX, None, true)
    } else {
        match &f[0] {
            TokenType::Normal(a) => finish_unit(&f, 1, NO_PREFIX, Some(a.clone()), false),
            TokenType::Delim(_) => Err(ExprParseError::Syntax(SyntaxError::Expected(0, Expectation::UnitOrRecall))),
        }
    }
}

/// A parse failure with the position of the argument where it happened.
#[derive(Debug, Clone)]
pub struct GeneralParseError {
    pub err: ExprParseError,
    pub failed_at: usize,
}

/// A conversion request: values, the unit they are in, and the units to convert into.
#[derive(Debug, Clone)]
pub struct ConvPrimitive {
    pub input_vals: Vec<NumberExpr>,
    pub input_unit: UnitExpr,
    pub output_units: Vec<UnitExpr>,
}

pub open spec fn numbers_of(v: Seq<NumberExpr>) -> Seq<NumberView> {
    v.map_values(|n: NumberExpr| n@)
}

pub open spec fn units_of(v: Seq<UnitExpr>) -> Seq<UnitView> {
    v.map_values(|u: UnitExpr| u@)
}

pub struct PrimView {
    pub vals: Seq<NumberView>,
    pub input: UnitView,
    pub outs: Seq<UnitView>,
}

impl View for ConvPrimitive {
    type V = PrimView;

    open spec fn view(&self) -> PrimView {
        PrimView { vals: numbers_of(self.input_vals@), input: self.input_unit@, outs: units_of(self.output_units@) }
    }
}

/// What the next argument of a request is read as.
#[derive(Debug, Clone, Copy, PartialEq, Eq, Structural)]
pub enum ConvPrimState {
    GetValueExpr,
    GetMoreValueExpr,
    GetInputExpr,
    GetOutputExpr,
}

pub open spec fn read_unit(text: Seq<char>, i: nat, acc: PrimView) -> Result<(ConvPrimState, PrimView), (ExprErrView, nat)> {
    match unit_spec(text) {
        Ok(u) => Ok((ConvPrimState::GetOutputExpr, PrimView { vals: acc.vals, input: u, outs: acc.outs })),
        Err(e) => Err((e, i)),
    }
}

/// Reading argument `i`, of text `text`, in state `st`.
pub open spec fn prim_step(text: Seq<char>, i: nat, st: ConvPrimState, acc: PrimView) -> Result<(ConvPrimState, PrimView), (ExprErrView, nat)> {
    match st {
        ConvPrimState::GetValueExpr => match number_spec(text) {
            Ok(n) => Ok((ConvPrimState::GetMoreValueExpr, PrimView { vals: acc.vals.push(n), input: acc.input, outs: acc.outs })),
            Err(e) => Err((e, i)),
        },
        ConvPrimState::GetMoreValueExpr => match number_spec(text) {
            Ok(n) => Ok((ConvPrimState::GetMoreValueExpr, PrimView { vals: acc.vals.push(n), input: acc.input, outs: acc.outs })),
            Err(_) => read_unit(text, i, acc),
        },
        ConvPrimState::GetInputExpr => read_unit(text, i, acc),
        ConvPrimState::GetOutputExpr => match unit_spec(text) {
            Ok(u) => Ok((ConvPrimState::GetOutputExpr, PrimView { vals: acc.vals, input: acc.input, outs: acc.outs.push(u) })),
            Err(e) => Err((e, i)),
        },
    }
}

/// Reading the arguments from `i` on.
pub open spec fn prim_run(toks: Seq<Tok>, i: nat, st: ConvPrimState, acc: PrimView) -> Result<PrimView, (ExprErrView, nat)>
    decreases toks.len() - i,
{
    if i >= toks.len() {
        Ok(acc)
    } else {
        match prim_step(toks[i as int].text(), i, st, acc) {
            Err(e) => Err(e),
            Ok(next) => prim_run(toks, i + 1, next.0, next.1),
        }
    }
}

pub open spec fn empty_unit() -> UnitView {
    UnitView { prefix: NO_PREFIX, alias: None, recall: false, tag: None }
}

/// What the arguments of a conversion request denote: one or more values,
/// the unit they are in, then the units to convert them into.
pub open spec fn conv_primitive_spec(toks: Seq<Tok>) -> Result<PrimView, (ExprErrView, nat)> {
    prim_run(toks, 0, ConvPrimState::GetValueExpr, PrimView { vals: Seq::empty(), input: empty_unit(), outs: Seq::empty() })
}

pub open spec fn prim_result(r: Result<ConvPrimitive, GeneralParseError>) -> Result<PrimView, (ExprErrView, nat)> {
    match r {
        Ok(p) => Ok(p@),
        Err(e) => Err((e.err@, e.failed_at as nat)),
    }
}

/// Reads the arguments of a conversion request (`v1 v2 ... unit out1 out2 ...`).
pub fn to_conv_primitive(tokens: &Vec<TokenType>) -> (r: Result<ConvPrimitive, GeneralParseError>)
    ensures
        prim_result(r) == conv_primitive_spec(toks_of(tokens@)),
{
    let ghost toks = toks_of(tokens@);
    let mut vals: Vec<NumberExpr> = Vec::new();
    let mut input = UnitExpr { prefix: NO_PREFIX, alias: None, recall: false, tag: None };
    let mut outs: Vec<UnitExpr> = Vec::new();
    let mut st = ConvPrimState::GetValueExpr;
    let mut i: usize = 0;
    assert(numbers_of(vals@) =~= Seq::<NumberView>::empty());
    assert(units_of(outs@) =~= Seq::<UnitView>::empty());
    while i < tokens.len()
        invariant
            toks == toks_of(tokens@),
            i <= tokens@.len(),
            prim_run(toks, i as nat, st, PrimView { vals: numbers_of(vals@), input: input@, outs: units_of(outs@) })
                == conv_primitive_spec(toks),
        decreases tokens.len() - i,
    {
        let text = tokens[i].peek();
        assert(toks[i as int].text() == text@);
        let ghost acc = PrimView { vals: numbers_of(vals@), input: input@, outs: units_of(outs@) };
        let ghost vals0 = vals@;
        let ghost outs0 = outs@;
        let ghost st0 = st;
        let mut as_unit = false;
        match st {
            ConvPrimState::GetValueExpr => {
                match parse_number_expr(text) {
                    Ok(n) => {
                        vals.push(n);
                        st = ConvPrimState::GetMoreValueExpr;
                    },
                    Err(e) => {
                        return Err(GeneralParseError { err: e, failed_at: i });
                    },
                }
            },
            ConvPrimState::GetMoreValueExpr => {
                match parse_number_expr(text) {
                    Ok(n) => {
                        vals.push(n);
                    },
                    Err(_) => {
                        as_unit = true;
                    },
                }
            },
            ConvPrimState::GetInputExpr => {
                as_unit = true;
            },
            ConvPrimState::GetOutputExpr => {
                match parse_unit_expr(text) {
                    Ok(u) => {
                        outs.push(u);
                    },
                    Err(e) => {
                        return Err(GeneralParseError { err: e, failed_at: i });
                    },
                }
            },
        }
        if as_unit {
            match parse_unit_expr(text) {
                Ok(u) => {
                    input = u;
                    st = ConvPrimState::GetOutputExpr;
                },
                Err(e) => {
                    return Err(GeneralParseError { err: e, failed_at: i });
                },
            }
        }
        proof {
            if vals@.len() > vals0.len() {
                assert(numbers_of(vals@) =~= numbers_of(vals0).push(vals@.last()@));
            }
            if outs@.len() > outs0.len() {
                assert(units_of(outs@) =~= units_of(outs0).push(outs@.last()@));
            }
        }
        let ghost next: Result<(ConvPrimState, PrimView), (ExprErrView, nat)> = Ok(
            (st, PrimView { vals: numbers_of(vals@), input: input@, outs: units_of(outs@) }),
        );
        assert(prim_step(text@, i as nat, st0, acc) == next);
        i = i + 1;
    }
    Ok(ConvPrimitive { input_vals: vals, input_unit: input, output_units: outs })
}

} // verus!

//! The grammar-agnostic tokenizer and the contract its grammars implement.
use vstd::prelude::*;
use crate::text::{chars_of, string_of};

verus! {

/// What a grammar expected where it stopped.
#[derive(Debug, Clone, Copy, PartialEq, Eq, Structural)]
pub enum Expectation {
    CloseBrace,
    EqualsSign,
    TokenAfterBrace,
    OpenBrace,
    Comma,
    WhitespaceOrComment,
    FloatLiteral,
    FloatOrRecall,
    NothingAfterValue,
    UnitOrRecall,
    PrefixWithUnit,
    NonEmptyTag,
    TagOrNothing,
    NothingAfterTag,
}

impl Expectation {
    pub open spec fn spec_describe(self) -> Seq<char> {
        match self {
            Expectation::CloseBrace => "']'"@,
            Expectation::EqualsSign => "'='"@,
            Expectation::TokenAfterBrace => "token after '['"@,
            Expectation::OpenBrace => "'['"@,
            Expectation::Comma => "','"@,
            Expectation::WhitespaceOrComment => "whitespace or comment"@,
            Expectation::FloatLiteral => "float literal"@,
            Expectation::FloatOrRecall => "float literal or recall expression"@,
            Expectation::NothingAfterValue => "nothing after value expression"@,
            Expectation::UnitOrRecall => "unit name or recall expression"@,
            Expectation::PrefixWithUnit => "metric prefix together with unit name / recall expression"@,
            Expectation::NonEmptyTag => "a non-empty tag for the unit"@,
            Expectation::TagOrNothing => "a tag or nothing at all after unit name / recall expression"@,
            Expectation::NothingAfterTag => "nothing following a tag"@,
        }
    }

    /// Human-readable form of the expectation.
    pub fn describe(&self) -> (r: String)
        ensures
            r@ == self.spec_describe(),
    {
        let s = match self {
            Expectation::CloseBrace => "']'",
            Expectation::EqualsSign => "'='",
            Expectation::TokenAfterBrace => "token after '['",
            Expectation::OpenBrace => "'['",
            Expectation::Comma => "','",
            Expectation::WhitespaceOrComment => "whitespace or comment",
            Expectation::FloatLiteral => "float literal",
            Expectation::FloatOrRecall => "float literal or recall expression",
            Expectation::NothingAfterValue => "nothing after value expression",
            Expectation::UnitOrRecall => "unit name or recall expression",
            Expectation::PrefixWithUnit => "metric prefix together with unit name / recall expression",
            Expectation::NonEmptyTag => "a non-empty tag for the unit",
            Expectation::TagOrNothing => "a tag or nothing at all after unit name / recall expression",
            Expectation::NothingAfterTag => "nothing following a tag",
        };
        crate::text::owned(s)
    }
}

/// A tokenizer failure: a grammar rejected the input at a column, or an
/// escape sequence was malformed.
#[derive(Debug, Clone, Copy, PartialEq, Eq, Structural)]
pub enum SyntaxError {
    Expected(usize, Expectation),
    BadEscSeq(usize, char),
}

/// A token of a line: ordinary text, or a delimiter that separated two texts.
#[derive(Debug, Clone)]
pub enum TokenType {
    Delim(String),
    Normal(String),
}

/// The mathematical form of a token.
pub enum Tok {
    Delim(Seq<char>),
    Normal(Seq<char>),
}

impl View for TokenType {
    type V = Tok;

    open spec fn view(&self) -> Tok {
        match self {
            TokenType::Delim(s) => Tok::Delim(s@),
            TokenType::Normal(s) => Tok::Normal(s@),
        }
    }
}

impl Tok {
    pub open spec fn text(self) -> Seq<char> {
        match self {
            Tok::Delim(s) => s,
            Tok::Normal(s) => s,
        }
    }
}

pub open spec fn toks_of(v: Seq<TokenType>) -> Seq<Tok> {
    v.map_values(|t: TokenType| t@)
}

impl TokenType {
    /// The token's text.
    pub fn unwrap(self) -> (r: String)
        ensures
            r@ == self@.text(),
    {
        match self {
            TokenType::Delim(tok) => tok,
            TokenType::Normal(tok) => tok,
        }
    }

    /// The token's text, borrowed.
    pub fn peek(&self) -> (r: &String)
        ensures
            r@ == self@.text(),
    {
        match self {
            TokenType::Delim(tok) => tok,
            TokenType::Normal(tok) => tok,
        }
    }

    /// A copy of the token.
    pub fn duplicate(&self) -> (r: TokenType)
        ensures
            r@ == self@,
    {
        match self {
            TokenType::Delim(tok) => TokenType::Delim(tok.clone()),
            TokenType::Normal(tok) => TokenType::Normal(tok.clone()),
        }
    }

    /// Whether the token's text is empty.
    pub fn is_empty(&self) -> (r: bool)
        ensures
            r == (self@.text().len() == 0),
    {
        match self {
            TokenType::Delim(tok) => tok.as_str().is_empty(),
            TokenType::Normal(tok) => tok.as_str().is_empty(),
        }
    }
}

/// A grammar that the tokenizer is driven by: it classifies characters and
/// follows the tokens as they are produced, accepting or rejecting the line.
pub trait SyntaxChecker: Sized {
    spec fn spec_is_esc(&self, ch: char) -> bool;

    spec fn spec_is_comment(&self, ch: char) -> bool;

    spec fn spec_is_delim(&self, ch: char) -> bool;

    spec fn spec_is_preserved_delim(&self, ch: char) -> bool;

    spec fn spec_esc_char(&self) -> char;

    spec fn spec_valid(&self) -> bool;

    spec fn spec_esc_set(&self) -> bool;

    /// The state after a token has been fed.
    spec fn spec_fed(&self, token: Seq<char>, delim: bool) -> Self;

    /// The state after the escape flag has been set or cleared.
    spec fn spec_with_esc(&self, set: bool) -> Self;

    /// The judgement on the state, at a column, with or without more input to come.
    spec fn spec_check(&self, index: nat, more_tokens: bool) -> Result<(), SyntaxError>;

    /// The initial state.
    spec fn spec_fresh(&self) -> bool;

    fn feed_token(&mut self, token: &Vec<char>, delim: bool) -> (r: bool)
        ensures
            *final(self) == old(self).spec_fed(token@, delim),
            r == final(self).spec_valid(),
    ;

    fn is_esc(&self, ch: char) -> (r: bool)
        ensures
            r == self.spec_is_esc(ch),
    ;

    fn is_comment(&self, ch: char) -> (r: bool)
        ensures
            r == self.spec_is_comment(ch),
    ;

    fn is_delim(&self, ch: char) -> (r: bool)
        ensures
            r == self.spec_is_delim(ch),
    ;

    fn is_preserved_delim(&self, ch: char) -> (r: bool)
        ensures
            r == self.spec_is_preserved_delim(ch),
    ;

    fn esc_char(&self) -> (r: char)
        ensures
            r == self.spec_esc_char(),
    ;

    fn valid(&self) -> (r: bool)
        ensures
            r == self.spec_valid(),
    ;

    fn assert_valid(&self, index: usize, more_tokens: bool) -> (r: Result<(), SyntaxError>)
        ensures
            r == self.spec_check(index as nat, more_tokens),
    ;

    fn esc_set(&self) -> (r: bool)
        ensures
            r == self.spec_esc_set(),
    ;

    fn set_esc(&mut self, set: bool)
        ensures
            *final(self) == old(self).spec_with_esc(set),
    ;

    fn reset(&mut self)
        ensures
            final(self).spec_fresh(),
    ;
}

/// Where a scan stands between two characters.
pub struct ScanState<S> {
    pub checker: S,
    pub buffer: Seq<char>,
    pub tokens: Seq<Tok>,
    pub delim_pushed: bool,
    pub last: nat,
    pub last_ch: char,
}

/// The escape error reported at the end of a scan or at a bad escaped character.
pub open spec fn bad_escape<S: SyntaxChecker>(c: S, index: nat, ch: char) -> SyntaxError {
    SyntaxError::BadEscSeq(index as usize, if ch == c.spec_esc_char() { '\0' } else { ch })
}

/// The end of a scan: pending escape, final flush and exit validation.
pub open spec fn finish<S: SyntaxChecker>(st: ScanState<S>) -> (Result<Seq<Tok>, SyntaxError>, S) {
    let c = st.checker;
    if c.spec_esc_set() {
        (Err(bad_escape(c, st.last, st.last_ch)), c)
    } else if st.buffer.len() > 0 || st.delim_pushed {
        let c2 = c.spec_fed(st.buffer, false);
        let toks = st.tokens.push(Tok::Normal(st.buffer));
        match c2.spec_check(st.last, false) {
            Ok(_) => (Ok(toks), c2),
            Err(e) => (Err(e), c2),
        }
    } else {
        match c.spec_check(st.last, false) {
            Ok(_) => (Ok(st.tokens), c),
            Err(e) => (Err(e), c),
        }
    }
}

/// The outcome of consuming one character: a new state, or the end of the scan.
pub enum Step<S> {
    Next(ScanState<S>),
    Stop(Result<Seq<Tok>, SyntaxError>, S),
}

/// Consuming character `i` of `line` in state `st`, before the grammar's judgement.
pub open spec fn step<S: SyntaxChecker>(line: Seq<char>, i: nat, st: ScanState<S>) -> Step<S> {
    let ch = line[i as int];
    let c = st.checker;
    if c.spec_is_esc(ch) && !c.spec_esc_set() {
        Step::Next(ScanState { checker: c.spec_with_esc(true), ..st })
    } else if c.spec_esc_set() {
        if c.spec_is_delim(ch) || c.spec_is_esc(ch) || c.spec_is_comment(ch) {
            Step::Next(
                ScanState {
                    checker: c.spec_with_esc(false),
                    buffer: st.buffer.push(ch),
                    delim_pushed: false,
                    ..st
                },
            )
        } else if c.spec_is_preserved_delim(ch) {
            Step::Next(
                ScanState {
                    checker: c.spec_with_esc(false),
                    buffer: st.buffer.push(c.spec_esc_char()).push(ch),
                    delim_pushed: false,
                    ..st
                },
            )
        } else {
            Step::Stop(Err(bad_escape(c, i, ch)), c)
        }
    } else if c.spec_is_delim(ch) {
        Step::Next(
            ScanState {
                checker: c.spec_fed(st.buffer, false).spec_fed(seq![ch], true),
                buffer: Seq::empty(),
                tokens: st.tokens.push(Tok::Normal(st.buffer)).push(Tok::Delim(seq![ch])),
                delim_pushed: true,
                ..st
            },
        )
    } else if c.spec_is_comment(ch) {
        let c2 = c.spec_fed(st.buffer, false);
        let toks = st.tokens.push(Tok::Normal(st.buffer));
        match c2.spec_check(i, false) {
            Ok(_) => Step::Stop(Ok(toks), c2),
            Err(e) => Step::Stop(Err(e), c2),
        }
    } else {
        Step::Next(ScanState { buffer: st.buffer.push(ch), delim_pushed: false, ..st })
    }
}

/// `st` once character `i`, `ch`, has been accepted.
pub open spec fn moved_past<S>(st: ScanState<S>, i: nat, ch: char) -> ScanState<S> {
    ScanState {
        checker: st.checker,
        buffer: st.buffer,
        tokens: st.tokens,
        delim_pushed: st.delim_pushed,
        last: i,
        last_ch: ch,
    }
}

/// The scan of `line` from character `i` on, in state `st`: the tokens or the
/// error, and the grammar's state afterwards.
pub open spec fn scan<S: SyntaxChecker>(line: Seq<char>, i: nat, st: ScanState<S>) -> (
    Result<Seq<Tok>, SyntaxError>,
    S,
)
    decreases line.len() - i,
{
    if i >= line.len() {
        finish(st)
    } else {
        match step(line, i, st) {
            Step::Stop(r, c) => (r, c),
            Step::Next(s2) => match s2.checker.spec_check(i, true) {
                Err(e) => (Err(e), s2.checker),
                Ok(_) => scan(line, i + 1, moved_past(s2, i, line[i as int])),
            },
        }
    }
}

/// What tokenizing `line` under grammar state `c` gives: the tokens or the
/// error, and the grammar's state afterwards.
pub open spec fn tokenize_spec<S: SyntaxChecker>(line: Seq<char>, c: S) -> (
    Result<Seq<Tok>, SyntaxError>,
    S,
) {
    if line.len() == 0 {
        (Ok(seq![Tok::Normal(Seq::empty())]), c)
    } else {
        scan(
            line,
            0,
            ScanState {
                checker: c,
                buffer: Seq::empty(),
                tokens: Seq::empty(),
                delim_pushed: false,
                last: 0,
                last_ch: '\0',
            },
        )
    }
}

pub proof fn lemma_scan_next<S: SyntaxChecker>(line: Seq<char>, i: nat, st: ScanState<S>, s2: ScanState<S>)
    requires
        i < line.len(),
        step(line, i, st) == Step::Next(s2),
        s2.checker.spec_check(i, true) is Ok,
    ensures
        scan(line, i, st) == scan(line, i + 1, moved_past(s2, i, line[i as int])),
{
}

pub open spec fn tokens_view(r: Result<Vec<TokenType>, SyntaxError>) -> Result<Seq<Tok>, SyntaxError> {
    match r {
        Ok(v) => Ok(toks_of(v@)),
        Err(e) => Err(e),
    }
}

fn push_text(tokens: &mut Vec<TokenType>, buffer: &Vec<char>, delim: bool)
    ensures
        toks_of(final(tokens)@) == toks_of(old(tokens)@).push(
            if delim {
                Tok::Delim(buffer@)
            } else {
                Tok::Normal(buffer@)
            },
        ),
{
    let s = string_of(buffer);
    let t = if delim {
        TokenType::Delim(s)
    } else {
        TokenType::Normal(s)
    };
    let ghost before = tokens@;
    tokens.push(t);
    assert(toks_of(tokens@) =~= toks_of(before).push(t@));
}

/// Splits `line` into tokens as the grammar `checker` directs, validating as it goes.
///
/// Delimiters separate tokens even where a side is empty, so blank tokens
/// appear around chained delimiters and at the ends of the line. Everything
/// from a comment character on is dropped.
pub fn tokenize<S: SyntaxChecker>(line: &str, checker: &mut S) -> (r: Result<Vec<TokenType>, SyntaxError>)
    ensures
        tokens_view(r) == tokenize_spec(line@, *old(checker)).0,
        *final(checker) == tokenize_spec(line@, *old(checker)).1,
{
    let chars = chars_of(line);
    let n = chars.len();
    if n == 0 {
        let mut tokens: Vec<TokenType> = Vec::new();
        let empty: Vec<char> = Vec::new();
        push_text(&mut tokens, &empty, false);
        assert(toks_of(tokens@) =~= seq![Tok::Normal(Seq::empty())]);
        return Ok(tokens);
    }
    let ghost st0 = ScanState {
        checker: *checker,
        buffer: Seq::<char>::empty(),
        tokens: Seq::<Tok>::empty(),
        delim_pushed: false,
        last: 0nat,
        last_ch: '\0',
    };
    let ghost goal = scan(chars@, 0, st0);
    let mut buffer: Vec<char> = Vec::new();
    let mut tokens: Vec<TokenType> = Vec::new();
    let mut delim_pushed = false;
    let mut last: usize = 0;
    let mut last_ch: char = '\0';
    let mut i: usize = 0;
    assert(toks_of(tokens@) =~= Seq::<Tok>::empty());
    while i < n
        invariant
            n == chars@.len(),
            chars@ == line@,
            i <= n,
            goal == tokenize_spec(line@, *old(checker)),
            scan(
                chars@,
                i as nat,
                ScanState {
                    checker: *checker,
                    buffer: buffer@,
                    tokens: toks_of(tokens@),
                    delim_pushed,
                    last: last as nat,
                    last_ch,
                },
            ) == goal,
        decreases n - i,
    {
        let ch = chars[i];
        let ghost st = ScanState {
            checker: *checker,
            buffer: buffer@,
            tokens: toks_of(tokens@),
            delim_pushed,
            last: last as nat,
            last_ch,
        };
        if checker.is_esc(ch) && !checker.esc_set() {
            checker.set_esc(true);
        } else if checker.esc_set() {
            if checker.is_delim(ch) || checker.is_esc(ch) || checker.is_comment(ch) {
                buffer.push(ch);
                checker.set_esc(false);
                delim_pushed = false;
            } else if checker.is_preserved_delim(ch) {
                let e = checker.esc_char();
                buffer.push(e);
                buffer.push(ch);
                checker.set_esc(false);
                delim_pushed = false;
            } else {
                return Err(SyntaxError::BadEscSeq(i, if ch == checker.esc_char() { '\0' } else { ch }));
            }
        } else if checker.is_delim(ch) {
            checker.feed_token(&buffer, false);
            push_text(&mut tokens, &buffer, false);
            buffer.clear();
            buffer.push(ch);
            checker.feed_token(&buffer, true);
            push_text(&mut tokens, &buffer, true);
            buffer.clear();
            delim_pushed = true;
            assert(buffer@ =~= Seq::<char>::empty());
        } else if checker.is_comment(ch) {
            checker.feed_token(&buffer, false);
            push_text(&mut tokens, &buffer, false);
            match checker.assert_valid(i, false) {
                Ok(_) => return Ok(tokens),
                Err(e) => return Err(e),
            }
        } else {
            buffer.push(ch);
            delim_pushed = false;
        }
        let ghost st_after = ScanState {
            checker: *checker,
            buffer: buffer@,
            tokens: toks_of(tokens@),
            delim_pushed,
            last: last as nat,
            last_ch,
        };
        assert(step(chars@, i as nat, st) == Step::Next(st_after));
        match checker.assert_valid(i, true) {
            Ok(_) => {},
            Err(e) => return Err(e),
        }
        proof {
            lemma_scan_next(chars@, i as nat, st, st_after);
            assert(moved_past(st_after, i as nat, chars@[i as int]) == ScanState { last: i as nat, last_ch: ch, ..st_after });
        }
        last = i;
        last_ch = ch;
        i = i + 1;
    }
    if checker.esc_set() {
        return Err(SyntaxError::BadEscSeq(last, if last_ch == checker.esc_char() { '\0' } else { last_ch }));
    }
    if buffer.len() > 0 || delim_pushed {
        checker.feed_token(&buffer, false);
        push_text(&mut tokens, &buffer, false);
    }
    match checker.assert_valid(last, false) {
        Ok(_) => Ok(tokens),
        Err(e) => Err(e),
    }
}

/// No character of `s` is an escape, delimiter or comment character for `c`.
pub open spec fn plain_for<S: SyntaxChecker>(c: S, s: Seq<char>) -> bool {
    forall|k: int| 0 <= k < s.len() ==> !c.spec_is_esc(#[trigger] s[k]) && !c.spec_is_delim(s[k]) && !c.spec_is_comment(s[k])
}

/// The scan state after the plain characters `line[i..j]` went into the buffer.
pub open spec fn after_plain<S>(line: Seq<char>, i: nat, j: nat, st: ScanState<S>) -> ScanState<S> {
    ScanState {
        checker: st.checker,
        buffer: st.buffer + line.subrange(i as int, j as int),
        tokens: st.tokens,
        delim_pushed: false,
        last: (j - 1) as nat,
        last_ch: line[j - 1],
    }
}

/// A run of plain characters, each accepted by the grammar, only grows the buffer.
pub proof fn lemma_scan_plain<S: SyntaxChecker>(line: Seq<char>, i: nat, j: nat, st: ScanState<S>)
    requires
        i < j <= line.len(),
        !st.checker.spec_esc_set(),
        plain_for(st.checker, line.subrange(i as int, j as int)),
        forall|k: nat| i <= k < j ==> (#[trigger] st.checker.spec_check(k, true)) is Ok,
    ensures
        scan(line, i, st) == scan(line, j, after_plain(line, i, j, st)),
    decreases j - i,
{
    let ch = line[i as int];
    assert(line.subrange(i as int, j as int)[0] == ch);
    assert(st.checker.spec_check(i, true) is Ok);
    let s1 = ScanState { buffer: st.buffer.push(ch), delim_pushed: false, ..st };
    assert(step(line, i, st) == Step::Next(s1));
    lemma_scan_next(line, i, st, s1);
    let m1 = moved_past(s1, i, ch);
    if i + 1 < j {
        assert forall|k: int| 0 <= k < line.subrange(i as int + 1, j as int).len() implies !m1.checker.spec_is_esc(#[trigger] line.subrange(i as int + 1, j as int)[k])
            && !m1.checker.spec_is_delim(line.subrange(i as int + 1, j as int)[k]) && !m1.checker.spec_is_comment(line.subrange(i as int + 1, j as int)[k]) by {
            assert(line.subrange(i as int + 1, j as int)[k] == line.subrange(i as int, j as int)[k + 1]);
        }
        lemma_scan_plain(line, i + 1, j, m1);
        assert(m1.buffer + line.subrange(i as int + 1, j as int) =~= st.buffer + line.subrange(i as int, j as int));
    } else {
        assert(st.buffer.push(ch) =~= st.buffer + line.subrange(i as int, j as int));
    }
}

} // verus!

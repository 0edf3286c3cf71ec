//! The units-file line grammar and its semantic layer.
use vstd::prelude::*;
use crate::text::{is_text, trim, trimmed, string_of};
use crate::token::{Expectation, SyntaxChecker, SyntaxError, Tok, TokenType, tokenize, tokenize_spec, toks_of};
use crate::floatlit::{float_literal, is_float_literal};
use crate::units::UnitType;

verus! {

/// States of the units-file line grammar: what is expected next.
#[derive(Debug, Clone, Copy, PartialEq, Eq, Structural)]
pub enum PropCheckState {
    OpenBrace,
    CloseBrace,
    Equals,
    Comma,
    Key,
    CommonName,
    Value,
    Validate,
}

/// The grammar of one units-file line: `[Name]`, `key = value` or
/// `key = v1, v2, ...` (lists only for `aliases` and `tags`).
#[derive(Debug, Clone, Copy, PartialEq, Eq, Structural)]
pub struct UnitPropertyCheck {
    pub esc_set: bool,
    pub single_val_field: bool,
    pub state: PropCheckState,
    pub valid: bool,
}

/// Keys whose value may be a list.
pub open spec fn list_key(k: Seq<char>) -> bool {
    k == "aliases"@ || k == "tags"@
}

impl UnitPropertyCheck {
    pub fn new() -> (r: UnitPropertyCheck)
        ensures
            r.spec_fresh(),
            !r.single_val_field,
    {
        UnitPropertyCheck { esc_set: false, single_val_field: false, state: PropCheckState::Key, valid: true }
    }

    pub open spec fn invalid(self) -> Self {
        UnitPropertyCheck { valid: false, ..self }
    }

    pub open spec fn spec_check_delim(self, token: Seq<char>) -> Self {
        match self.state {
            PropCheckState::OpenBrace => if token == seq!['['] {
                UnitPropertyCheck { state: PropCheckState::CommonName, ..self }
            } else {
                self.invalid()
            },
            PropCheckState::CloseBrace => if token == seq![']'] {
                UnitPropertyCheck { state: PropCheckState::Validate, ..self }
            } else {
                self.invalid()
            },
            PropCheckState::Equals => if token == seq!['='] {
                UnitPropertyCheck { state: PropCheckState::Value, ..self }
            } else {
                self.invalid()
            },
            PropCheckState::Comma => if token == seq![','] {
                UnitPropertyCheck { state: PropCheckState::Value, ..self }
            } else {
                self.invalid()
            },
            _ => self.invalid(),
        }
    }

    pub open spec fn spec_check_normal(self, token: Seq<char>) -> Self {
        match self.state {
            PropCheckState::Key => if trimmed(token).len() == 0 {
                UnitPropertyCheck { state: PropCheckState::OpenBrace, ..self }
            } else if !list_key(trimmed(token)) {
                UnitPropertyCheck { state: PropCheckState::Equals, single_val_field: true, ..self }
            } else {
                UnitPropertyCheck { state: PropCheckState::Equals, ..self }
            },
            PropCheckState::Value => if self.single_val_field {
                UnitPropertyCheck { state: PropCheckState::Validate, ..self }
            } else {
                UnitPropertyCheck { state: PropCheckState::Comma, ..self }
            },
            PropCheckState::CommonName => UnitPropertyCheck { state: PropCheckState::CloseBrace, ..self },
            PropCheckState::Validate => if trimmed(token).len() != 0 {
                self.invalid()
            } else {
                self
            },
            _ => self.invalid(),
        }
    }

    fn check_delim(&mut self, token: &Vec<char>)
        ensures
            *final(self) == old(self).spec_check_delim(token@),
    {
        let one = token.len() == 1;
        match self.state {
            PropCheckState::OpenBrace => {
                if one && token[0] == '[' {
                    self.state = PropCheckState::CommonName;
                } else {
                    self.valid = false;
                }
            },
            PropCheckState::CloseBrace => {
                if one && token[0] == ']' {
                    self.state = PropCheckState::Validate;
                } else {
                    self.valid = false;
                }
            },
            PropCheckState::Equals => {
                if one && token[0] == '=' {
                    self.state = PropCheckState::Value;
                } else {
                    self.valid = false;
                }
            },
            PropCheckState::Comma => {
                if one && token[0] == ',' {
                    self.state = PropCheckState::Value;
                } else {
                    self.valid = false;
                }
            },
            _ => {
                self.valid = false;
            },
        }
        proof {
            if one {
                assert(token@ =~= seq![token@[0]]);
            }
        }
    }

    fn check_normal(&mut self, token: &Vec<char>)
        ensures
            *final(self) == old(self).spec_check_normal(token@),
    {
        match self.state {
            PropCheckState::Key => {
                let t = trim(token);
                if t.len() == 0 {
                    self.state = PropCheckState::OpenBrace;
                } else if !(is_text(&t, "aliases") || is_text(&t, "tags")) {
                    self.state = PropCheckState::Equals;
                    self.single_val_field = true;
                } else {
                    self.state = PropCheckState::Equals;
                }
            },
            PropCheckState::Value => {
                if self.single_val_field {
                    self.state = PropCheckState::Validate;
                } else {
                    self.state = PropCheckState::Comma;
                }
            },
            PropCheckState::CommonName => {
                self.state = PropCheckState::CloseBrace;
            },
            PropCheckState::Validate => {
                let t = trim(token);
                if t.len() != 0 {
                    self.valid = false;
                }
            },
            _ => {
                self.valid = false;
            },
        }
    }
}

impl SyntaxChecker for UnitPropertyCheck {
    open spec fn spec_is_esc(&self, ch: char) -> bool {
        ch == '\\'
    }

    open spec fn spec_is_comment(&self, ch: char) -> bool {
        ch == '#'
    }

    open spec fn spec_is_delim(&self, ch: char) -> bool {
        ch == '[' || ch == ']' || ch == ',' || ch == '='
    }

    open spec fn spec_is_preserved_delim(&self, ch: char) -> bool {
        false
    }

    open spec fn spec_esc_char(&self) -> char {
        '\\'
    }

    open spec fn spec_valid(&self) -> bool {
        self.valid
    }

    open spec fn spec_esc_set(&self) -> bool {
        self.esc_set
    }

    open spec fn spec_fed(&self, token: Seq<char>, delim: bool) -> Self {
        if delim {
            self.spec_check_delim(token)
        } else {
            self.spec_check_normal(token)
        }
    }

    open spec fn spec_with_esc(&self, set: bool) -> Self {
        UnitPropertyCheck { esc_set: set, ..*self }
    }

    open spec fn spec_check(&self, index: nat, more_tokens: bool) -> Result<(), SyntaxError> {
        let i = index as usize;
        if (!more_tokens || !self.valid) && self.state == PropCheckState::CloseBrace {
            Err(SyntaxError::Expected(i, Expectation::CloseBrace))
        } else if (!more_tokens || !self.valid) && self.state == PropCheckState::Equals {
            Err(SyntaxError::Expected(i, Expectation::EqualsSign))
        } else if (!more_tokens || !self.valid) && self.state == PropCheckState::CommonName {
            Err(SyntaxError::Expected(i, Expectation::TokenAfterBrace))
        } else if !self.valid && self.state == PropCheckState::OpenBrace {
            Err(SyntaxError::Expected(i, Expectation::OpenBrace))
        } else if !self.valid && self.state == PropCheckState::Comma {
            Err(SyntaxError::Expected(i, Expectation::Comma))
        } else if !self.valid && self.state == PropCheckState::Validate {
            Err(SyntaxError::Expected(i, Expectation::WhitespaceOrComment))
        } else {
            Ok(())
        }
    }

    open spec fn spec_fresh(&self) -> bool {
        self.valid && self.state == PropCheckState::Key && !self.esc_set
    }

    fn feed_token(&mut self, token: &Vec<char>, delim: bool) -> (r: bool) {
        if delim {
            self.check_delim(token);
        } else {
            self.check_normal(token);
        }
        self.valid
    }

    fn is_esc(&self, ch: char) -> (r: bool) {
        ch == '\\'
    }

    fn is_comment(&self, ch: char) -> (r: bool) {
        ch == '#'
    }

    fn is_delim(&self, ch: char) -> (r: bool) {
        ch == '[' || ch == ']' || ch == ',' || ch == '='
    }

    fn is_preserved_delim(&self, ch: char) -> (r: bool) {
        false
    }

    fn esc_char(&self) -> (r: char) {
        '\\'
    }

    fn valid(&self) -> (r: bool) {
        self.valid
    }

    fn assert_valid(&self, index: usize, more_tokens: bool) -> (r: Result<(), SyntaxError>) {
        if !more_tokens || !self.valid {
            match self.state {
                PropCheckState::CloseBrace => {
                    return Err(SyntaxError::Expected(index, Expectation::CloseBrace));
                },
                PropCheckState::Equals => {
                    return Err(SyntaxError::Expected(index, Expectation::EqualsSign));
                },
                PropCheckState::CommonName => {
                    return Err(SyntaxError::Expected(index, Expectation::TokenAfterBrace));
                },
                _ => {},
            }
        }
        if !self.valid {
            match self.state {
                PropCheckState::OpenBrace => {
                    return Err(SyntaxError::Expected(index, Expectation::OpenBrace));
                },
                PropCheckState::Comma => {
                    return Err(SyntaxError::Expected(index, Expectation::Comma));
                },
                PropCheckState::Validate => {
                    return Err(SyntaxError::Expected(index, Expectation::WhitespaceOrComment));
                },
                _ => {},
            }
        }
        Ok(())
    }

    fn esc_set(&self) -> (r: bool) {
        self.esc_set
    }

    fn set_esc(&mut self, set: bool) {
        self.esc_set = set;
    }

    fn reset(&mut self) {
        self.valid = true;
        self.state = PropCheckState::Key;
        self.esc_set = false;
    }
}

/// One property of a unit, as a units-file line states it. Numeric fields
/// keep the literal as written; it is a float literal.
#[derive(Debug, Clone)]
pub enum UnitProperty {
    CommonName(String),
    Aliases(Vec<String>),
    UnitType(UnitType),
    ConvFactor(String),
    ZeroPoint(String),
    Dimensions(String),
    Inverse(String),
    Tags(Vec<String>),
}

pub enum PropertyView {
    CommonName(Seq<char>),
    Aliases(Seq<Seq<char>>),
    UnitType(UnitType),
    ConvFactor(Seq<char>),
    ZeroPoint(Seq<char>),
    Dimensions(Seq<char>),
    Inverse(Seq<char>),
    Tags(Seq<Seq<char>>),
}

pub open spec fn strs_of(v: Seq<String>) -> Seq<Seq<char>> {
    v.map_values(|s: String| s@)
}

impl View for UnitProperty {
    type V = PropertyView;

    open spec fn view(&self) -> PropertyView {
        match self {
            UnitProperty::CommonName(s) => PropertyView::CommonName(s@),
            UnitProperty::Aliases(v) => PropertyView::Aliases(strs_of(v@)),
            UnitProperty::UnitType(t) => PropertyView::UnitType(*t),
            UnitProperty::ConvFactor(s) => PropertyView::ConvFactor(s@),
            UnitProperty::ZeroPoint(s) => PropertyView::ZeroPoint(s@),
            UnitProperty::Dimensions(s) => PropertyView::Dimensions(s@),
            UnitProperty::Inverse(s) => PropertyView::Inverse(s@),
            UnitProperty::Tags(v) => PropertyView::Tags(strs_of(v@)),
        }
    }
}

/// Why a units-file line was rejected.
#[derive(Debug, Clone)]
pub enum ConfigPropertyError {
    Syntax(SyntaxError),
    NoSuchProperty(String),
    NoSuchType(String),
    EmptyField(String),
    InvalidField(String),
}

pub enum ConfigErrorView {
    Syntax(SyntaxError),
    NoSuchProperty(Seq<char>),
    NoSuchType(Seq<char>),
    EmptyField(Seq<char>),
    InvalidField(Seq<char>),
}

impl View for ConfigPropertyError {
    type V = ConfigErrorView;

    open spec fn view(&self) -> ConfigErrorView {
        match self {
            ConfigPropertyError::Syntax(e) => ConfigErrorView::Syntax(*e),
            ConfigPropertyError::NoSuchProperty(s) => ConfigErrorView::NoSuchProperty(s@),
            ConfigPropertyError::NoSuchType(s) => ConfigErrorView::NoSuchType(s@),
            ConfigPropertyError::EmptyField(s) => ConfigErrorView::EmptyField(s@),
            ConfigPropertyError::InvalidField(s) => ConfigErrorView::InvalidField(s@),
        }
    }
}

/// The category named `s`, if any.
pub open spec fn unit_type_named(s: Seq<char>) -> Option<UnitType> {
    if s == "area"@ {
        Some(UnitType::Area)
    } else if s == "energy"@ {
        Some(UnitType::Energy)
    } else if s == "force"@ {
        Some(UnitType::Force)
    } else if s == "fuel economy"@ {
        Some(UnitType::FuelEconomy)
    } else if s == "length"@ {
        Some(UnitType::Length)
    } else if s == "mass"@ {
        Some(UnitType::Mass)
    } else if s == "power"@ {
        Some(UnitType::Power)
    } else if s == "pressure"@ {
        Some(UnitType::Pressure)
    } else if s == "speed"@ {
        Some(UnitType::Speed)
    } else if s == "temperature"@ {
        Some(UnitType::Temperature)
    } else if s == "torque"@ {
        Some(UnitType::Torque)
    } else if s == "volume"@ {
        Some(UnitType::Volume)
    } else {
        None
    }
}

/// The category that a `type = ...` value names, or `NoSuchType`.
pub fn get_unit_type(requested_type: String) -> (r: Result<UnitType, ConfigPropertyError>)
    ensures
        unit_type_named(requested_type@) is Some ==> r == Ok::<UnitType, ConfigPropertyError>(
            unit_type_named(requested_type@)->0,
        ),
        unit_type_named(requested_type@) is None ==> r is Err && r->Err_0@ == ConfigErrorView::NoSuchType(
            requested_type@,
        ),
{
    let t = crate::text::chars_of(requested_type.as_str());
    if is_text(&t, "area") {
        Ok(UnitType::Area)
    } else if is_text(&t, "energy") {
        Ok(UnitType::Energy)
    } else if is_text(&t, "force") {
        Ok(UnitType::Force)
    } else if is_text(&t, "fuel economy") {
        Ok(UnitType::FuelEconomy)
    } else if is_text(&t, "length") {
        Ok(UnitType::Length)
    } else if is_text(&t, "mass") {
        Ok(UnitType::Mass)
    } else if is_text(&t, "power") {
        Ok(UnitType::Power)
    } else if is_text(&t, "pressure") {
        Ok(UnitType::Pressure)
    } else if is_text(&t, "speed") {
        Ok(UnitType::Speed)
    } else if is_text(&t, "temperature") {
        Ok(UnitType::Temperature)
    } else if is_text(&t, "torque") {
        Ok(UnitType::Torque)
    } else if is_text(&t, "volume") {
        Ok(UnitType::Volume)
    } else {
        Err(ConfigPropertyError::NoSuchType(requested_type))
    }
}

pub open spec fn config_start() -> UnitPropertyCheck {
    UnitPropertyCheck { esc_set: false, single_val_field: false, state: PropCheckState::Key, valid: true }
}

pub open spec fn trim_tok(t: Tok) -> Tok {
    match t {
        Tok::Delim(s) => Tok::Delim(trimmed(s)),
        Tok::Normal(s) => Tok::Normal(trimmed(s)),
    }
}

/// The tokens trimmed of white space, blank ones dropped.
pub open spec fn clean(toks: Seq<Tok>) -> Seq<Tok>
    decreases toks.len(),
{
    if toks.len() == 0 {
        Seq::empty()
    } else {
        let t = trim_tok(toks.last());
        let rest = clean(toks.drop_last());
        if t.text().len() == 0 {
            rest
        } else {
            rest.push(t)
        }
    }
}

/// The texts of the ordinary tokens, in order.
pub open spec fn normal_texts(toks: Seq<Tok>) -> Seq<Seq<char>>
    decreases toks.len(),
{
    if toks.len() == 0 {
        Seq::empty()
    } else {
        let rest = normal_texts(toks.drop_last());
        match toks.last() {
            Tok::Normal(s) => rest.push(s),
            Tok::Delim(_) => rest,
        }
    }
}

/// The numeric property that key `k` with literal `v` states, if `k` is a numeric key.
pub open spec fn numeric_property(k: Seq<char>, v: Seq<char>) -> Option<PropertyView> {
    if k == "conv_factor"@ {
        Some(PropertyView::ConvFactor(v))
    } else if k == "zero_point"@ {
        Some(PropertyView::ZeroPoint(v))
    } else if k == "dimensions"@ {
        Some(PropertyView::Dimensions(v))
    } else if k == "inverse"@ {
        Some(PropertyView::Inverse(v))
    } else {
        None
    }
}

/// The meaning of a `key = ...` line, from its cleaned tokens.
pub open spec fn key_value_spec(f: Seq<Tok>) -> Result<PropertyView, ConfigErrorView> {
    let key = f[0].text();
    if list_key(key) {
        let vals = normal_texts(f.drop_first());
        if vals.len() == 0 {
            Err(ConfigErrorView::EmptyField(key))
        } else if key == "aliases"@ {
            Ok(PropertyView::Aliases(vals))
        } else {
            Ok(PropertyView::Tags(vals))
        }
    } else if numeric_property(key, Seq::empty()) is Some {
        if f.len() < 3 {
            Err(ConfigErrorView::EmptyField(key))
        } else if !float_literal(f[2].text()) {
            Err(ConfigErrorView::InvalidField(f[2].text()))
        } else {
            Ok(numeric_property(key, f[2].text())->0)
        }
    } else if key == "type"@ {
        if f.len() < 3 {
            Err(ConfigErrorView::EmptyField(key))
        } else {
            match unit_type_named(f[2].text()) {
                Some(t) => Ok(PropertyView::UnitType(t)),
                None => Err(ConfigErrorView::NoSuchType(f[2].text())),
            }
        }
    } else {
        Err(ConfigErrorView::NoSuchProperty(key))
    }
}

/// The meaning of a `[Name]` line, from its cleaned tokens.
pub open spec fn common_name_spec(f: Seq<Tok>) -> Result<PropertyView, ConfigErrorView> {
    if f.len() != 3 {
        Err(ConfigErrorView::EmptyField("common name"@))
    } else {
        Ok(PropertyView::CommonName(f[1].text()))
    }
}

pub open spec fn some_prop(r: Result<PropertyView, ConfigErrorView>) -> Result<Option<PropertyView>, ConfigErrorView> {
    match r {
        Ok(p) => Ok(Some(p)),
        Err(e) => Err(e),
    }
}

/// The meaning of a line from its cleaned tokens: nothing for a blank or comment line.
pub open spec fn property_spec(f: Seq<Tok>) -> Result<Option<PropertyView>, ConfigErrorView> {
    if f.len() == 0 {
        Ok(None)
    } else {
        match f[0] {
            Tok::Delim(d) => if d == seq!['['] {
                some_prop(common_name_spec(f))
            } else {
                Err(ConfigErrorView::Syntax(SyntaxError::Expected(0, Expectation::OpenBrace)))
            },
            Tok::Normal(_) => some_prop(key_value_spec(f)),
        }
    }
}

/// What a units-file line states: a property, nothing, or why it was rejected.
pub open spec fn parse_line_spec(line: Seq<char>) -> Result<Option<PropertyView>, ConfigErrorView> {
    match tokenize_spec(line, config_start()).0 {
        Err(e) => Err(ConfigErrorView::Syntax(e)),
        Ok(toks) => property_spec(clean(toks)),
    }
}

pub open spec fn line_view(r: Result<Option<UnitProperty>, ConfigPropertyError>) -> Result<Option<PropertyView>, ConfigErrorView> {
    match r {
        Ok(Some(p)) => Ok(Some(p@)),
        Ok(None) => Ok(None),
        Err(e) => Err(e@),
    }
}

fn text_of(t: &TokenType) -> (r: Vec<char>)
    ensures
        r@ == t@.text(),
{
    crate::text::chars_of(t.peek().as_str())
}

/// The tokens trimmed of white space, blank ones dropped.
fn clean_tokens(raw: &Vec<TokenType>) -> (r: Vec<TokenType>)
    ensures
        toks_of(r@) == clean(toks_of(raw@)),
{
    let mut out: Vec<TokenType> = Vec::new();
    let mut i: usize = 0;
    assert(toks_of(raw@).subrange(0, 0) =~= Seq::<Tok>::empty());
    assert(toks_of(out@) =~= Seq::<Tok>::empty());
    while i < raw.len()
        invariant
            i <= raw@.len(),
            toks_of(out@) == clean(toks_of(raw@).subrange(0, i as int)),
        decreases raw.len() - i,
    {
        let cs = text_of(&raw[i]);
        let tr = trim(&cs);
        let ghost before = out@;
        let ghost pre = toks_of(raw@).subrange(0, i as int);
        let ghost next = toks_of(raw@).subrange(0, i + 1);
        assert(next.drop_last() =~= pre);
        assert(next.last() == raw@[i as int]@);
        if tr.len() > 0 {
            let t = match &raw[i] {
                TokenType::Delim(_) => TokenType::Delim(string_of(&tr)),
                TokenType::Normal(_) => TokenType::Normal(string_of(&tr)),
            };
            out.push(t);
            assert(toks_of(out@) =~= toks_of(before).push(t@));
        }
        i = i + 1;
    }
    assert(toks_of(raw@).subrange(0, raw@.len() as int) =~= toks_of(raw@));
    out
}

/// The texts of the ordinary tokens among `f[from..]`.
fn normal_strings(f: &Vec<TokenType>, from: usize) -> (r: Vec<String>)
    requires
        from <= f@.len(),
    ensures
        strs_of(r@) == normal_texts(toks_of(f@).subrange(from as int, f@.len() as int)),
{
    let mut out: Vec<String> = Vec::new();
    let mut i: usize = from;
    assert(toks_of(f@).subrange(from as int, from as int) =~= Seq::<Tok>::empty());
    assert(strs_of(out@) =~= Seq::<Seq<char>>::empty());
    while i < f.len()
        invariant
            from <= i <= f@.len(),
            strs_of(out@) == normal_texts(toks_of(f@).subrange(from as int, i as int)),
        decreases f.len() - i,
    {
        let ghost before = out@;
        let ghost pre = toks_of(f@).subrange(from as int, i as int);
        let ghost next = toks_of(f@).subrange(from as int, i + 1);
        assert(next.drop_last() =~= pre);
        assert(next.last() == f@[i as int]@);
        match &f[i] {
            TokenType::Normal(s) => {
                out.push(s.clone());
                assert(strs_of(out@) =~= strs_of(before).push(s@));
            },
            TokenType::Delim(_) => {},
        }
        i = i + 1;
    }
    out
}

/// Interprets a `key = ...` line from its cleaned tokens.
fn parse_key_value(f: &Vec<TokenType>) -> (r: Result<UnitProperty, ConfigPropertyError>)
    requires
        f@.len() >= 1,
        f@[0]@ is Normal,
    ensures
        match r {
            Ok(p) => key_value_spec(toks_of(f@)) == Ok::<PropertyView, ConfigErrorView>(p@),
            Err(e) => key_value_spec(toks_of(f@)) == Err::<PropertyView, ConfigErrorView>(e@),
        },
{
    let ghost g = toks_of(f@);
    assert(g[0] == f@[0]@);
    let key = text_of(&f[0]);
    let key_s = f[0].peek().clone();
    if is_text(&key, "aliases") || is_text(&key, "tags") {
        let vals = normal_strings(f, 1);
        assert(g.subrange(1, g.len() as int) =~= g.drop_first());
        if vals.len() == 0 {
            Err(ConfigPropertyError::EmptyField(key_s))
        } else if is_text(&key, "aliases") {
            Ok(UnitProperty::Aliases(vals))
        } else {
            Ok(UnitProperty::Tags(vals))
        }
    } else if is_text(&key, "conv_factor") || is_text(&key, "zero_point") || is_text(&key, "dimensions")
        || is_text(&key, "inverse") {
        if f.len() < 3 {
            return Err(ConfigPropertyError::EmptyField(key_s));
        }
        assert(g[2] == f@[2]@);
        let v = text_of(&f[2]);
        if !is_float_literal(&v) {
            return Err(ConfigPropertyError::InvalidField(f[2].peek().clone()));
        }
        let vs = f[2].peek().clone();
        if is_text(&key, "conv_factor") {
            Ok(UnitProperty::ConvFactor(vs))
        } else if is_text(&key, "zero_point") {
            Ok(UnitProperty::ZeroPoint(vs))
        } else if is_text(&key, "dimensions") {
            Ok(UnitProperty::Dimensions(vs))
        } else {
            Ok(UnitProperty::Inverse(vs))
        }
    } else if is_text(&key, "type") {
        if f.len() < 3 {
            return Err(ConfigPropertyError::EmptyField(key_s));
        }
        assert(g[2] == f@[2]@);
        match get_unit_type(f[2].peek().clone()) {
            Ok(t) => Ok(UnitProperty::UnitType(t)),
            Err(e) => Err(e),
        }
    } else {
        Err(ConfigPropertyError::NoSuchProperty(key_s))
    }
}

/// Interprets a `[Name]` line from its cleaned tokens.
fn parse_common_name(f: &Vec<TokenType>) -> (r: Result<UnitProperty, ConfigPropertyError>)
    ensures
        match r {
            Ok(p) => common_name_spec(toks_of(f@)) == Ok::<PropertyView, ConfigErrorView>(p@),
            Err(e) => common_name_spec(toks_of(f@)) == Err::<PropertyView, ConfigErrorView>(e@),
        },
{
    if f.len() != 3 {
        return Err(ConfigPropertyError::EmptyField(crate::text::owned("common name")));
    }
    assert(toks_of(f@)[1] == f@[1]@);
    Ok(UnitProperty::CommonName(f[1].peek().clone()))
}

/// Parses one units-file line into the property it states; blank and
/// comment-only lines state none.
pub fn parse_line(line: &str) -> (r: Result<Option<UnitProperty>, ConfigPropertyError>)
    ensures
        line_view(r) == parse_line_spec(line@),
{
    let mut checker = UnitPropertyCheck::new();
    assert(checker == config_start());
    let raw = match tokenize(line, &mut checker) {
        Ok(t) => t,
        Err(e) => return Err(ConfigPropertyError::Syntax(e)),
    };
    let f = clean_tokens(&raw);
    let ghost g = toks_of(f@);
    if f.len() == 0 {
        return Ok(None);
    }
    assert(g[0] == f@[0]@);
    match &f[0] {
        TokenType::Delim(d) => {
            let dc = crate::text::chars_of(d.as_str());
            if dc.len() == 1 && dc[0] == '[' {
                assert(dc@ =~= seq!['[']);
                match parse_common_name(&f) {
                    Ok(p) => Ok(Some(p)),
                    Err(e) => Err(e),
                }
            } else {
                proof {
                    if dc@ == seq!['['] {
                        assert(dc@[0] == '[');
                    }
                }
                Err(ConfigPropertyError::Syntax(SyntaxError::Expected(0, Expectation::OpenBrace)))
            }
        },
        TokenType::Normal(_) => match parse_key_value(&f) {
            Ok(p) => Ok(Some(p)),
            Err(e) => Err(e),
        },
    }
}

} // verus!

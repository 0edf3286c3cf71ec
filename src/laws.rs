//! Properties that hold across the library's functions.
use vstd::prelude::*;
use crate::expr::PrimView;
use crate::lexorder::lex_lt;
use crate::session::{RecallField, SessionView, any_value_recall, fill_values, recall_spec, remember_all};
use crate::convert::Conversion;
use crate::units::{NameCollision, Unit, UnitDatabase, add_outcome};
use crate::token::{SyntaxChecker, ScanState, Step, Tok, after_plain, lemma_scan_next, lemma_scan_plain, moved_past, plain_for, scan, step, tokenize_spec};
use crate::interpret::line_start;
use crate::config::{normal_texts, strs_of, PropCheckState, PropertyView, UnitPropertyCheck, clean, config_start, list_key, numeric_property, parse_line_spec, trim_tok, unit_type_named};
use crate::floatlit::float_literal;
use crate::text::trimmed;

verus! {

/// A refused `add` leaves every namespace exactly as it was: no alias of
/// the refused unit is registered anywhere.
pub proof fn law_collision_is_atomic(db: UnitDatabase, u: Unit, db2: UnitDatabase, c: NameCollision)
    requires
        add_outcome(db, u, db2, Err(c)),
    ensures
        forall|t: Seq<char>, a: Seq<char>| db2.spec_lookup(t, a) == db.spec_lookup(t, a),
        forall|t: Seq<char>| db2.spec_has_tag(t) == db.spec_has_tag(t),
        db2.units@ == db.units@,
{
}

/// Two units that share the alias `a` in different namespaces `t1` and
/// `t2`: a query tagged with either finds exactly the unit registered there,
/// whatever the preferred namespace is.
pub proof fn law_tagged_query_finds_its_namespace(
    db0: UnitDatabase,
    u1: Unit,
    db1: UnitDatabase,
    u2: Unit,
    db2: UnitDatabase,
    a: Seq<char>,
    t1: Seq<char>,
    t2: Seq<char>,
)
    requires
        db0.wf(),
        add_outcome(db0, u1, db1, Ok(())),
        add_outcome(db1, u2, db2, Ok(())),
        strs_of(u1.tags@) == seq![t1],
        strs_of(u2.tags@) == seq![t2],
        t1 != t2,
        u1.spec_names().contains(a),
        u2.spec_names().contains(a),
    ensures
        db2.query_spec(a, Some(t2)) == Some((db0.units@.len() + 1) as usize),
        db2.query_spec(a, Some(t1)) == Some(db0.units@.len() as usize),
{
    assert(strs_of(u1.tags@).len() == u1.tags@.len());
    assert(strs_of(u2.tags@).len() == u2.tags@.len());
    assert(u1.tags@.len() == 1);
    assert(u2.tags@.len() == 1);
    assert(db0.target_tags(u1) == seq![t1]);
    assert(db1.target_tags(u2) == seq![t2]);
    assert(seq![t1].contains(t1)) by {
        assert(seq![t1][0] == t1);
    }
    assert(seq![t2].contains(t2)) by {
        assert(seq![t2][0] == t2);
    }
    assert(!seq![t2].contains(t1));
    assert(db2.spec_lookup(t2, a) == Some(db1.units@.len() as usize));
    assert(db2.spec_lookup(t1, a) == db1.spec_lookup(t1, a));
}

/// An untagged query for an alias that only two namespaces `t1` and `t2`
/// hold, neither preferred nor default, finds the one whose tag comes first
/// in lexical order.
pub proof fn law_untagged_query_takes_first_tag(
    db0: UnitDatabase,
    u1: Unit,
    db1: UnitDatabase,
    u2: Unit,
    db2: UnitDatabase,
    a: Seq<char>,
    t1: Seq<char>,
    t2: Seq<char>,
)
    requires
        db0.wf(),
        add_outcome(db0, u1, db1, Ok(())),
        add_outcome(db1, u2, db2, Ok(())),
        strs_of(u1.tags@) == seq![t1],
        strs_of(u2.tags@) == seq![t2],
        lex_lt(t1, t2),
        t1 != db0.preferred_namespace@ && t1 != db0.default_namespace@,
        t2 != db0.preferred_namespace@ && t2 != db0.default_namespace@,
        u1.spec_names().contains(a),
        u2.spec_names().contains(a),
        forall|t: Seq<char>| db0.spec_lookup(t, a) is None,
    ensures
        db2.query_spec(a, None) == Some(db0.units@.len() as usize),
{
    crate::lexorder::lemma_lex_irreflexive(t1);
    assert(t1 != t2);
    assert(strs_of(u1.tags@).len() == u1.tags@.len());
    assert(strs_of(u2.tags@).len() == u2.tags@.len());
    assert(u1.tags@.len() == 1);
    assert(u2.tags@.len() == 1);
    assert(db0.target_tags(u1) == seq![t1]);
    assert(db1.target_tags(u2) == seq![t2]);
    assert(seq![t1][0] == t1);
    assert(seq![t2][0] == t2);
    assert(seq![t1].contains(t1));
    assert(seq![t2].contains(t2));
    assert forall|t: Seq<char>| t != t1 && t != t2 implies db2.spec_lookup(t, a) is None by {
        assert(!seq![t2].contains(t));
        assert(!seq![t1].contains(t));
    }
    assert(db2.spec_lookup(t1, a) == Some(db0.units@.len() as usize));
    assert(db2.spec_lookup(t2, a) == Some(db1.units@.len() as usize));
    assert(db2.spec_has_tag(t1));
    assert(db2.spec_has_tag(t2));
    assert(db2.other_hit(t1, a));
    assert forall|v: Seq<char>| db2.other_hit(v, a) implies !lex_lt(v, t1) by {
        crate::lexorder::lemma_lex_irreflexive(t1);
        if v == t2 && lex_lt(t2, t1) {
            crate::lexorder::lemma_lex_transitive(t1, t2, t1);
        }
    }
    let c = db2.first_other(a);
    assert(db2.other_hit(c, a) && forall|v: Seq<char>| db2.other_hit(v, a) ==> !lex_lt(v, c));
    assert(c == t1 || c == t2);
    if c == t2 {
        assert(!lex_lt(t1, t2));
    }
}

/// Once a conversion succeeded, a recall marker for the value is filled in
/// with that conversion's input value.
pub proof fn law_recall_after_success(s: SessionView, cs: Seq<Conversion>, p: PrimView)
    requires
        cs.len() > 0,
        cs.last().result is Ok,
    ensures
        recall_spec(remember_all(s, cs), p).1 != Some(RecallField::InputValue),
        recall_spec(remember_all(s, cs), p).0.vals == fill_values(p.vals, cs.last().input@),
{
}

/// Before any conversion, a recall marker for the value cannot be filled in.
pub proof fn law_recall_needs_a_value(p: PrimView, i: int)
    requires
        0 <= i < p.vals.len(),
        p.vals[i].recall,
    ensures
        recall_spec(SessionView { value: None, input_unit: None, output_unit: None }, p).1 == Some(RecallField::InputValue),
{
    assert(any_value_recall(p.vals));
}

/// No character of `s` means anything to the command-line grammar.
pub open spec fn line_plain(s: Seq<char>) -> bool {
    forall|k: int| 0 <= k < s.len() ==> s[k] != ' ' && s[k] != '#' && s[k] != '\n' && s[k] != '\r' && s[k] != '\\'
}

pub open spec fn start_state<S>(c: S) -> ScanState<S> {
    ScanState { checker: c, buffer: Seq::empty(), tokens: Seq::empty(), delim_pushed: false, last: 0, last_ch: '\0' }
}

/// A command line without delimiters, comment characters or escapes is a
/// single ordinary token equal to the line.
pub proof fn law_plain_line_is_one_token(line: Seq<char>)
    requires
        line_plain(line),
    ensures
        tokenize_spec(line, line_start()).0 == Ok::<Seq<Tok>, crate::token::SyntaxError>(seq![Tok::Normal(line)]),
{
    let n = line.len();
    if n > 0 {
        let st0 = start_state(line_start());
        assert forall|k: int| 0 <= k < line.subrange(0, n as int).len() implies !line_start().spec_is_esc(#[trigger] line.subrange(0, n as int)[k])
            && !line_start().spec_is_delim(line.subrange(0, n as int)[k]) && !line_start().spec_is_comment(line.subrange(0, n as int)[k]) by {
            assert(line.subrange(0, n as int)[k] == line[k]);
        }
        lemma_scan_plain(line, 0, n, st0);
        let st = after_plain(line, 0, n, st0);
        assert(st.buffer =~= line);
        assert(st.tokens.push(Tok::Normal(st.buffer)) =~= seq![Tok::Normal(line)]);
        assert(scan(line, n, st) == crate::token::finish(st));
    } else {
        assert(line =~= Seq::<char>::empty());
    }
}

/// Under the units-file grammar a line that starts with `#` is one empty
/// ordinary token: nothing of the comment is kept.
pub proof fn law_comment_line_is_empty_token(rest: Seq<char>)
    ensures
        tokenize_spec(seq!['#'] + rest, config_start()).0 == Ok::<Seq<Tok>, crate::token::SyntaxError>(seq![Tok::Normal(Seq::empty())]),
{
    let line = seq!['#'] + rest;
    assert(line[0] == '#');
    assert(trimmed(Seq::<char>::empty()) =~= Seq::<char>::empty());
    assert(Seq::<Tok>::empty().push(Tok::Normal(Seq::empty())) =~= seq![Tok::Normal(Seq::<char>::empty())]);
}

/// Under the command-line grammar a line that starts with `#` is one empty
/// ordinary token: nothing of the comment is kept.
pub proof fn law_comment_command_line_is_empty_token(rest: Seq<char>)
    ensures
        tokenize_spec(seq!['#'] + rest, line_start()).0 == Ok::<Seq<Tok>, crate::token::SyntaxError>(seq![Tok::Normal(Seq::empty())]),
{
    let line = seq!['#'] + rest;
    assert(line[0] == '#');
    assert(Seq::<Tok>::empty().push(Tok::Normal(Seq::empty())) =~= seq![Tok::Normal(Seq::<char>::empty())]);
}

/// An escaped `#` is an ordinary character: `\#w` is the single token `#w`.
pub proof fn law_escaped_comment_is_literal(w: Seq<char>)
    requires
        line_plain(w),
    ensures
        tokenize_spec(seq!['\\', '#'] + w, line_start()).0 == Ok::<Seq<Tok>, crate::token::SyntaxError>(seq![Tok::Normal(seq!['#'] + w)]),
{
    let line = seq!['\\', '#'] + w;
    let n = line.len();
    assert(line[0] == '\\' && line[1] == '#');
    let st0 = start_state(line_start());
    let s1 = ScanState { checker: line_start().spec_with_esc(true), ..st0 };
    assert(step(line, 0, st0) == Step::Next(s1));
    lemma_scan_next(line, 0, st0, s1);
    let m1 = moved_past(s1, 0, '\\');
    let s2 = ScanState {
        checker: m1.checker.spec_with_esc(false),
        buffer: m1.buffer.push('#'),
        delim_pushed: false,
        ..m1
    };
    assert(step(line, 1, m1) == Step::Next(s2));
    lemma_scan_next(line, 1, m1, s2);
    let m2 = moved_past(s2, 1, '#');
    assert(m2.checker == line_start());
    if n > 2 {
        assert forall|k: int| 0 <= k < line.subrange(2, n as int).len() implies !line_start().spec_is_esc(#[trigger] line.subrange(2, n as int)[k])
            && !line_start().spec_is_delim(line.subrange(2, n as int)[k]) && !line_start().spec_is_comment(line.subrange(2, n as int)[k]) by {
            assert(line.subrange(2, n as int)[k] == w[k]);
        }
        lemma_scan_plain(line, 2, n, m2);
        let st = after_plain(line, 2, n, m2);
        assert(st.buffer =~= seq!['#'] + w);
        assert(st.tokens.push(Tok::Normal(st.buffer)) =~= seq![Tok::Normal(seq!['#'] + w)]);
    } else {
        assert(w.len() == 0);
        assert(m2.buffer =~= seq!['#'] + w);
        assert(m2.tokens.push(Tok::Normal(m2.buffer)) =~= seq![Tok::Normal(seq!['#'] + w)]);
    }
}

/// No character of `s` means anything to the units-file grammar.
pub open spec fn config_plain(s: Seq<char>) -> bool {
    forall|k: int|
        0 <= k < s.len() ==> s[k] != '[' && s[k] != ']' && s[k] != ',' && s[k] != '=' && s[k] != '#' && s[k] != '\\'
}

/// The units-file grammar after `key =`.
pub open spec fn after_equals(k: Seq<char>) -> UnitPropertyCheck {
    UnitPropertyCheck { esc_set: false, single_val_field: !list_key(trimmed(k)), state: PropCheckState::Value, valid: true }
}

proof fn lemma_plain_part<S: SyntaxChecker>(line: Seq<char>, from: nat, to: nat, part: Seq<char>, c: S)
    requires
        from <= to <= line.len(),
        line.subrange(from as int, to as int) == part,
        forall|k: int| 0 <= k < part.len() ==> !c.spec_is_esc(#[trigger] part[k]) && !c.spec_is_delim(part[k]) && !c.spec_is_comment(part[k]),
    ensures
        plain_for(c, line.subrange(from as int, to as int)),
{
}

proof fn lemma_config_plain_chars(part: Seq<char>, c: UnitPropertyCheck)
    requires
        config_plain(part),
    ensures
        forall|k: int| 0 <= k < part.len() ==> !c.spec_is_esc(#[trigger] part[k]) && !c.spec_is_delim(part[k]) && !c.spec_is_comment(part[k]),
{
}

/// Scanning `key =` at the start of a units-file line.
proof fn lemma_config_key(line: Seq<char>, k: Seq<char>)
    requires
        k.len() < line.len(),
        line.subrange(0, k.len() as int) == k,
        line[k.len() as int] == '=',
        config_plain(k),
        trimmed(k).len() > 0,
    ensures
        scan(line, 0, start_state(config_start())) == scan(
            line,
            k.len() + 1,
            ScanState {
                checker: after_equals(k),
                buffer: Seq::empty(),
                tokens: seq![Tok::Normal(k), Tok::Delim(seq!['='])],
                delim_pushed: true,
                last: k.len(),
                last_ch: '=',
            },
        ),
{
    let st0 = start_state(config_start());
    let n = k.len();
    if n == 0 {
        assert(trimmed(k) =~= Seq::<char>::empty());
    }
    lemma_config_plain_chars(k, config_start());
    lemma_plain_part(line, 0, n, k, config_start());
    lemma_scan_plain(line, 0, n, st0);
    let st1 = after_plain(line, 0, n, st0);
    assert(st1.buffer =~= k);
    let c2 = config_start().spec_fed(k, false).spec_fed(seq!['='], true);
    assert(c2 == after_equals(k));
    let s2 = ScanState {
        checker: c2,
        buffer: Seq::empty(),
        tokens: st1.tokens.push(Tok::Normal(st1.buffer)).push(Tok::Delim(seq!['='])),
        delim_pushed: true,
        ..st1
    };
    assert(step(line, n, st1) == Step::Next(s2));
    lemma_scan_next(line, n, st1, s2);
    assert(s2.tokens =~= seq![Tok::Normal(k), Tok::Delim(seq!['='])]);
}

/// An escaped delimiter is taken literally: under the units-file grammar
/// `k = a\,b` gives the key, `=` and the single value `a,b`.
pub proof fn law_escaped_delimiter_is_literal(k: Seq<char>, a: Seq<char>, b: Seq<char>)
    requires
        config_plain(k),
        config_plain(a),
        config_plain(b),
        trimmed(k).len() > 0,
    ensures
        tokenize_spec(k + seq!['='] + a + seq!['\\', ','] + b, config_start()).0 == Ok::<Seq<Tok>, crate::token::SyntaxError>(
            seq![Tok::Normal(k), Tok::Delim(seq!['=']), Tok::Normal(a + seq![','] + b)],
        ),
{
    let line = k + seq!['='] + a + seq!['\\', ','] + b;
    let n1 = k.len();
    let p = n1 + 1 + a.len();
    assert(line.subrange(0, n1 as int) =~= k);
    assert(line[n1 as int] == '=');
    lemma_config_key(line, k);
    let c = after_equals(k);
    let st1 = ScanState {
        checker: c,
        buffer: Seq::<char>::empty(),
        tokens: seq![Tok::Normal(k), Tok::Delim(seq!['='])],
        delim_pushed: true,
        last: n1,
        last_ch: '=',
    };
    let st2 = if a.len() > 0 {
        lemma_config_plain_chars(a, c);
        assert(line.subrange(n1 as int + 1, p as int) =~= a);
        lemma_plain_part(line, n1 + 1, p, a, c);
        lemma_scan_plain(line, n1 + 1, p, st1);
        after_plain(line, n1 + 1, p, st1)
    } else {
        st1
    };
    assert(st2.buffer =~= a);
    assert(st2.checker == c);
    assert(scan(line, 0, start_state(config_start())) == scan(line, p, st2));
    assert(line[p as int] == '\\' && line[p as int + 1] == ',');
    let s3 = ScanState { checker: c.spec_with_esc(true), ..st2 };
    assert(step(line, p, st2) == Step::Next(s3));
    lemma_scan_next(line, p, st2, s3);
    let m3 = moved_past(s3, p, '\\');
    let s4 = ScanState { checker: m3.checker.spec_with_esc(false), buffer: m3.buffer.push(','), delim_pushed: false, ..m3 };
    assert(step(line, p + 1, m3) == Step::Next(s4));
    lemma_scan_next(line, p + 1, m3, s4);
    let m4 = moved_past(s4, p + 1, ',');
    assert(m4.checker == c);
    let n = line.len();
    let st5 = if b.len() > 0 {
        lemma_config_plain_chars(b, c);
        assert(line.subrange(p as int + 2, n as int) =~= b);
        lemma_plain_part(line, p + 2, n, b, c);
        lemma_scan_plain(line, p + 2, n, m4);
        after_plain(line, p + 2, n, m4)
    } else {
        m4
    };
    assert(st5.buffer =~= a + seq![','] + b);
    assert(st5.checker == c);
    assert(scan(line, n, st5) == crate::token::finish(st5));
    assert(st5.tokens.push(Tok::Normal(st5.buffer)) =~= seq![Tok::Normal(k), Tok::Delim(seq!['=']), Tok::Normal(a + seq![','] + b)]);
}

proof fn lemma_clean_push(toks: Seq<Tok>, t: Tok)
    ensures
        clean(toks.push(t)) == if trimmed(t.text()).len() == 0 {
            clean(toks)
        } else {
            clean(toks).push(trim_tok(t))
        },
{
    assert(toks.push(t).drop_last() =~= toks);
    assert(trim_tok(t).text() == trimmed(t.text()));
}

proof fn lemma_normal_texts_push(toks: Seq<Tok>, t: Tok)
    ensures
        normal_texts(toks.push(t)) == match t {
            Tok::Normal(x) => normal_texts(toks).push(x),
            Tok::Delim(_) => normal_texts(toks),
        },
{
    assert(toks.push(t).drop_last() =~= toks);
}

proof fn lemma_trim_one(c: char)
    requires
        !crate::text::is_white(c),
    ensures
        trimmed(seq![c]) == seq![c],
{
    let s = seq![c];
    assert(crate::text::lead_white(s) == 0);
    assert(s.subrange(0, 1) =~= s);
    assert(crate::text::trail_white(s) == 0);
    assert(s.subrange(0, 1 - 0) =~= s);
}

/// Scanning `key = value` as a whole units-file line.
proof fn lemma_config_key_value(k: Seq<char>, v: Seq<char>)
    requires
        config_plain(k),
        config_plain(v),
        trimmed(k).len() > 0,
        v.len() > 0,
    ensures
        tokenize_spec(k + seq!['='] + v, config_start()).0 == Ok::<Seq<Tok>, crate::token::SyntaxError>(
            seq![Tok::Normal(k), Tok::Delim(seq!['=']), Tok::Normal(v)],
        ),
{
    let line = k + seq!['='] + v;
    let n1 = k.len();
    let n = line.len();
    assert(line.subrange(0, n1 as int) =~= k);
    assert(line[n1 as int] == '=');
    lemma_config_key(line, k);
    let c = after_equals(k);
    let st1 = ScanState {
        checker: c,
        buffer: Seq::<char>::empty(),
        tokens: seq![Tok::Normal(k), Tok::Delim(seq!['='])],
        delim_pushed: true,
        last: n1,
        last_ch: '=',
    };
    lemma_config_plain_chars(v, c);
    assert(line.subrange(n1 as int + 1, n as int) =~= v);
    lemma_plain_part(line, n1 + 1, n, v, c);
    lemma_scan_plain(line, n1 + 1, n, st1);
    let st2 = after_plain(line, n1 + 1, n, st1);
    assert(st2.buffer =~= v);
    assert(scan(line, n, st2) == crate::token::finish(st2));
    assert(st2.tokens.push(Tok::Normal(st2.buffer)) =~= seq![Tok::Normal(k), Tok::Delim(seq!['=']), Tok::Normal(v)]);
}

/// The cleaned tokens of `key = value`.
proof fn lemma_clean_key_value(k: Seq<char>, v: Seq<char>)
    requires
        trimmed(k).len() > 0,
        trimmed(v).len() > 0,
    ensures
        clean(seq![Tok::Normal(k), Tok::Delim(seq!['=']), Tok::Normal(v)]) == seq![
            Tok::Normal(trimmed(k)),
            Tok::Delim(seq!['=']),
            Tok::Normal(trimmed(v)),
        ],
{
    let t0 = Tok::Normal(k);
    let t1 = Tok::Delim(seq!['=']);
    let t2 = Tok::Normal(v);
    lemma_trim_one('=');
    lemma_clean_push(Seq::empty(), t0);
    assert(clean(Seq::<Tok>::empty()) == Seq::<Tok>::empty());
    assert(Seq::<Tok>::empty().push(t0) =~= seq![t0]);
    lemma_clean_push(seq![t0], t1);
    assert(seq![t0].push(t1) =~= seq![t0, t1]);
    lemma_clean_push(seq![t0, t1], t2);
    assert(seq![t0, t1].push(t2) =~= seq![t0, t1, t2]);
    assert(clean(seq![t0, t1, t2]) =~= seq![Tok::Normal(trimmed(k)), Tok::Delim(seq!['=']), Tok::Normal(trimmed(v))]);
}

/// A units-file line `key = value` with a numeric key (`conv_factor`,
/// `zero_point`, `dimensions`, `inverse`) and a float literal states that
/// property, with the literal stripped of surrounding white space.
pub proof fn law_numeric_property_line(k: Seq<char>, v: Seq<char>)
    requires
        config_plain(k),
        config_plain(v),
        numeric_property(trimmed(k), Seq::empty()) is Some,
        float_literal(trimmed(v)),
    ensures
        parse_line_spec(k + seq!['='] + v) == Ok::<Option<PropertyView>, crate::config::ConfigErrorView>(
            Some(numeric_property(trimmed(k), trimmed(v))->0),
        ),
{
    reveal_strlit("aliases");
    reveal_strlit("tags");
    reveal_strlit("conv_factor");
    reveal_strlit("zero_point");
    reveal_strlit("dimensions");
    reveal_strlit("inverse");
    assert(trimmed(k).len() > 0);
    assert(trimmed(v).len() > 0) by {
        if trimmed(v).len() == 0 {
            assert(trimmed(v) =~= Seq::<char>::empty());
            assert(!crate::floatlit::special_word(trimmed(v)));
            if crate::floatlit::number(trimmed(v)) {
                let kk = choose|kk: int|
                    0 <= kk <= trimmed(v).len() && crate::floatlit::mantissa(#[trigger] trimmed(v).subrange(0, kk)) && (kk == trimmed(v).len()
                        || crate::floatlit::exponent(trimmed(v).subrange(kk, trimmed(v).len() as int)));
                assert(trimmed(v).subrange(0, kk).len() == 0);
            }
        }
    }
    assert(v.len() > 0) by {
        if v.len() == 0 {
            assert(crate::text::lead_white(v) == 0);
        }
    }
    lemma_config_key_value(k, v);
    lemma_clean_key_value(k, v);
    let tk = trimmed(k);
    assert(!list_key(tk)) by {
        if list_key(tk) {
            assert(tk[0] == 'a' || tk[0] == 't');
            assert(tk[0] == 'c' || tk[0] == 'z' || tk[0] == 'd' || tk[0] == 'i');
        }
    }
}

/// A units-file line `type = name` states the category of that name.
pub proof fn law_type_property_line(k: Seq<char>, v: Seq<char>)
    requires
        config_plain(k),
        config_plain(v),
        trimmed(k) == "type"@,
        unit_type_named(trimmed(v)) is Some,
    ensures
        parse_line_spec(k + seq!['='] + v) == Ok::<Option<PropertyView>, crate::config::ConfigErrorView>(
            Some(PropertyView::UnitType(unit_type_named(trimmed(v))->0)),
        ),
{
    reveal_strlit("type");
    assert(trimmed(k).len() > 0);
    reveal_strlit("aliases");
    reveal_strlit("tags");
    reveal_strlit("conv_factor");
    reveal_strlit("zero_point");
    reveal_strlit("dimensions");
    reveal_strlit("inverse");
    assert(trimmed(v).len() > 0) by {
        if trimmed(v).len() == 0 {
            assert(trimmed(v) =~= Seq::<char>::empty());
            reveal_strlit("area");
            reveal_strlit("energy");
            reveal_strlit("force");
            reveal_strlit("fuel economy");
            reveal_strlit("length");
            reveal_strlit("mass");
            reveal_strlit("power");
            reveal_strlit("pressure");
            reveal_strlit("speed");
            reveal_strlit("temperature");
            reveal_strlit("torque");
            reveal_strlit("volume");
        }
    }
    assert(v.len() > 0) by {
        if v.len() == 0 {
            assert(crate::text::lead_white(v) == 0);
        }
    }
    lemma_config_key_value(k, v);
    lemma_clean_key_value(k, v);
    let f = seq![Tok::Normal(trimmed(k)), Tok::Delim(seq!['=']), Tok::Normal(trimmed(v))];
    assert(f[0].text() == trimmed(k) && f[2].text() == trimmed(v));
    let tk = trimmed(k);
    assert(!list_key(tk)) by {
        assert(tk[1] == 'y');
        if tk == "tags"@ {
            assert(tk[1] == 'a');
        }
    }
    assert(numeric_property(tk, Seq::empty()) is None) by {
        assert(tk.len() == 4);
    }
}

/// A units-file line `[name]` begins the unit called `name`, stripped of
/// surrounding white space.
pub proof fn law_common_name_line(w: Seq<char>)
    requires
        config_plain(w),
        trimmed(w).len() > 0,
    ensures
        parse_line_spec(seq!['['] + w + seq![']']) == Ok::<Option<PropertyView>, crate::config::ConfigErrorView>(
            Some(PropertyView::CommonName(trimmed(w))),
        ),
{
    let line = seq!['['] + w + seq![']'];
    let n = line.len();
    let p = w.len() + 1;
    assert(w.len() > 0) by {
        if w.len() == 0 {
            assert(crate::text::lead_white(w) == 0);
        }
    }
    assert(trimmed(Seq::<char>::empty()) =~= Seq::<char>::empty());
    let st0 = start_state(config_start());
    assert(line[0] == '[');
    let c1 = config_start().spec_fed(Seq::empty(), false).spec_fed(seq!['['], true);
    assert(c1.state == PropCheckState::CommonName && c1.valid && !c1.esc_set);
    let s1 = ScanState {
        checker: c1,
        buffer: Seq::empty(),
        tokens: st0.tokens.push(Tok::Normal(st0.buffer)).push(Tok::Delim(seq!['['])),
        delim_pushed: true,
        ..st0
    };
    assert(step(line, 0, st0) == Step::Next(s1));
    lemma_scan_next(line, 0, st0, s1);
    let m1 = moved_past(s1, 0, '[');
    lemma_config_plain_chars(w, c1);
    assert(line.subrange(1, p as int) =~= w);
    lemma_plain_part(line, 1, p, w, c1);
    lemma_scan_plain(line, 1, p, m1);
    let st2 = after_plain(line, 1, p, m1);
    assert(st2.buffer =~= w);
    assert(line[p as int] == ']');
    let c3 = c1.spec_fed(w, false).spec_fed(seq![']'], true);
    assert(c3.state == PropCheckState::Validate && c3.valid);
    let s3 = ScanState {
        checker: c3,
        buffer: Seq::empty(),
        tokens: st2.tokens.push(Tok::Normal(st2.buffer)).push(Tok::Delim(seq![']'])),
        delim_pushed: true,
        ..st2
    };
    assert(step(line, p, st2) == Step::Next(s3));
    lemma_scan_next(line, p, st2, s3);
    let m3 = moved_past(s3, p, ']');
    assert(scan(line, n, m3) == crate::token::finish(m3));
    let e = Seq::<char>::empty();
    let toks = seq![Tok::Normal(e), Tok::Delim(seq!['[']), Tok::Normal(w), Tok::Delim(seq![']']), Tok::Normal(e)];
    assert(m3.tokens.push(Tok::Normal(m3.buffer)) =~= toks);
    assert(tokenize_spec(line, config_start()).0 == Ok::<Seq<Tok>, crate::token::SyntaxError>(toks));
    lemma_trim_one('[');
    lemma_trim_one(']');
    let t0 = Tok::Normal(e);
    let t1 = Tok::Delim(seq!['[']);
    let t2 = Tok::Normal(w);
    let t3 = Tok::Delim(seq![']']);
    lemma_clean_push(Seq::empty(), t0);
    assert(Seq::<Tok>::empty().push(t0) =~= seq![t0]);
    assert(clean(Seq::<Tok>::empty()) == Seq::<Tok>::empty());
    lemma_clean_push(seq![t0], t1);
    assert(seq![t0].push(t1) =~= seq![t0, t1]);
    lemma_clean_push(seq![t0, t1], t2);
    assert(seq![t0, t1].push(t2) =~= seq![t0, t1, t2]);
    lemma_clean_push(seq![t0, t1, t2], t3);
    assert(seq![t0, t1, t2].push(t3) =~= seq![t0, t1, t2, t3]);
    lemma_clean_push(seq![t0, t1, t2, t3], t0);
    assert(seq![t0, t1, t2, t3].push(t0) =~= toks);
    let f = seq![Tok::Delim(seq!['[']), Tok::Normal(trimmed(w)), Tok::Delim(seq![']'])];
    assert(clean(toks) =~= f);
    assert(f[0] == Tok::Delim(seq!['[']));
    assert(f[1].text() == trimmed(w));
}

/// A units-file line `aliases = a, b` (or `tags = a, b`) states the list of
/// both values, each stripped of surrounding white space.
pub proof fn law_list_property_line(k: Seq<char>, a: Seq<char>, b: Seq<char>)
    requires
        config_plain(k),
        config_plain(a),
        config_plain(b),
        list_key(trimmed(k)),
        trimmed(a).len() > 0,
        trimmed(b).len() > 0,
    ensures
        parse_line_spec(k + seq!['='] + a + seq![','] + b) == Ok::<Option<PropertyView>, crate::config::ConfigErrorView>(
            Some(
                if trimmed(k) == "aliases"@ {
                    PropertyView::Aliases(seq![trimmed(a), trimmed(b)])
                } else {
                    PropertyView::Tags(seq![trimmed(a), trimmed(b)])
                },
            ),
        ),
{
    reveal_strlit("aliases");
    reveal_strlit("tags");
    let line = k + seq!['='] + a + seq![','] + b;
    let n1 = k.len();
    let p = n1 + 1 + a.len();
    let n = line.len();
    assert(trimmed(k).len() > 0);
    assert(a.len() > 0) by {
        if a.len() == 0 {
            assert(crate::text::lead_white(a) == 0);
        }
    }
    assert(b.len() > 0) by {
        if b.len() == 0 {
            assert(crate::text::lead_white(b) == 0);
        }
    }
    assert(line.subrange(0, n1 as int) =~= k);
    assert(line[n1 as int] == '=');
    lemma_config_key(line, k);
    let c = after_equals(k);
    assert(!c.single_val_field);
    let st1 = ScanState {
        checker: c,
        buffer: Seq::<char>::empty(),
        tokens: seq![Tok::Normal(k), Tok::Delim(seq!['='])],
        delim_pushed: true,
        last: n1,
        last_ch: '=',
    };
    lemma_config_plain_chars(a, c);
    assert(line.subrange(n1 as int + 1, p as int) =~= a);
    lemma_plain_part(line, n1 + 1, p, a, c);
    lemma_scan_plain(line, n1 + 1, p, st1);
    let st2 = after_plain(line, n1 + 1, p, st1);
    assert(st2.buffer =~= a);
    assert(line[p as int] == ',');
    let c3 = c.spec_fed(a, false).spec_fed(seq![','], true);
    assert(c3 == c);
    let s3 = ScanState {
        checker: c3,
        buffer: Seq::empty(),
        tokens: st2.tokens.push(Tok::Normal(st2.buffer)).push(Tok::Delim(seq![','])),
        delim_pushed: true,
        ..st2
    };
    assert(step(line, p, st2) == Step::Next(s3));
    lemma_scan_next(line, p, st2, s3);
    let m3 = moved_past(s3, p, ',');
    lemma_config_plain_chars(b, c);
    assert(line.subrange(p as int + 1, n as int) =~= b);
    lemma_plain_part(line, p + 1, n, b, c);
    lemma_scan_plain(line, p + 1, n, m3);
    let st4 = after_plain(line, p + 1, n, m3);
    assert(st4.buffer =~= b);
    assert(scan(line, n, st4) == crate::token::finish(st4));
    let e = Seq::<char>::empty();
    let t0 = Tok::Normal(k);
    let t1 = Tok::Delim(seq!['=']);
    let t2 = Tok::Normal(a);
    let t3 = Tok::Delim(seq![',']);
    let t4 = Tok::Normal(b);
    let toks = seq![t0, t1, t2, t3, t4];
    assert(st4.tokens.push(Tok::Normal(st4.buffer)) =~= toks);
    assert(tokenize_spec(line, config_start()).0 == Ok::<Seq<Tok>, crate::token::SyntaxError>(toks));
    lemma_trim_one('=');
    lemma_trim_one(',');
    lemma_clean_push(Seq::empty(), t0);
    assert(Seq::<Tok>::empty().push(t0) =~= seq![t0]);
    assert(clean(Seq::<Tok>::empty()) == Seq::<Tok>::empty());
    lemma_clean_push(seq![t0], t1);
    assert(seq![t0].push(t1) =~= seq![t0, t1]);
    lemma_clean_push(seq![t0, t1], t2);
    assert(seq![t0, t1].push(t2) =~= seq![t0, t1, t2]);
    lemma_clean_push(seq![t0, t1, t2], t3);
    assert(seq![t0, t1, t2].push(t3) =~= seq![t0, t1, t2, t3]);
    lemma_clean_push(seq![t0, t1, t2, t3], t4);
    assert(seq![t0, t1, t2, t3].push(t4) =~= toks);
    let u0 = Tok::Normal(trimmed(k));
    let u2 = Tok::Normal(trimmed(a));
    let u4 = Tok::Normal(trimmed(b));
    let f = seq![u0, t1, u2, t3, u4];
    assert(clean(toks) =~= f);
    let g = f.drop_first();
    assert(g =~= seq![t1, u2, t3, u4]);
    lemma_normal_texts_push(Seq::empty(), t1);
    assert(Seq::<Tok>::empty().push(t1) =~= seq![t1]);
    assert(normal_texts(Seq::<Tok>::empty()) == Seq::<Seq<char>>::empty());
    lemma_normal_texts_push(seq![t1], u2);
    assert(seq![t1].push(u2) =~= seq![t1, u2]);
    lemma_normal_texts_push(seq![t1, u2], t3);
    assert(seq![t1, u2].push(t3) =~= seq![t1, u2, t3]);
    lemma_normal_texts_push(seq![t1, u2, t3], u4);
    assert(seq![t1, u2, t3].push(u4) =~= g);
    assert(normal_texts(g) =~= seq![trimmed(a), trimmed(b)]);
    assert(f[0].text() == trimmed(k));
}

} // verus!

//! Parsing values out of the token stream: literals, variables, lists,
//! parentheses and operator chains. The whole parse is specified by a
//! model-level parse relation that the executable parser is proved to
//! follow exactly.

use vstd::prelude::*;
use crate::common::{Keyword, Op, Symbol};
use crate::error::{ErrorKind, SassError};
use crate::lexer::{toks_model, TokKindModel, Token, TokenKind};
use crate::number::Number;
use crate::scope::Scope;
use crate::units::Unit;
use crate::value::{value_model, ListSeparator, QuoteKind, Value, ValueModel};

verus! {

/// Where the whitespace run starting at `i` ends.
pub open spec fn spec_ws_end(tm: Seq<TokKindModel>, i: int) -> int
    decreases tm.len() - i,
{
    if i < 0 || i >= tm.len() {
        i
    } else {
        match tm[i] {
            TokKindModel::Whitespace(_) => spec_ws_end(tm, i + 1),
            _ => i,
        }
    }
}

/// Skipping whitespace never moves backward.
pub proof fn lemma_ws_end_bounds(tm: Seq<TokKindModel>, i: int)
    requires
        0 <= i <= tm.len(),
    ensures
        i <= spec_ws_end(tm, i) <= tm.len(),
    decreases tm.len() - i,
{
    if i < tm.len() && (tm[i] is Whitespace) {
        lemma_ws_end_bounds(tm, i + 1);
    }
}

/// Skips whitespace tokens from a position on.
pub fn devour_whitespace_tokens(toks: &Vec<Token>, i: usize) -> (r: usize)
    requires
        i <= toks@.len(),
    ensures
        i <= r <= toks@.len(),
        r == spec_ws_end(toks_model(toks@), i as int),
{
    let ghost tm: Seq<TokKindModel> = toks_model(toks@);
    let mut j: usize = i;
    #[verifier::loop_isolation(false)]
    while j < toks.len() && matches!(&toks[j].kind, TokenKind::Whitespace(_))
        invariant
            i <= j <= toks@.len(),
            spec_ws_end(tm, i as int) == spec_ws_end(tm, j as int),
        decreases toks@.len() - j,
    {
        proof {
            assert(tm[j as int] == toks@[j as int]@);
        }
        j = j + 1;
    }
    proof {
        if j < toks@.len() {
            assert(tm[j as int] == toks@[j as int]@);
        }
    }
    j
}

/// The value of one digit character, if it is one.
pub open spec fn spec_digit_val(c: char) -> Option<int> {
    if c == '0' {
        Some(0int)
    } else if c == '1' {
        Some(1int)
    } else if c == '2' {
        Some(2int)
    } else if c == '3' {
        Some(3int)
    } else if c == '4' {
        Some(4int)
    } else if c == '5' {
        Some(5int)
    } else if c == '6' {
        Some(6int)
    } else if c == '7' {
        Some(7int)
    } else if c == '8' {
        Some(8int)
    } else if c == '9' {
        Some(9int)
    } else {
        None
    }
}

/// One step at a time over a number literal: digits grow the numerator,
/// a single point starts the fractional scale, and an overlong literal
/// is rejected rather than wrapped.
pub open spec fn spec_pnum_loop(s: Seq<char>, k: int, numer: int, denom: int, dot: bool) -> Option<
    (int, int),
>
    decreases s.len() - k,
{
    if k < 0 {
        None
    } else if k >= s.len() {
        Some((numer, denom))
    } else {
        let c = s[k];
        if c == '.' {
            if dot {
                None
            } else {
                spec_pnum_loop(s, k + 1, numer, denom, true)
            }
        } else {
            match spec_digit_val(c) {
                None => None,
                Some(d) => if numer > 0x0007_ffff_ffff_ffff {
                    None
                } else if dot {
                    if denom > 0x0007_ffff_ffff_ffff {
                        None
                    } else {
                        spec_pnum_loop(s, k + 1, numer * 10 + d, denom * 10, true)
                    }
                } else {
                    spec_pnum_loop(s, k + 1, numer * 10 + d, denom, false)
                },
            }
        }
    }
}

/// What a number literal denotes; a zero is canonical, over one.
pub open spec fn spec_parse_number(s: Seq<char>) -> Option<Number> {
    match spec_pnum_loop(s, 0, 0, 1, false) {
        None => None,
        Some((n, d)) => Some(
            Number {
                numer: n as i64,
                denom: if n == 0 {
                    1
                } else {
                    d as i64
                },
            },
        ),
    }
}

/// Reads the digits of a number literal into a rational.
pub fn parse_number(s: &str) -> (r: Option<Number>)
    ensures
        r == spec_parse_number(s@),
        r matches Some(n) ==> n.inv(),
{
    let n: usize = s.unicode_len();
    let mut numer: u64 = 0;
    let mut denom: u64 = 1;
    let mut seen_dot: bool = false;
    let mut k: usize = 0;
    #[verifier::loop_isolation(false)]
    while k < n
        invariant
            n == s@.len(),
            k <= n,
            1 <= denom,
            denom <= 22517998136852470,
            numer <= 22517998136852479,
            spec_pnum_loop(s@, 0, 0, 1, false) == spec_pnum_loop(
                s@,
                k as int,
                numer as int,
                denom as int,
                seen_dot,
            ),
        decreases n - k,
    {
        let c = s.get_char(k);
        if c == '.' {
            if seen_dot {
                return None;
            }
            seen_dot = true;
        } else {
            let d: u64 = if c == '0' {
                0
            } else if c == '1' {
                1
            } else if c == '2' {
                2
            } else if c == '3' {
                3
            } else if c == '4' {
                4
            } else if c == '5' {
                5
            } else if c == '6' {
                6
            } else if c == '7' {
                7
            } else if c == '8' {
                8
            } else if c == '9' {
                9
            } else {
                return None;
            };
            if numer > 0x0007_ffff_ffff_ffff {
                return None;
            }
            if seen_dot {
                if denom > 0x0007_ffff_ffff_ffff {
                    return None;
                }
                denom = denom * 10;
            }
            numer = numer * 10 + d;
        }
        k = k + 1;
    }
    if numer == 0 {
        denom = 1;
    }
    Some(Number { numer: numer as i64, denom: denom as i64 })
}

/// Absorbing the identifier tokens that follow one identifier run.
pub open spec fn spec_ident_absorb(tm: Seq<TokKindModel>, j: int, acc: Seq<char>) -> (
    Seq<char>,
    int,
)
    decreases tm.len() - j,
{
    if j < 0 || j >= tm.len() {
        (acc, j)
    } else {
        match tm[j] {
            TokKindModel::Ident(s) => spec_ident_absorb(tm, j + 1, acc + s),
            _ => (acc, j),
        }
    }
}

/// The text and end of a quoted string: the closing quote ends it;
/// identifier and number tokens contribute their text, other symbols
/// their glyph, whitespace a single space.
pub open spec fn spec_read_quoted(tm: Seq<TokKindModel>, j: int, quote: Symbol, acc: Seq<char>) -> (
    Seq<char>,
    int,
)
    decreases tm.len() - j,
{
    if j < 0 || j >= tm.len() {
        (acc, j)
    } else {
        match tm[j] {
            TokKindModel::Symbol(s) => if s == quote {
                (acc, j + 1)
            } else {
                spec_read_quoted(tm, j + 1, quote, acc + seq![s.spec_char()])
            },
            TokKindModel::Ident(w) => spec_read_quoted(tm, j + 1, quote, acc + w),
            TokKindModel::Number(w) => spec_read_quoted(tm, j + 1, quote, acc + w),
            TokKindModel::Whitespace(_) => spec_read_quoted(tm, j + 1, quote, acc + seq![' ']),
            _ => spec_read_quoted(tm, j + 1, quote, acc),
        }
    }
}

/// Whether a token can open a value.
pub open spec fn spec_can_start_value(t: TokKindModel) -> bool {
    match t {
        TokKindModel::Number(_) => true,
        TokKindModel::Ident(_) => true,
        TokKindModel::Variable(_) => true,
        TokKindModel::Symbol(s) => s == Symbol::OpenParen || s == Symbol::SingleQuote || s
            == Symbol::DoubleQuote,
        TokKindModel::Keyword(k) => k == Keyword::True || k == Keyword::False || k == Keyword::Null
            || k == Keyword::Important,
        _ => false,
    }
}

/// What one leading value denotes, and where it ends: a number with an
/// optional unit, a parenthesized value, an identifier run, a quoted
/// string, a variable dereference, or a reserved word. An undefined
/// variable is a name error; a token that cannot open a value, a
/// malformed number and an unclosed parenthesis are syntax errors.
pub open spec fn spec_parse_one(
    tm: Seq<TokKindModel>,
    i: int,
    vars: Map<Seq<char>, ValueModel>,
) -> (Result<ValueModel, ErrorKind>, int)
    decreases tm.len() - i, 0int,
{
    if i < 0 || i >= tm.len() {
        (Err(ErrorKind::Syntax), i)
    } else {
        match tm[i] {
            TokKindModel::Number(text) => match spec_parse_number(text) {
                None => (Err(ErrorKind::Syntax), i + 1),
                Some(n) => if i + 1 < tm.len() {
                    match tm[i + 1] {
                        TokKindModel::Ident(u) => match Unit::spec_from_name(u) {
                            Some(un) => (Ok(ValueModel::Dimension(n, un)), i + 2),
                            None => (Ok(ValueModel::Dimension(n, Unit::NoUnit)), i + 1),
                        },
                        TokKindModel::UnitToken(u) => (Ok(ValueModel::Dimension(n, u)), i + 2),
                        _ => (Ok(ValueModel::Dimension(n, Unit::NoUnit)), i + 1),
                    }
                } else {
                    (Ok(ValueModel::Dimension(n, Unit::NoUnit)), i + 1)
                },
            },
            TokKindModel::Symbol(sym) => if sym == Symbol::OpenParen {
                let j0 = spec_ws_end(tm, i + 1);
                let j = if i + 1 <= j0 <= tm.len() {
                    j0
                } else {
                    i + 1
                };
                let inner = spec_parse_value(tm, j, vars);
                match inner.0 {
                    Err(k) => (Err(k), inner.1),
                    Ok(v) => {
                        let j3 = spec_ws_end(tm, inner.1);
                        if 0 <= j3 < tm.len() && tm[j3] == TokKindModel::Symbol(
                            Symbol::CloseParen,
                        ) {
                            (Ok(ValueModel::Paren(Box::new(v))), j3 + 1)
                        } else {
                            (Err(ErrorKind::Syntax), j3)
                        }
                    },
                }
            } else if sym == Symbol::DoubleQuote {
                let q = spec_read_quoted(tm, i + 1, Symbol::DoubleQuote, Seq::empty());
                (Ok(ValueModel::Ident(q.0, QuoteKind::Double)), q.1)
            } else if sym == Symbol::SingleQuote {
                let q = spec_read_quoted(tm, i + 1, Symbol::SingleQuote, Seq::empty());
                (Ok(ValueModel::Ident(q.0, QuoteKind::Single)), q.1)
            } else {
                (Err(ErrorKind::Syntax), i + 1)
            },
            TokKindModel::Ident(s) => {
                let a = spec_ident_absorb(tm, i + 1, s);
                (Ok(ValueModel::Ident(a.0, QuoteKind::Unquoted)), a.1)
            },
            TokKindModel::Variable(name) => if vars.contains_key(name) {
                (Ok(vars[name]), i + 1)
            } else {
                (Err(ErrorKind::Name), i + 1)
            },
            TokKindModel::Keyword(k) => if k == Keyword::True {
                (Ok(ValueModel::True), i + 1)
            } else if k == Keyword::False {
                (Ok(ValueModel::False), i + 1)
            } else if k == Keyword::Null {
                (Ok(ValueModel::Null), i + 1)
            } else if k == Keyword::Important {
                (Ok(ValueModel::Important), i + 1)
            } else {
                (Err(ErrorKind::Syntax), i + 1)
            },
            _ => (Err(ErrorKind::Syntax), i + 1),
        }
    }
}

/// What a whole value expression denotes: one leading value, then list
/// and operator continuations. A comma builds a flat comma-separated
/// list, an arithmetic symbol an operation node kept unreduced, plain
/// whitespace a flat space-separated list; a semicolon, closing
/// parenthesis or closing brace ends the value and stays unconsumed, as
/// does a trailing separator with nothing parseable after it.
pub open spec fn spec_parse_value(
    tm: Seq<TokKindModel>,
    i: int,
    vars: Map<Seq<char>, ValueModel>,
) -> (Result<ValueModel, ErrorKind>, int)
    decreases tm.len() - i, 2int,
{
    if i < 0 || i >= tm.len() {
        (Err(ErrorKind::Syntax), i)
    } else {
        spec_parse_value_body(tm, i, vars)
    }
}

/// The continuation work of the parse relation, after one leading value.
pub open spec fn spec_parse_value_body(
    tm: Seq<TokKindModel>,
    i: int,
    vars: Map<Seq<char>, ValueModel>,
) -> (Result<ValueModel, ErrorKind>, int)
    decreases tm.len() - i, 1int,
{
    let one = spec_parse_one(tm, i, vars);
    match one.0 {
        Err(k) => (Err(k), one.1),
        Ok(l) => {
            let j2 = spec_ws_end(tm, one.1);
            if j2 >= tm.len() || j2 < 0 {
                (Ok(l), j2)
            } else {
                match tm[j2] {
                    TokKindModel::Symbol(sym) => if sym == Symbol::SemiColon || sym
                        == Symbol::CloseParen || sym == Symbol::CloseBrace {
                        (Ok(l), j2)
                    } else if sym == Symbol::Comma {
                        let j3 = spec_ws_end(tm, j2 + 1);
                        if j3 >= tm.len() || j3 <= i || !spec_can_start_value(tm[j3]) {
                            (Ok(l), j3)
                        } else {
                            let rest = spec_parse_value(tm, j3, vars);
                            match rest.0 {
                                Err(k) => (Err(k), rest.1),
                                Ok(r) => (
                                    Ok(spec_join_list(l, r, ListSeparator::Comma)),
                                    rest.1,
                                ),
                            }
                        }
                    } else if sym == Symbol::Plus || sym == Symbol::Minus || sym == Symbol::Mul
                        || sym == Symbol::Div || sym == Symbol::Percent {
                        let op = if sym == Symbol::Plus {
                            Op::Plus
                        } else if sym == Symbol::Minus {
                            Op::Minus
                        } else if sym == Symbol::Mul {
                            Op::Mul
                        } else if sym == Symbol::Div {
                            Op::Div
                        } else {
                            Op::Rem
                        };
                        let j3 = spec_ws_end(tm, j2 + 1);
                        if j3 >= tm.len() || j3 <= i || !spec_can_start_value(tm[j3]) {
                            (Ok(l), j3)
                        } else {
                            let rest = spec_parse_value(tm, j3, vars);
                            match rest.0 {
                                Err(k) => (Err(k), rest.1),
                                Ok(r) => (
                                    Ok(ValueModel::BinaryOp(Box::new(l), op, Box::new(r))),
                                    rest.1,
                                ),
                            }
                        }
                    } else {
                        spec_space_continue(tm, i, j2, l, one.1, vars)
                    },
                    _ => spec_space_continue(tm, i, j2, l, one.1, vars),
                }
            }
        },
    }
}

/// The whitespace continuation: with a value-opening token after the
/// gap, the rest parses and joins as a flat space-separated list; with
/// anything else, the value ends before the gap's successor.
pub open spec fn spec_space_continue(
    tm: Seq<TokKindModel>,
    i: int,
    j2: int,
    l: ValueModel,
    one_end: int,
    vars: Map<Seq<char>, ValueModel>,
) -> (Result<ValueModel, ErrorKind>, int)
    decreases tm.len() - i, 0int,
{
    if j2 > one_end && j2 > i && 0 <= j2 < tm.len() && spec_can_start_value(tm[j2]) {
        let rest = spec_parse_value(tm, j2, vars);
        match rest.0 {
            Err(k) => (Err(k), rest.1),
            Ok(r) => (Ok(spec_join_list(l, r, ListSeparator::Space)), rest.1),
        }
    } else {
        (Ok(l), j2)
    }
}

/// Joining a value onto a parsed continuation: when the continuation is
/// already a bare list with the same separator, the value goes in front
/// of its items, keeping lists flat; otherwise the two form a pair.
pub open spec fn spec_join_list(l: ValueModel, r: ValueModel, sep: ListSeparator) -> ValueModel {
    match r {
        ValueModel::List(items, s2, br) => if s2 == sep && br
            == crate::common::Brackets::Unbracketed {
            ValueModel::List(seq![l] + items, sep, crate::common::Brackets::Unbracketed)
        } else {
            ValueModel::List(seq![l, r], sep, crate::common::Brackets::Unbracketed)
        },
        _ => ValueModel::List(seq![l, r], sep, crate::common::Brackets::Unbracketed),
    }
}

/// How an executable parse step answers to the modeled one.
pub open spec fn parse_matches(
    r: (Result<Value, SassError>, usize),
    s: (Result<ValueModel, ErrorKind>, int),
) -> bool {
    r.1 == s.1 && match s.0 {
        Ok(m) => r.0 matches Ok(v) && value_model(v) == m,
        Err(k) => r.0 matches Err(e) && e.kind == k,
    }
}

/// Parses one value, then list and operator continuations, exactly as
/// the parse relation describes. The cursor never moves backward and a
/// parsed value consumes at least one token.
pub fn value_from_tokens(toks: &Vec<Token>, i: usize, scope: &Scope) -> (r: (
    Result<Value, SassError>,
    usize,
))
    requires
        i <= toks@.len(),
    ensures
        i <= r.1 <= toks@.len(),
        r.0 is Ok ==> i < r.1,
        parse_matches(r, spec_parse_value(toks_model(toks@), i as int, scope.var_map())),
    decreases toks@.len() - i, 1int,
{
    let ghost tm: Seq<TokKindModel> = toks_model(toks@);
    let (left, j) = value_one_token(toks, i, scope);
    let left = match left {
        Ok(v) => v,
        Err(e) => {
            return (Err(e), j);
        },
    };
    let j2 = devour_whitespace_tokens(toks, j);
    if j2 >= toks.len() {
        return (Ok(left), j2);
    }
    proof {
        assert(tm[j2 as int] == toks@[j2 as int]@);
    }
    proof {
        let sv = spec_parse_value(tm, i as int, scope.var_map());
        assert(sv == spec_parse_value_body(tm, i as int, scope.var_map()));
        let one = spec_parse_one(tm, i as int, scope.var_map());
        assert(one.1 == j as int);
        assert(one.0 == Ok::<ValueModel, ErrorKind>(value_model(left)));
        assert(spec_ws_end(tm, j as int) == j2 as int);
    }
    match &toks[j2].kind {
        TokenKind::Symbol(Symbol::SemiColon) => (Ok(left), j2),
        TokenKind::Symbol(Symbol::CloseParen) => (Ok(left), j2),
        TokenKind::Symbol(Symbol::CloseBrace) => (Ok(left), j2),
        TokenKind::Symbol(Symbol::Comma) => {
            let j3 = devour_whitespace_tokens(toks, j2 + 1);
            if j3 >= toks.len() || !can_start_value(&toks[j3]) {
                proof {
                    if j3 < toks@.len() {
                        assert(tm[j3 as int] == toks@[j3 as int]@);
                    }
                }
                return (Ok(left), j3);
            }
            proof {
                assert(tm[j3 as int] == toks@[j3 as int]@);
            }
            let (right, j4) = value_from_tokens(toks, j3, scope);
            match right {
                Ok(rv) => (Ok(join_list(left, rv, ListSeparator::Comma)), j4),
                Err(e) => (Err(e), j4),
            }
        },
        TokenKind::Symbol(Symbol::Plus) | TokenKind::Symbol(Symbol::Minus) | TokenKind::Symbol(
            Symbol::Mul,
        ) | TokenKind::Symbol(Symbol::Div) | TokenKind::Symbol(Symbol::Percent) => {
            let op: Op = match &toks[j2].kind {
                TokenKind::Symbol(Symbol::Plus) => Op::Plus,
                TokenKind::Symbol(Symbol::Minus) => Op::Minus,
                TokenKind::Symbol(Symbol::Mul) => Op::Mul,
                TokenKind::Symbol(Symbol::Div) => Op::Div,
                _ => Op::Rem,
            };
            let j3 = devour_whitespace_tokens(toks, j2 + 1);
            if j3 >= toks.len() || !can_start_value(&toks[j3]) {
                proof {
                    if j3 < toks@.len() {
                        assert(tm[j3 as int] == toks@[j3 as int]@);
                    }
                }
                return (Ok(left), j3);
            }
            proof {
                assert(tm[j3 as int] == toks@[j3 as int]@);
            }
            let (right, j4) = value_from_tokens(toks, j3, scope);
            match right {
                Ok(rv) => (Ok(Value::BinaryOp(Box::new(left), op, Box::new(rv))), j4),
                Err(e) => (Err(e), j4),
            }
        },
        _ => {
            if j2 > j && can_start_value(&toks[j2]) {
                let (right, j4) = value_from_tokens(toks, j2, scope);
                match right {
                    Ok(rv) => (Ok(join_list(left, rv, ListSeparator::Space)), j4),
                    Err(e) => (Err(e), j4),
                }
            } else {
                (Ok(left), j2)
            }
        },
    }
}

/// Whether a token can open a value, decided.
fn can_start_value(t: &Token) -> (r: bool)
    ensures
        r == spec_can_start_value(t@),
{
    match &t.kind {
        TokenKind::Number(_) => true,
        TokenKind::Ident(_) => true,
        TokenKind::Variable(_) => true,
        TokenKind::Symbol(Symbol::OpenParen) => true,
        TokenKind::Symbol(Symbol::SingleQuote) => true,
        TokenKind::Symbol(Symbol::DoubleQuote) => true,
        TokenKind::Keyword(Keyword::True) => true,
        TokenKind::Keyword(Keyword::False) => true,
        TokenKind::Keyword(Keyword::Null) => true,
        TokenKind::Keyword(Keyword::Important) => true,
        _ => false,
    }
}

/// Joins a value onto a parsed continuation, keeping lists flat.
fn join_list(l: Value, r: Value, sep: ListSeparator) -> (out: Value)
    ensures
        out@ == spec_join_list(l@, r@, sep),
{
    broadcast use crate::value::lemma_seq_value_model_len, crate::value::lemma_seq_value_model_index;

    match r {
        Value::List(items, s2, crate::common::Brackets::Unbracketed) => {
            if s2 == sep {
                let mut out: Vec<Value> = Vec::new();
                out.push(l);
                let mut k: usize = 0;
                let ghost itemsm: Seq<ValueModel> = crate::value::seq_value_model(items@);
                let ghost lm: ValueModel = crate::value::seq_value_model(out@)[0];
                #[verifier::loop_isolation(false)]
                while k < items.len()
                    invariant
                        k <= items@.len(),
                        crate::value::seq_value_model(out@) =~= seq![lm] + itemsm.subrange(
                            0,
                            k as int,
                        ),
                    decreases items@.len() - k,
                {
                    let ghost prev: Seq<ValueModel> = crate::value::seq_value_model(out@);
                    out.push(items[k].clone_value());
                    proof {
                        assert(crate::value::seq_value_model(out@) =~= prev.push(
                            value_model(items@[k as int]),
                        ));
                        assert(itemsm.subrange(0, k + 1 as int) =~= itemsm.subrange(
                            0,
                            k as int,
                        ).push(itemsm[k as int]));
                        assert(crate::value::seq_value_model(out@) =~= seq![lm]
                            + itemsm.subrange(0, k + 1 as int));
                    }
                    k = k + 1;
                }
                proof {
                    assert(itemsm.subrange(0, itemsm.len() as int) =~= itemsm);
                }
                Value::List(out, sep, crate::common::Brackets::Unbracketed)
            } else {
                let restored = Value::List(items, s2, crate::common::Brackets::Unbracketed);
                let mut out: Vec<Value> = Vec::new();
                out.push(l);
                out.push(restored);
                proof {
                    assert(crate::value::seq_value_model(out@) =~= seq![
                        crate::value::seq_value_model(out@)[0],
                        crate::value::seq_value_model(out@)[1],
                    ]);
                }
                Value::List(out, sep, crate::common::Brackets::Unbracketed)
            }
        },
        other => {
            let mut out: Vec<Value> = Vec::new();
            out.push(l);
            out.push(other);
            proof {
                assert(crate::value::seq_value_model(out@) =~= seq![
                    crate::value::seq_value_model(out@)[0],
                    crate::value::seq_value_model(out@)[1],
                ]);
            }
            Value::List(out, sep, crate::common::Brackets::Unbracketed)
        },
    }
}

/// Parses a single value exactly as the parse relation describes.
pub fn value_one_token(toks: &Vec<Token>, i: usize, scope: &Scope) -> (r: (
    Result<Value, SassError>,
    usize,
))
    requires
        i <= toks@.len(),
    ensures
        i <= r.1 <= toks@.len(),
        r.0 is Ok ==> i < r.1,
        parse_matches(r, spec_parse_one(toks_model(toks@), i as int, scope.var_map())),
    decreases toks@.len() - i, 0int,
{
    let ghost tm: Seq<TokKindModel> = toks_model(toks@);
    if i >= toks.len() {
        return (
            (
                Err(SassError::new(ErrorKind::Syntax, String::from_str("Expected expression."))),
                i,
            )
        );
    }
    proof {
        assert(tm[i as int] == toks@[i as int]@);
    }
    match &toks[i].kind {
        TokenKind::Number(text) => {
            let num = match parse_number(text.as_str()) {
                Some(n) => n,
                None => {
                    return (
                        (
                            Err(
                                SassError::new(
                                    ErrorKind::Syntax,
                                    String::from_str("Expected a number."),
                                ),
                            ),
                            i + 1,
                        )
                    );
                },
            };
            let mut j: usize = i + 1;
            let mut unit: Unit = Unit::NoUnit;
            if j < toks.len() {
                proof {
                    assert(tm[j as int] == toks@[j as int]@);
                }
                match &toks[j].kind {
                    TokenKind::Ident(u) => {
                        match Unit::from_name(u.as_str()) {
                            Some(found) => {
                                unit = found;
                                j = j + 1;
                            },
                            None => {},
                        }
                    },
                    TokenKind::UnitToken(u) => {
                        unit = *u;
                        j = j + 1;
                    },
                    _ => {},
                }
            }
            (Ok(Value::Dimension(num, unit)), j)
        },
        TokenKind::Symbol(Symbol::OpenParen) => {
            let j = devour_whitespace_tokens(toks, i + 1);
            let (inner, j2) = value_from_tokens(toks, j, scope);
            match inner {
                Ok(v) => {
                    let j3 = devour_whitespace_tokens(toks, j2);
                    if j3 < toks.len() && matches!(
                        &toks[j3].kind,
                        TokenKind::Symbol(Symbol::CloseParen),
                    ) {
                        proof {
                            assert(tm[j3 as int] == toks@[j3 as int]@);
                        }
                        (Ok(Value::Paren(Box::new(v))), j3 + 1)
                    } else {
                        proof {
                            if j3 < toks@.len() {
                                assert(tm[j3 as int] == toks@[j3 as int]@);
                            }
                        }
                        (
                            Err(
                                SassError::new(
                                    ErrorKind::Syntax,
                                    String::from_str("expected \")\""),
                                ),
                            ),
                            j3,
                        )
                    }
                },
                Err(e) => (Err(e), j2),
            }
        },
        TokenKind::Ident(s) => {
            let mut text = s.clone();
            let mut j: usize = i + 1;
            #[verifier::loop_isolation(false)]
            loop
                invariant
                    i < j <= toks@.len(),
                    spec_ident_absorb(tm, i + 1, toks@[i as int]@->Ident_0) == spec_ident_absorb(
                        tm,
                        j as int,
                        text@,
                    ),
                decreases toks@.len() - j,
            {
                if j >= toks.len() {
                    break ;
                }
                proof {
                    assert(tm[j as int] == toks@[j as int]@);
                }
                match &toks[j].kind {
                    TokenKind::Ident(more) => {
                        text.append(more.as_str());
                    },
                    _ => {
                        break ;
                    },
                }
                j = j + 1;
            }
            (Ok(Value::Ident(text, QuoteKind::Unquoted)), j)
        },
        TokenKind::Symbol(Symbol::DoubleQuote) => {
            let (text, j) = read_quoted(toks, i + 1, Symbol::DoubleQuote);
            (Ok(Value::Ident(text, QuoteKind::Double)), j)
        },
        TokenKind::Symbol(Symbol::SingleQuote) => {
            let (text, j) = read_quoted(toks, i + 1, Symbol::SingleQuote);
            (Ok(Value::Ident(text, QuoteKind::Single)), j)
        },
        TokenKind::Variable(name) => {
            match scope.get_var(name.as_str()) {
                Some(v) => (Ok(v), i + 1),
                None => {
                    let mut msg = String::from_str("Undefined variable: $");
                    msg.append(name.as_str());
                    msg.append(".");
                    (Err(SassError::new(ErrorKind::Name, msg)), i + 1)
                },
            }
        },
        TokenKind::Keyword(Keyword::True) => (Ok(Value::True), i + 1),
        TokenKind::Keyword(Keyword::False) => (Ok(Value::False), i + 1),
        TokenKind::Keyword(Keyword::Null) => (Ok(Value::Null), i + 1),
        TokenKind::Keyword(Keyword::Important) => (Ok(Value::Important), i + 1),
        _ => (
            (
                Err(SassError::new(ErrorKind::Syntax, String::from_str("Expected expression."))),
                i + 1,
            )
        ),
    }
}

/// Collects the text of a quoted string up to its closing quote.
fn read_quoted(toks: &Vec<Token>, i: usize, quote: Symbol) -> (r: (String, usize))
    requires
        i <= toks@.len(),
    ensures
        i <= r.1 <= toks@.len(),
        (r.0@, r.1 as int) == spec_read_quoted(toks_model(toks@), i as int, quote, Seq::empty()),
{
    let ghost tm: Seq<TokKindModel> = toks_model(toks@);
    let mut text = String::new();
    let mut j: usize = i;
    #[verifier::loop_isolation(false)]
    while j < toks.len()
        invariant
            i <= j <= toks@.len(),
            spec_read_quoted(tm, i as int, quote, Seq::empty()) == spec_read_quoted(
                tm,
                j as int,
                quote,
                text@,
            ),
        decreases toks@.len() - j,
    {
        proof {
            assert(tm[j as int] == toks@[j as int]@);
        }
        match &toks[j].kind {
            TokenKind::Symbol(s) => {
                if *s == quote {
                    return (text, j + 1);
                }
                let c = s.as_char();
                let mut one: Vec<char> = Vec::new();
                one.push(c);
                crate::strutil::push_chars(&mut text, &one);
                proof {
                    assert(one@ =~= seq![s.spec_char()]);
                }
            },
            TokenKind::Ident(w) => {
                text.append(w.as_str());
            },
            TokenKind::Number(w) => {
                text.append(w.as_str());
            },
            TokenKind::Whitespace(_) => {
                text.append(" ");
                proof {
                    reveal_strlit(" ");
                    assert(" "@ =~= seq![' ']);
                }
            },
            _ => {},
        }
        j = j + 1;
    }
    (text, j)
}

impl Value {
    /// Parses a value from the token stream, starting at a cursor, and
    /// returns the value with the cursor after it, exactly as the parse
    /// relation describes; terminators stay unconsumed.
    pub fn from_tokens(toks: &Vec<Token>, i: usize, scope: &Scope) -> (r: (
        Result<Value, SassError>,
        usize,
    ))
        requires
            i <= toks@.len(),
        ensures
            i <= r.1 <= toks@.len(),
            r.0 is Ok ==> i < r.1,
            parse_matches(r, spec_parse_value(toks_model(toks@), i as int, scope.var_map())),
    {
        value_from_tokens(toks, i, scope)
    }
}

} // verus!

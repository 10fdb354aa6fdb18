//! The at-rule engine: dispatches on the rule name, parses each rule's
//! prelude and body, evaluates what must be evaluated at parse time, and
//! stores what the statement driver replays.

use vstd::prelude::*;
use crate::common::{Keyword, Pos, Symbol};
use crate::error::{ErrorKind, SassError};
use crate::lexer::{toks_model, TokKindModel, Token, TokenKind};
use crate::scope::{Function, Mixin, Scope};
use crate::strutil::str_eq;
use crate::value::{value_model, Value, ValueModel};
use crate::value_parse::{
    devour_whitespace_tokens, spec_parse_one, spec_parse_value, spec_ws_end, value_from_tokens,
};

verus! {

/// The rules the engine dispatches on.
#[derive(Debug)]
pub enum AtRuleKind {
    ErrorRule,
    Warn,
    Debug,
    Mixin,
    Include,
    Function,
    Return,
    AtRoot,
    Charset,
    Each,
    If,
    For,
    While,
    Content,
    Unknown(String),
}

impl AtRuleKind {
    /// Reads a rule name: the first of the known names the text equals,
    /// else an unknown rule carrying the text.
    pub fn from_name(s: &str) -> (r: AtRuleKind)
        ensures
            if s@ == "error"@ {
                r is ErrorRule
            } else if s@ == "warn"@ {
                r is Warn
            } else if s@ == "debug"@ {
                r is Debug
            } else if s@ == "mixin"@ {
                r is Mixin
            } else if s@ == "include"@ {
                r is Include
            } else if s@ == "function"@ {
                r is Function
            } else if s@ == "return"@ {
                r is Return
            } else if s@ == "at-root"@ {
                r is AtRoot
            } else if s@ == "charset"@ {
                r is Charset
            } else if s@ == "each"@ {
                r is Each
            } else if s@ == "if"@ {
                r is If
            } else if s@ == "for"@ {
                r is For
            } else if s@ == "while"@ {
                r is While
            } else if s@ == "content"@ {
                r is Content
            } else {
                r matches AtRuleKind::Unknown(n) && n@ == s@
            },
    {
        if str_eq(s, "error") {
            AtRuleKind::ErrorRule
        } else if str_eq(s, "warn") {
            AtRuleKind::Warn
        } else if str_eq(s, "debug") {
            AtRuleKind::Debug
        } else if str_eq(s, "mixin") {
            AtRuleKind::Mixin
        } else if str_eq(s, "include") {
            AtRuleKind::Include
        } else if str_eq(s, "function") {
            AtRuleKind::Function
        } else if str_eq(s, "return") {
            AtRuleKind::Return
        } else if str_eq(s, "at-root") {
            AtRuleKind::AtRoot
        } else if str_eq(s, "charset") {
            AtRuleKind::Charset
        } else if str_eq(s, "each") {
            AtRuleKind::Each
        } else if str_eq(s, "if") {
            AtRuleKind::If
        } else if str_eq(s, "for") {
            AtRuleKind::For
        } else if str_eq(s, "while") {
            AtRuleKind::While
        } else if str_eq(s, "content") {
            AtRuleKind::Content
        } else {
            AtRuleKind::Unknown(String::from_str(s))
        }
    }
}

/// An at-rule the engine does not know: kept verbatim, body and all.
#[derive(Debug)]
pub struct UnknownAtRule {
    pub name: String,
    pub prelude: Vec<Token>,
    pub body: Vec<Token>,
}

/// An `each` rule: the bound names, the rows the iterator was coerced
/// to, and the body tokens replayed once per row.
#[derive(Debug)]
pub struct EachRule {
    pub vars: Vec<String>,
    pub rows: Vec<Value>,
    pub body: Vec<Token>,
}

/// A `for` rule: the counter, both bounds evaluated once, whether the
/// upper bound is included, and the body tokens.
#[derive(Debug)]
pub struct ForRule {
    pub var: String,
    pub from_val: i64,
    pub to_val: i64,
    pub inclusive: bool,
    pub body: Vec<Token>,
}

/// A `while` rule: the condition tokens, kept unevaluated so they can be
/// evaluated again against a changing scope, and the body tokens.
#[derive(Debug)]
pub struct WhileRule {
    pub cond: Vec<Token>,
    pub body: Vec<Token>,
}

/// An `if` rule: the condition tokens and the body tokens of the branch.
#[derive(Debug)]
pub struct IfRule {
    pub cond: Vec<Token>,
    pub body: Vec<Token>,
}

/// An `at-root` rule: the selector prelude that replaces the current
/// super-selector, and the body tokens.
#[derive(Debug)]
pub struct AtRootRule {
    pub selector: Vec<Token>,
    pub body: Vec<Token>,
}

/// An `include`: the mixin's name, the raw argument tokens, and the
/// content block, empty when none was written.
#[derive(Debug)]
pub struct IncludeRule {
    pub name: String,
    pub args: Vec<Token>,
    pub content: Vec<Token>,
}

/// One parsed at-rule.
#[derive(Debug)]
pub enum AtRule {
    Warn(Pos, String),
    Debug(Pos, String),
    Mixin(String, Box<Mixin>),
    Function(String, Box<Function>),
    Return(Vec<Token>),
    Charset,
    Content,
    Unknown(UnknownAtRule),
    Each(EachRule),
    For(ForRule),
    While(WhileRule),
    If(IfRule),
    AtRoot(AtRootRule),
    Include(IncludeRule),
}

/// The rule kind each parsed form answers to.
pub open spec fn rule_matches(k: AtRuleKind, a: AtRule) -> bool {
    match k {
        AtRuleKind::Warn => a is Warn,
        AtRuleKind::Debug => a is Debug,
        AtRuleKind::Mixin => a is Mixin,
        AtRuleKind::Function => a is Function,
        AtRuleKind::Return => a is Return,
        AtRuleKind::Charset => a is Charset,
        AtRuleKind::Content => a is Content,
        AtRuleKind::Each => a is Each,
        AtRuleKind::For => a is For,
        AtRuleKind::While => a is While,
        AtRuleKind::If => a is If,
        AtRuleKind::AtRoot => a is AtRoot,
        AtRuleKind::Unknown(_) => a is Unknown,
        AtRuleKind::ErrorRule => false,
        AtRuleKind::Include => a is Include,
    }
}


/// The models of a sequence of names.
pub open spec fn names_model(v: Seq<String>) -> Seq<Seq<char>> {
    Seq::new(v.len(), |i: int| v[i]@)
}

/// Where the cursor lands after one optional semicolon and the
/// whitespace behind it.
pub open spec fn spec_skip_semi(tm: Seq<TokKindModel>, j: int) -> int {
    spec_ws_end(
        tm,
        if 0 <= j < tm.len() && tm[j] == TokKindModel::Symbol(Symbol::SemiColon) {
            j + 1
        } else {
            j
        },
    )
}

/// The identifier read after optional whitespace, if one stands there.
pub open spec fn spec_name_at(tm: Seq<TokKindModel>, i: int) -> (Option<Seq<char>>, int) {
    let j = spec_ws_end(tm, i);
    if 0 <= j < tm.len() && tm[j] is Ident {
        (Some(tm[j]->Ident_0), j + 1)
    } else {
        (None, j)
    }
}

/// The variable name read after optional whitespace, if one stands there.
pub open spec fn spec_variable_at(tm: Seq<TokKindModel>, i: int) -> (Option<Seq<char>>, int) {
    let j = spec_ws_end(tm, i);
    if 0 <= j < tm.len() && tm[j] is Variable {
        (Some(tm[j]->Variable_0), j + 1)
    } else {
        (None, j)
    }
}

/// The parameter names up to a closing parenthesis.
pub open spec fn spec_params(tm: Seq<TokKindModel>, j: int) -> (Seq<Seq<char>>, int)
    decreases tm.len() - j,
{
    if j < 0 || j >= tm.len() {
        (Seq::empty(), j)
    } else {
        match tm[j] {
            TokKindModel::Symbol(s) => if s == Symbol::CloseParen {
                (Seq::empty(), j + 1)
            } else {
                spec_params(tm, j + 1)
            },
            TokKindModel::Variable(n) => {
                let r = spec_params(tm, j + 1);
                (seq![n] + r.0, r.1)
            },
            _ => spec_params(tm, j + 1),
        }
    }
}

/// The bound names of a counted iteration: variables separated by
/// commas and whitespace, up to the first other token.
pub open spec fn spec_scan_vars(tm: Seq<TokKindModel>, j: int) -> (Seq<Seq<char>>, int)
    decreases tm.len() - j,
{
    if j < 0 || j >= tm.len() {
        (Seq::empty(), j)
    } else {
        match tm[j] {
            TokKindModel::Variable(n) => {
                let r = spec_scan_vars(tm, j + 1);
                (seq![n] + r.0, r.1)
            },
            TokKindModel::Symbol(s) => if s == Symbol::Comma {
                spec_scan_vars(tm, j + 1)
            } else {
                (Seq::empty(), j)
            },
            TokKindModel::Whitespace(_) => spec_scan_vars(tm, j + 1),
            _ => (Seq::empty(), j),
        }
    }
}

/// One whole-number bound, parsed and evaluated.
pub open spec fn spec_bound_at(
    tm: Seq<TokKindModel>,
    j: int,
    vars: Map<Seq<char>, ValueModel>,
) -> (Option<int>, int) {
    let p = spec_parse_one(tm, j, vars);
    match p.0 {
        Err(_) => (None, p.1),
        Ok(m) => match crate::eval::spec_eval(m) {
            Ok(ev) => match ev {
                ValueModel::Dimension(n, _) => if n.denom >= 1 && n.numer % n.denom == 0 {
                    (Some(n.numer as int / n.denom as int), p.1)
                } else {
                    (None, p.1)
                },
                _ => (None, p.1),
            },
            Err(_) => (None, p.1),
        },
    }
}

/// The bindings an iteration leaves behind: rows bound first to last, a
/// single name taking each whole row, several names taking the row's
/// coerced elements in order, with null past its end.
pub open spec fn spec_bind_vars_upto(
    names: Seq<Seq<char>>,
    items: Seq<ValueModel>,
    n: int,
    m: Map<Seq<char>, ValueModel>,
) -> Map<Seq<char>, ValueModel>
    decreases n,
{
    if n <= 0 {
        m
    } else {
        spec_bind_vars_upto(names, items, n - 1, m).insert(
            names[n - 1],
            if n - 1 < items.len() {
                items[n - 1]
            } else {
                ValueModel::Null
            },
        )
    }
}

/// The bindings one row adds.
pub open spec fn spec_bind_row(
    names: Seq<Seq<char>>,
    row: ValueModel,
    m: Map<Seq<char>, ValueModel>,
) -> Map<Seq<char>, ValueModel> {
    if names.len() == 1 {
        m.insert(names[0], row)
    } else {
        spec_bind_vars_upto(names, crate::builtin::spec_coerce_list(row), names.len() as int, m)
    }
}

/// The bindings the first `n` rows leave.
pub open spec fn spec_each_bound_upto(
    names: Seq<Seq<char>>,
    rows: Seq<ValueModel>,
    n: int,
    m: Map<Seq<char>, ValueModel>,
) -> Map<Seq<char>, ValueModel>
    decreases n,
{
    if n <= 0 {
        m
    } else {
        spec_bind_row(names, rows[n - 1], spec_each_bound_upto(names, rows, n - 1, m))
    }
}

/// The bindings a whole iteration leaves: the last row's stand.
pub open spec fn spec_each_bound(
    names: Seq<Seq<char>>,
    rows: Seq<ValueModel>,
    m: Map<Seq<char>, ValueModel>,
) -> Map<Seq<char>, ValueModel> {
    spec_each_bound_upto(names, rows, rows.len() as int, m)
}

/// Where the scan for a semicolon or an opening brace stops.
pub open spec fn spec_until_semi_or_open(tm: Seq<TokKindModel>, i: int) -> int
    decreases tm.len() - i,
{
    if i < 0 || i >= tm.len() {
        i
    } else {
        match tm[i] {
            TokKindModel::Symbol(s) => if s == Symbol::SemiColon || s == Symbol::OpenBrace {
                i
            } else {
                spec_until_semi_or_open(tm, i + 1)
            },
            _ => spec_until_semi_or_open(tm, i + 1),
        }
    }
}

/// Copies the tokens up to a semicolon or an opening brace, leaving the
/// cursor on the stopping token.
pub fn read_until_semicolon_or_open_brace(toks: &Vec<Token>, i: usize) -> (r: (Vec<Token>, usize))
    requires
        i <= toks@.len(),
    ensures
        i <= r.1 <= toks@.len(),
        r.1 == spec_until_semi_or_open(toks_model(toks@), i as int),
        toks_model(r.0@) == toks_model(toks@).subrange(i as int, r.1 as int),
{
    let ghost tm: Seq<TokKindModel> = toks_model(toks@);
    let mut out: Vec<Token> = Vec::new();
    let mut j: usize = i;
    #[verifier::loop_isolation(false)]
    while j < toks.len() && !matches!(
        &toks[j].kind,
        TokenKind::Symbol(Symbol::SemiColon) | TokenKind::Symbol(Symbol::OpenBrace),
    )
        invariant
            i <= j <= toks@.len(),
            toks_model(out@) =~= tm.subrange(i as int, j as int),
            spec_until_semi_or_open(tm, i as int) == spec_until_semi_or_open(tm, j as int),
        decreases toks@.len() - j,
    {
        proof {
            assert(tm[j as int] == toks@[j as int]@);
        }
        out.push(clone_token(&toks[j]));
        proof {
            assert(toks_model(out@) =~= tm.subrange(i as int, j + 1 as int));
        }
        j = j + 1;
    }
    proof {
        if j < toks@.len() {
            assert(tm[j as int] == toks@[j as int]@);
        }
    }
    (out, j)
}

/// A copy of one token.
pub fn clone_token(t: &Token) -> (r: Token)
    ensures
        r@ == t@,
        r.pos == t.pos,
{
    let kind: TokenKind = match &t.kind {
        TokenKind::Ident(s) => TokenKind::Ident(s.clone()),
        TokenKind::Number(s) => TokenKind::Number(s.clone()),
        TokenKind::Variable(s) => TokenKind::Variable(s.clone()),
        TokenKind::Symbol(s) => TokenKind::Symbol(*s),
        TokenKind::Whitespace(w) => TokenKind::Whitespace(*w),
        TokenKind::UnitToken(u) => TokenKind::UnitToken(*u),
        TokenKind::Keyword(k) => TokenKind::Keyword(*k),
        TokenKind::AtRuleName(s) => TokenKind::AtRuleName(s.clone()),
        TokenKind::AttrSelector(a) => TokenKind::AttrSelector(
            crate::selector::Attribute {
                kind: a.kind,
                attr: a.attr.clone(),
                value: a.value.clone(),
                case_sensitive: a.case_sensitive,
            },
        ),
        TokenKind::Interpolation => TokenKind::Interpolation,
    };
    Token { kind, pos: t.pos }
}

/// Where the scan for a semicolon or an unopened closing brace stops.
pub open spec fn spec_until_semi_or_close(tm: Seq<TokKindModel>, i: int) -> int
    decreases tm.len() - i,
{
    if i < 0 || i >= tm.len() {
        i
    } else {
        match tm[i] {
            TokKindModel::Symbol(s) => if s == Symbol::SemiColon || s == Symbol::CloseBrace {
                i
            } else {
                spec_until_semi_or_close(tm, i + 1)
            },
            _ => spec_until_semi_or_close(tm, i + 1),
        }
    }
}

/// Copies the tokens up to a semicolon or an unopened closing brace,
/// leaving the cursor on the stopping token.
pub fn read_until_semicolon_or_closing_brace(toks: &Vec<Token>, i: usize) -> (r: (
    Vec<Token>,
    usize,
))
    requires
        i <= toks@.len(),
    ensures
        i <= r.1 <= toks@.len(),
        r.1 == spec_until_semi_or_close(toks_model(toks@), i as int),
        toks_model(r.0@) == toks_model(toks@).subrange(i as int, r.1 as int),
{
    let ghost tm: Seq<TokKindModel> = toks_model(toks@);
    let mut out: Vec<Token> = Vec::new();
    let mut j: usize = i;
    #[verifier::loop_isolation(false)]
    while j < toks.len() && !matches!(
        &toks[j].kind,
        TokenKind::Symbol(Symbol::SemiColon) | TokenKind::Symbol(Symbol::CloseBrace),
    )
        invariant
            i <= j <= toks@.len(),
            toks_model(out@) =~= tm.subrange(i as int, j as int),
            spec_until_semi_or_close(tm, i as int) == spec_until_semi_or_close(tm, j as int),
        decreases toks@.len() - j,
    {
        proof {
            assert(tm[j as int] == toks@[j as int]@);
        }
        out.push(clone_token(&toks[j]));
        proof {
            assert(toks_model(out@) =~= tm.subrange(i as int, j + 1 as int));
        }
        j = j + 1;
    }
    proof {
        if j < toks@.len() {
            assert(tm[j as int] == toks@[j as int]@);
        }
    }
    (out, j)
}

/// Where the scan for an opening brace stops.
pub open spec fn spec_until_open(tm: Seq<TokKindModel>, i: int) -> int
    decreases tm.len() - i,
{
    if i < 0 || i >= tm.len() {
        i
    } else {
        match tm[i] {
            TokKindModel::Symbol(s) => if s == Symbol::OpenBrace {
                i
            } else {
                spec_until_open(tm, i + 1)
            },
            _ => spec_until_open(tm, i + 1),
        }
    }
}

/// Copies the tokens up to an opening brace, leaving the cursor on it.
pub fn read_until_open_brace(toks: &Vec<Token>, i: usize) -> (r: (Vec<Token>, usize))
    requires
        i <= toks@.len(),
    ensures
        i <= r.1 <= toks@.len(),
        r.1 == spec_until_open(toks_model(toks@), i as int),
        toks_model(r.0@) == toks_model(toks@).subrange(i as int, r.1 as int),
{
    let ghost tm: Seq<TokKindModel> = toks_model(toks@);
    let mut out: Vec<Token> = Vec::new();
    let mut j: usize = i;
    #[verifier::loop_isolation(false)]
    while j < toks.len() && !matches!(&toks[j].kind, TokenKind::Symbol(Symbol::OpenBrace))
        invariant
            i <= j <= toks@.len(),
            toks_model(out@) =~= tm.subrange(i as int, j as int),
            spec_until_open(tm, i as int) == spec_until_open(tm, j as int),
        decreases toks@.len() - j,
    {
        proof {
            assert(tm[j as int] == toks@[j as int]@);
        }
        out.push(clone_token(&toks[j]));
        proof {
            assert(toks_model(out@) =~= tm.subrange(i as int, j + 1 as int));
        }
        j = j + 1;
    }
    proof {
        if j < toks@.len() {
            assert(tm[j as int] == toks@[j as int]@);
        }
    }
    (out, j)
}

/// Where the scan over a balanced body stops (the cursor after the
/// matching closing brace, or the end of the tokens), and whether that
/// closing brace was found.
pub open spec fn spec_until_close(tm: Seq<TokKindModel>, i: int, depth: int) -> (int, bool)
    decreases tm.len() - i,
{
    if i < 0 || i >= tm.len() {
        (i, false)
    } else {
        match tm[i] {
            TokKindModel::Symbol(s) => if s == Symbol::CloseBrace {
                if depth == 0 {
                    (i + 1, true)
                } else {
                    spec_until_close(tm, i + 1, depth - 1)
                }
            } else if s == Symbol::OpenBrace {
                spec_until_close(
                    tm,
                    i + 1,
                    if depth < u64::MAX {
                        depth + 1
                    } else {
                        depth
                    },
                )
            } else {
                spec_until_close(tm, i + 1, depth)
            },
            _ => spec_until_close(tm, i + 1, depth),
        }
    }
}

/// The body a balanced scan copies: everything up to the matching
/// closing brace, which is left out; with no closing brace, everything
/// to the end.
pub open spec fn spec_body_slice(tm: Seq<TokKindModel>, i: int) -> Seq<TokKindModel> {
    let s = spec_until_close(tm, i, 0);
    if s.1 {
        tm.subrange(i, s.0 - 1)
    } else {
        tm.subrange(i, s.0)
    }
}

/// Copies the tokens of a balanced body, entered just after its opening
/// brace, up to and excluding the matching closing brace; the cursor
/// lands after that brace.
pub fn read_until_closing_brace(toks: &Vec<Token>, i: usize) -> (r: (Vec<Token>, usize))
    requires
        i <= toks@.len(),
    ensures
        i <= r.1 <= toks@.len(),
        r.1 == spec_until_close(toks_model(toks@), i as int, 0).0,
        toks_model(r.0@) == spec_body_slice(toks_model(toks@), i as int),
{
    let ghost tm: Seq<TokKindModel> = toks_model(toks@);
    let mut out: Vec<Token> = Vec::new();
    let mut j: usize = i;
    let mut depth: u64 = 0;
    #[verifier::loop_isolation(false)]
    while j < toks.len()
        invariant
            i <= j <= toks@.len(),
            toks_model(out@) =~= tm.subrange(i as int, j as int),
            spec_until_close(tm, i as int, 0) == spec_until_close(tm, j as int, depth as int),
        decreases toks@.len() - j,
    {
        proof {
            assert(tm[j as int] == toks@[j as int]@);
        }
        match &toks[j].kind {
            TokenKind::Symbol(Symbol::OpenBrace) => {
                if depth < u64::MAX {
                    depth = depth + 1;
                }
                out.push(clone_token(&toks[j]));
            },
            TokenKind::Symbol(Symbol::CloseBrace) => {
                if depth == 0 {
                    proof {
                        assert(toks_model(out@) =~= spec_body_slice(tm, i as int));
                    }
                    return (out, j + 1);
                }
                depth = depth - 1;
                out.push(clone_token(&toks[j]));
            },
            _ => {
                out.push(clone_token(&toks[j]));
            },
        }
        proof {
            assert(toks_model(out@) =~= tm.subrange(i as int, j + 1 as int));
        }
        j = j + 1;
    }
    proof {
        assert(toks_model(out@) =~= spec_body_slice(tm, i as int));
    }
    (out, j)
}

/// Reads the parameter names between parentheses: variables separated by
/// commas, other tokens skipped.
fn read_params(toks: &Vec<Token>, i: usize) -> (r: (Vec<String>, usize))
    requires
        i <= toks@.len(),
    ensures
        i <= r.1 <= toks@.len(),
        names_model(r.0@) == spec_params(toks_model(toks@), i as int).0,
        r.1 == spec_params(toks_model(toks@), i as int).1,
{
    let ghost tm: Seq<TokKindModel> = toks_model(toks@);
    let mut out: Vec<String> = Vec::new();
    let mut j: usize = i;
    #[verifier::loop_isolation(false)]
    while j < toks.len() && !matches!(&toks[j].kind, TokenKind::Symbol(Symbol::CloseParen))
        invariant
            i <= j <= toks@.len(),
            spec_params(tm, i as int).0 =~= names_model(out@) + spec_params(tm, j as int).0,
            spec_params(tm, i as int).1 == spec_params(tm, j as int).1,
        decreases toks@.len() - j,
    {
        proof {
            assert(tm[j as int] == toks@[j as int]@);
        }
        match &toks[j].kind {
            TokenKind::Variable(name) => {
                let ghost b4: Seq<Seq<char>> = names_model(out@);
                out.push(name.clone());
                proof {
                    assert(names_model(out@) =~= b4.push(name@));
                    assert(spec_params(tm, i as int).0 =~= names_model(out@) + spec_params(
                        tm,
                        j + 1,
                    ).0);
                }
            },
            _ => {},
        }
        j = j + 1;
    }
    proof {
        if j < toks@.len() {
            assert(tm[j as int] == toks@[j as int]@);
        }
        assert(spec_params(tm, i as int).0 =~= names_model(out@));
    }
    if j < toks.len() {
        (out, j + 1)
    } else {
        (out, j)
    }
}

impl AtRule {
    /// Parses one at-rule at the cursor, after its name, exactly as the
    /// clauses below describe against the token models: diagnostics
    /// evaluate and serialize their message at once, declarations land
    /// in the scope, an iteration evaluates its rows and binds them into
    /// the caller's scope with the last row's bindings persisting, and
    /// the remaining control rules evaluate their prelude and keep their
    /// body tokens for the statement driver.
    #[verifier::rlimit(100)]
    pub fn from_tokens(
        rule: &AtRuleKind,
        pos: Pos,
        toks: &Vec<Token>,
        i: usize,
        scope: &mut Scope,
    ) -> (r: (Result<AtRule, SassError>, usize))
        requires
            i <= toks@.len(),
        ensures
            i <= r.1 <= toks@.len(),
            r.0 matches Ok(a) ==> rule_matches(*rule, a),
            !(rule is Each) ==> final(scope).var_map() == old(scope).var_map(),
            !(rule is Mixin) ==> final(scope).mixins@ == old(scope).mixins@,
            !(rule is Function) ==> final(scope).functions@ == old(scope).functions@,
            rule is ErrorRule ==> ({
                let tm = toks_model(toks@);
                let p = spec_parse_value(tm, spec_ws_end(tm, i as int), old(scope).var_map());
                match p.0 {
                    Ok(m) => r.0 matches Err(e) && e.kind == ErrorKind::User && e.message@
                        == crate::serialize::spec_value_string(m),
                    Err(k) => r.0 matches Err(e) && e.kind == k,
                }
            }),
            rule is Warn ==> ({
                let tm = toks_model(toks@);
                let p = spec_parse_value(tm, spec_ws_end(tm, i as int), old(scope).var_map());
                match p.0 {
                    Ok(m) => r.0 matches Ok(a) && (a matches AtRule::Warn(pp, msg) && pp == pos
                        && msg@ == crate::serialize::spec_value_string(m)) && r.1
                        == spec_skip_semi(tm, p.1),
                    Err(k) => r.0 matches Err(e) && e.kind == k,
                }
            }),
            rule is Debug ==> ({
                let tm = toks_model(toks@);
                let p = spec_parse_value(tm, spec_ws_end(tm, i as int), old(scope).var_map());
                match p.0 {
                    Ok(m) => r.0 matches Ok(a) && (a matches AtRule::Debug(pp, msg) && pp == pos
                        && msg@ == crate::serialize::spec_value_string(m)) && r.1
                        == spec_skip_semi(tm, p.1),
                    Err(k) => r.0 matches Err(e) && e.kind == k,
                }
            }),
            rule is Charset ==> ({
                let tm = toks_model(toks@);
                r.0 matches Ok(a) && a is Charset && r.1 == spec_skip_semi(
                    tm,
                    spec_until_semi_or_close(tm, spec_ws_end(tm, i as int)),
                )
            }),
            rule is Content ==> ({
                let tm = toks_model(toks@);
                r.0 matches Ok(a) && a is Content && r.1 == spec_ws_end(tm, i as int)
            }),
            rule is Return ==> ({
                let tm = toks_model(toks@);
                let j0 = spec_ws_end(tm, i as int);
                let stop = spec_until_semi_or_close(tm, j0);
                r.0 matches Ok(a) && (a matches AtRule::Return(body) && toks_model(body@)
                    == tm.subrange(j0, stop)) && r.1 == spec_skip_semi(tm, stop)
            }),
            rule is While ==> ({
                let tm = toks_model(toks@);
                let j0 = spec_ws_end(tm, i as int);
                let c_end = spec_until_open(tm, j0);
                if c_end == j0 {
                    r.0 matches Err(e) && e.kind == ErrorKind::Syntax
                } else {
                    let b0 = if c_end < tm.len() {
                        c_end + 1
                    } else {
                        c_end
                    };
                    r.0 matches Ok(a) && (a matches AtRule::While(w) && toks_model(w.cond@)
                        == tm.subrange(j0, c_end) && toks_model(w.body@) == spec_body_slice(
                        tm,
                        b0,
                    ))
                }
            }),
            rule is If ==> ({
                let tm = toks_model(toks@);
                let j0 = spec_ws_end(tm, i as int);
                let c_end = spec_until_open(tm, j0);
                let b0 = if c_end < tm.len() {
                    c_end + 1
                } else {
                    c_end
                };
                r.0 matches Ok(a) && (a matches AtRule::If(f) && toks_model(f.cond@)
                    == tm.subrange(j0, c_end) && toks_model(f.body@) == spec_body_slice(tm, b0))
            }),
            rule is AtRoot ==> ({
                let tm = toks_model(toks@);
                let j0 = spec_ws_end(tm, i as int);
                let s_end = spec_until_open(tm, j0);
                let b0 = if s_end < tm.len() {
                    s_end + 1
                } else {
                    s_end
                };
                r.0 matches Ok(a) && (a matches AtRule::AtRoot(ar) && toks_model(ar.selector@)
                    == tm.subrange(j0, s_end) && toks_model(ar.body@) == spec_body_slice(tm, b0))
            }),
            rule matches AtRuleKind::Unknown(name) ==> ({
                let tm = toks_model(toks@);
                let j0 = spec_ws_end(tm, i as int);
                let p_end = spec_until_open(tm, j0);
                r.0 matches Ok(a) && (a matches AtRule::Unknown(u) && u.name@ == name@
                    && toks_model(u.prelude@) == tm.subrange(j0, p_end) && (if p_end < tm.len()
                    && tm[p_end] == TokKindModel::Symbol(Symbol::OpenBrace) {
                    toks_model(u.body@) == spec_body_slice(tm, p_end + 1)
                } else {
                    u.body@.len() == 0
                }))
            }),
            rule is Mixin ==> ({
                let tm = toks_model(toks@);
                let nm = spec_name_at(tm, i as int);
                match nm.0 {
                    None => r.0 matches Err(e) && e.kind == ErrorKind::Syntax,
                    Some(name) => {
                        let j1 = spec_ws_end(tm, nm.1);
                        let ar = if 0 <= j1 < tm.len() && tm[j1] == TokKindModel::Symbol(
                            Symbol::OpenParen,
                        ) {
                            spec_params(tm, j1 + 1)
                        } else {
                            (Seq::<Seq<char>>::empty(), j1)
                        };
                        let j3 = spec_until_open(tm, ar.1);
                        let b0 = if j3 < tm.len() {
                            j3 + 1
                        } else {
                            j3
                        };
                        r.0 matches Ok(a) && (a matches AtRule::Mixin(n, m) && n@ == name
                            && names_model(m.args@) == ar.0 && toks_model(m.body@)
                            == spec_body_slice(tm, b0)) && final(scope).mixins@.len() == old(scope).mixins@.len() + 1 && final(scope).mixins@.last().0@ == name
                            && names_model(final(scope).mixins@.last().1.args@) == ar.0
                            && toks_model(final(scope).mixins@.last().1.body@)
                            == spec_body_slice(tm, b0) && final(scope).mixins@.subrange(
                            0,
                            old(scope).mixins@.len() as int,
                        ) == old(scope).mixins@
                    },
                }
            }),
            rule is Function ==> ({
                let tm = toks_model(toks@);
                let nm = spec_name_at(tm, i as int);
                match nm.0 {
                    None => r.0 matches Err(e) && e.kind == ErrorKind::Syntax,
                    Some(name) => {
                        let j1 = spec_ws_end(tm, nm.1);
                        let ar = if 0 <= j1 < tm.len() && tm[j1] == TokKindModel::Symbol(
                            Symbol::OpenParen,
                        ) {
                            spec_params(tm, j1 + 1)
                        } else {
                            (Seq::<Seq<char>>::empty(), j1)
                        };
                        let j3 = spec_until_open(tm, ar.1);
                        let b0 = if j3 < tm.len() {
                            j3 + 1
                        } else {
                            j3
                        };
                        r.0 matches Ok(a) && (a matches AtRule::Function(n, f) && n@ == name
                            && names_model(f.args@) == ar.0 && toks_model(f.body@)
                            == spec_body_slice(tm, b0)) && final(scope).functions@.len() == old(scope).functions@.len() + 1 && final(scope).functions@.last().0@ == name
                            && final(scope).functions@.subrange(
                            0,
                            old(scope).functions@.len() as int,
                        ) == old(scope).functions@
                    },
                }
            }),
            rule is Include ==> ({
                let tm = toks_model(toks@);
                let nm = spec_name_at(tm, i as int);
                match nm.0 {
                    None => r.0 matches Err(e) && e.kind == ErrorKind::Syntax,
                    Some(name) => if forall|l: int|
                        0 <= l < old(scope).mixins@.len() ==> (#[trigger] old(scope).mixins@[l].0)@ != name {
                        r.0 matches Err(e) && e.kind == ErrorKind::Name
                    } else {
                        let a_end = spec_until_semi_or_open(tm, nm.1);
                        r.0 matches Ok(a) && (a matches AtRule::Include(inc) && inc.name@ == name
                            && toks_model(inc.args@) == tm.subrange(nm.1, a_end) && (if a_end
                            < tm.len() && tm[a_end] == TokKindModel::Symbol(Symbol::OpenBrace) {
                            toks_model(inc.content@) == spec_body_slice(tm, a_end + 1)
                        } else {
                            inc.content@.len() == 0
                        }))
                    },
                }
            }),
            rule is Each ==> ({
                let tm = toks_model(toks@);
                let j0 = spec_ws_end(tm, i as int);
                if !(0 <= j0 < tm.len() && tm[j0] is Variable) {
                    r.0 matches Err(e) && e.kind == ErrorKind::Syntax && final(scope).var_map()
                        == old(scope).var_map()
                } else {
                    let sv = spec_scan_vars(tm, j0);
                    let jw = spec_ws_end(tm, sv.1);
                    if !(0 <= jw < tm.len() && tm[jw] == TokKindModel::Keyword(Keyword::In)) {
                        r.0 matches Err(e) && e.kind == ErrorKind::Syntax && final(scope).var_map() == old(scope).var_map()
                    } else {
                        let p = spec_parse_value(
                            tm,
                            spec_ws_end(tm, jw + 1),
                            old(scope).var_map(),
                        );
                        match p.0 {
                            Err(k) => r.0 matches Err(e) && e.kind == k && final(scope).var_map() == old(scope).var_map(),
                            Ok(m) => match crate::eval::spec_eval(m) {
                                Err(k) => r.0 matches Err(e) && e.kind == k && final(scope).var_map() == old(scope).var_map(),
                                Ok(ev) => {
                                    let rows = crate::builtin::spec_coerce_list(ev);
                                    let j4 = spec_until_open(tm, p.1);
                                    let b0 = if j4 < tm.len() {
                                        j4 + 1
                                    } else {
                                        j4
                                    };
                                    r.0 matches Ok(a) && (a matches AtRule::Each(er)
                                        && names_model(er.vars@) == sv.0 && crate::value::seq_value_model(
                                        er.rows@,
                                    ) == rows && toks_model(er.body@) == spec_body_slice(tm, b0))
                                        && final(scope).var_map() == spec_each_bound(
                                        sv.0,
                                        rows,
                                        old(scope).var_map(),
                                    )
                                },
                            },
                        }
                    }
                }
            }),
            rule is For ==> ({
                let tm = toks_model(toks@);
                let vn = spec_variable_at(tm, i as int);
                match vn.0 {
                    None => r.0 matches Err(e) && e.kind == ErrorKind::Syntax,
                    Some(var) => {
                        let w1 = spec_name_at(tm, vn.1);
                        if !(w1.0 matches Some(t) && t == "from"@) {
                            r.0 matches Err(e) && e.kind == ErrorKind::Syntax
                        } else {
                            let b1 = spec_bound_at(
                                tm,
                                spec_ws_end(tm, w1.1),
                                old(scope).var_map(),
                            );
                            match b1.0 {
                                None => r.0 matches Err(e) && e.kind == ErrorKind::Type,
                                Some(from_k) => {
                                    let w2 = spec_name_at(tm, b1.1);
                                    if !(w2.0 matches Some(t) && (t == "through"@ || t
                                        == "to"@)) {
                                        r.0 matches Err(e) && e.kind == ErrorKind::Syntax
                                    } else {
                                        let b2 = spec_bound_at(
                                            tm,
                                            spec_ws_end(tm, w2.1),
                                            old(scope).var_map(),
                                        );
                                        match b2.0 {
                                            None => r.0 matches Err(e) && e.kind
                                                == ErrorKind::Type,
                                            Some(to_k) => {
                                                let j7 = spec_until_open(tm, b2.1);
                                                let b0 = if j7 < tm.len() {
                                                    j7 + 1
                                                } else {
                                                    j7
                                                };
                                                r.0 matches Ok(a) && (a matches AtRule::For(f)
                                                    && f.var@ == var && f.from_val == from_k
                                                    && f.to_val == to_k && (f.inclusive <==> (
                                                w2.0 matches Some(t) && t == "through"@))
                                                    && toks_model(f.body@) == spec_body_slice(
                                                    tm,
                                                    b0,
                                                ))
                                            },
                                        }
                                    }
                                }
                            }
                        }
                    },
                }
            }),
    {
        let ghost tm: Seq<TokKindModel> = toks_model(toks@);
        let ghost m0: Map<Seq<char>, ValueModel> = scope.var_map();
        let j0 = devour_whitespace_tokens(toks, i);
        match rule {
            AtRuleKind::ErrorRule => {
                let (v, j) = value_from_tokens(toks, j0, scope);
                match v {
                    Ok(val) => {
                        (
                            Err(SassError::new(ErrorKind::User, val.to_css_string())),
                            skip_semicolon(toks, j),
                        )
                    },
                    Err(e) => (Err(e), j),
                }
            },
            AtRuleKind::Warn => {
                let (v, j) = value_from_tokens(toks, j0, scope);
                match v {
                    Ok(val) => {
                        let j2 = skip_semicolon(toks, j);
                        (Ok(AtRule::Warn(pos, val.to_css_string())), j2)
                    },
                    Err(e) => (Err(e), j),
                }
            },
            AtRuleKind::Debug => {
                let (v, j) = value_from_tokens(toks, j0, scope);
                match v {
                    Ok(val) => {
                        let j2 = skip_semicolon(toks, j);
                        (Ok(AtRule::Debug(pos, val.inspect())), j2)
                    },
                    Err(e) => (Err(e), j),
                }
            },
            AtRuleKind::Charset => {
                let (_skipped, j) = read_until_semicolon_or_closing_brace(toks, j0);
                (Ok(AtRule::Charset), skip_semicolon(toks, j))
            },
            AtRuleKind::Content => (Ok(AtRule::Content), j0),
            AtRuleKind::Return => {
                let (body, j) = read_until_semicolon_or_closing_brace(toks, j0);
                (Ok(AtRule::Return(body)), skip_semicolon(toks, j))
            },
            AtRuleKind::Mixin => parse_mixin_rule(toks, i, scope),
            AtRuleKind::Function => parse_function_rule(toks, i, scope),
            AtRuleKind::Include => parse_include_rule(toks, i, scope),
            AtRuleKind::Each => parse_each_rule(toks, i, scope),
            AtRuleKind::For => parse_for_rule(toks, i, scope),
            AtRuleKind::While => {
                let (cond, j) = read_until_open_brace(toks, j0);
                if cond.len() == 0 {
                    proof {
                        assert(toks_model(cond@).len() == 0);
                        assert(spec_until_open(tm, j0 as int) == j0 as int);
                    }
                    return (
                        (
                            Err(
                                SassError::new(
                                    ErrorKind::Syntax,
                                    String::from_str("Expected expression."),
                                ),
                            ),
                            j,
                        )
                    );
                }
                let j1 = if j < toks.len() {
                    j + 1
                } else {
                    j
                };
                let (body, j2) = read_until_closing_brace(toks, j1);
                proof {
                    assert(toks_model(cond@).len() > 0);
                }
                (Ok(AtRule::While(WhileRule { cond, body })), j2)
            },
            AtRuleKind::If => {
                let (cond, j) = read_until_open_brace(toks, j0);
                let j1 = if j < toks.len() {
                    j + 1
                } else {
                    j
                };
                let (body, j2) = read_until_closing_brace(toks, j1);
                (Ok(AtRule::If(IfRule { cond, body })), j2)
            },
            AtRuleKind::AtRoot => {
                let (selector, j) = read_until_open_brace(toks, j0);
                let j1 = if j < toks.len() {
                    j + 1
                } else {
                    j
                };
                let (body, j2) = read_until_closing_brace(toks, j1);
                (Ok(AtRule::AtRoot(AtRootRule { selector, body })), j2)
            },
            AtRuleKind::Unknown(name) => {
                let (prelude, j) = read_until_open_brace(toks, j0);
                proof {
                    if j < toks@.len() {
                        assert(tm[j as int] == toks@[j as int]@);
                    }
                }
                if j < toks.len() && matches!(&toks[j].kind, TokenKind::Symbol(Symbol::OpenBrace)) {
                    let (body, j2) = read_until_closing_brace(toks, j + 1);
                    (
                        Ok(AtRule::Unknown(UnknownAtRule { name: name.clone(), prelude, body })),
                        j2,
                    )
                } else {
                    (
                        Ok(
                            AtRule::Unknown(
                                UnknownAtRule { name: name.clone(), prelude, body: Vec::new() },
                            ),
                        ),
                        j,
                    )
                }
            },
        }
    }
}


/// One at-rule arm, parsed with the same contract the dispatcher states.
#[verifier::rlimit(100)]
fn parse_mixin_rule(toks: &Vec<Token>, i: usize, scope: &mut Scope) -> (r: (
    Result<AtRule, SassError>,
    usize,
))
    requires
        i <= toks@.len(),
        i == spec_ws_end(toks_model(toks@), i as int) || true,
    ensures
        i <= r.1 <= toks@.len(),
        final(scope).var_map() == old(scope).var_map(),
        final(scope).functions@ == old(scope).functions@,
        ({
                let tm = toks_model(toks@);
                let nm = spec_name_at(tm, i as int);
                match nm.0 {
                    None => r.0 matches Err(e) && e.kind == ErrorKind::Syntax,
                    Some(name) => {
                        let j1 = spec_ws_end(tm, nm.1);
                        let ar = if 0 <= j1 < tm.len() && tm[j1] == TokKindModel::Symbol(
                            Symbol::OpenParen,
                        ) {
                            spec_params(tm, j1 + 1)
                        } else {
                            (Seq::<Seq<char>>::empty(), j1)
                        };
                        let j3 = spec_until_open(tm, ar.1);
                        let b0 = if j3 < tm.len() {
                            j3 + 1
                        } else {
                            j3
                        };
                        r.0 matches Ok(a) && (a matches AtRule::Mixin(n, m) && n@ == name
                            && names_model(m.args@) == ar.0 && toks_model(m.body@)
                            == spec_body_slice(tm, b0)) && final(scope).mixins@.len() == old(scope).mixins@.len() + 1 && final(scope).mixins@.last().0@ == name
                            && names_model(final(scope).mixins@.last().1.args@) == ar.0
                            && toks_model(final(scope).mixins@.last().1.body@)
                            == spec_body_slice(tm, b0) && final(scope).mixins@.subrange(
                            0,
                            old(scope).mixins@.len() as int,
                        ) == old(scope).mixins@
                    },
                }
            }),
{
    let ghost tm: Seq<TokKindModel> = toks_model(toks@);
    let ghost m0: Map<Seq<char>, ValueModel> = scope.var_map();
    let j0 = devour_whitespace_tokens(toks, i);
    
                let (name, j) = read_name(toks, i);
                let name = match name {
                    Some(n) => n,
                    None => {
                        return (
                            (
                                Err(
                                    SassError::new(
                                        ErrorKind::Syntax,
                                        String::from_str("Expected identifier."),
                                    ),
                                ),
                                j,
                            )
                        );
                    },
                };
                let j1 = devour_whitespace_tokens(toks, j);
                proof {
                    if j1 < toks@.len() {
                        assert(tm[j1 as int] == toks@[j1 as int]@);
                    }
                }
                let (args, j2) = if j1 < toks.len() && matches!(
                    &toks[j1].kind,
                    TokenKind::Symbol(Symbol::OpenParen),
                ) {
                    read_params(toks, j1 + 1)
                } else {
                    (Vec::new(), j1)
                };
                let (_prelude, j3) = read_until_open_brace(toks, j2);
                let j4 = if j3 < toks.len() {
                    j3 + 1
                } else {
                    j3
                };
                let (body, j5) = read_until_closing_brace(toks, j4);
                let m = Mixin { args, body };
                let mcopy = Mixin { args: clone_names(&m.args), body: clone_tokens(&m.body) };
                proof {
                    assert(names_model(mcopy.args@) =~= names_model(m.args@));
                    assert(toks_model(mcopy.body@) =~= toks_model(m.body@));
                }
                scope.insert_mixin(name.clone(), m);
                proof {
                    assert(scope.mixins@.subrange(0, old(scope).mixins@.len() as int)
                        =~= old(scope).mixins@);
                }
                (Ok(AtRule::Mixin(name, Box::new(mcopy))), j5)
            
}

/// One at-rule arm, parsed with the same contract the dispatcher states.
#[verifier::rlimit(100)]
fn parse_function_rule(toks: &Vec<Token>, i: usize, scope: &mut Scope) -> (r: (
    Result<AtRule, SassError>,
    usize,
))
    requires
        i <= toks@.len(),
        i == spec_ws_end(toks_model(toks@), i as int) || true,
    ensures
        i <= r.1 <= toks@.len(),
        final(scope).var_map() == old(scope).var_map(),
        final(scope).mixins@ == old(scope).mixins@,
        ({
                let tm = toks_model(toks@);
                let nm = spec_name_at(tm, i as int);
                match nm.0 {
                    None => r.0 matches Err(e) && e.kind == ErrorKind::Syntax,
                    Some(name) => {
                        let j1 = spec_ws_end(tm, nm.1);
                        let ar = if 0 <= j1 < tm.len() && tm[j1] == TokKindModel::Symbol(
                            Symbol::OpenParen,
                        ) {
                            spec_params(tm, j1 + 1)
                        } else {
                            (Seq::<Seq<char>>::empty(), j1)
                        };
                        let j3 = spec_until_open(tm, ar.1);
                        let b0 = if j3 < tm.len() {
                            j3 + 1
                        } else {
                            j3
                        };
                        r.0 matches Ok(a) && (a matches AtRule::Function(n, f) && n@ == name
                            && names_model(f.args@) == ar.0 && toks_model(f.body@)
                            == spec_body_slice(tm, b0)) && final(scope).functions@.len() == old(scope).functions@.len() + 1 && final(scope).functions@.last().0@ == name
                            && final(scope).functions@.subrange(
                            0,
                            old(scope).functions@.len() as int,
                        ) == old(scope).functions@
                    },
                }
            }),
{
    let ghost tm: Seq<TokKindModel> = toks_model(toks@);
    let ghost m0: Map<Seq<char>, ValueModel> = scope.var_map();
    let j0 = devour_whitespace_tokens(toks, i);
    
                let (name, j) = read_name(toks, i);
                let name = match name {
                    Some(n) => n,
                    None => {
                        return (
                            (
                                Err(
                                    SassError::new(
                                        ErrorKind::Syntax,
                                        String::from_str("Expected identifier."),
                                    ),
                                ),
                                j,
                            )
                        );
                    },
                };
                let j1 = devour_whitespace_tokens(toks, j);
                proof {
                    if j1 < toks@.len() {
                        assert(tm[j1 as int] == toks@[j1 as int]@);
                    }
                }
                let (args, j2) = if j1 < toks.len() && matches!(
                    &toks[j1].kind,
                    TokenKind::Symbol(Symbol::OpenParen),
                ) {
                    read_params(toks, j1 + 1)
                } else {
                    (Vec::new(), j1)
                };
                let (_prelude, j3) = read_until_open_brace(toks, j2);
                let j4 = if j3 < toks.len() {
                    j3 + 1
                } else {
                    j3
                };
                let (body, j5) = read_until_closing_brace(toks, j4);
                let f = Function { args, body };
                let fcopy = Function { args: clone_names(&f.args), body: clone_tokens(&f.body) };
                proof {
                    assert(names_model(fcopy.args@) =~= names_model(f.args@));
                    assert(toks_model(fcopy.body@) =~= toks_model(f.body@));
                }
                scope.insert_function(name.clone(), f);
                proof {
                    assert(scope.functions@.subrange(0, old(scope).functions@.len() as int)
                        =~= old(scope).functions@);
                }
                (Ok(AtRule::Function(name, Box::new(fcopy))), j5)
            
}

/// One at-rule arm, parsed with the same contract the dispatcher states.
#[verifier::rlimit(100)]
fn parse_include_rule(toks: &Vec<Token>, i: usize, scope: &mut Scope) -> (r: (
    Result<AtRule, SassError>,
    usize,
))
    requires
        i <= toks@.len(),
        i == spec_ws_end(toks_model(toks@), i as int) || true,
    ensures
        i <= r.1 <= toks@.len(),
        final(scope).var_map() == old(scope).var_map(),
        final(scope).mixins@ == old(scope).mixins@,
        final(scope).functions@ == old(scope).functions@,
        ({
                let tm = toks_model(toks@);
                let nm = spec_name_at(tm, i as int);
                match nm.0 {
                    None => r.0 matches Err(e) && e.kind == ErrorKind::Syntax,
                    Some(name) => if forall|l: int|
                        0 <= l < old(scope).mixins@.len() ==> (#[trigger] old(scope).mixins@[l].0)@ != name {
                        r.0 matches Err(e) && e.kind == ErrorKind::Name
                    } else {
                        let a_end = spec_until_semi_or_open(tm, nm.1);
                        r.0 matches Ok(a) && (a matches AtRule::Include(inc) && inc.name@ == name
                            && toks_model(inc.args@) == tm.subrange(nm.1, a_end) && (if a_end
                            < tm.len() && tm[a_end] == TokKindModel::Symbol(Symbol::OpenBrace) {
                            toks_model(inc.content@) == spec_body_slice(tm, a_end + 1)
                        } else {
                            inc.content@.len() == 0
                        }))
                    },
                }
            }),
{
    let ghost tm: Seq<TokKindModel> = toks_model(toks@);
    let ghost m0: Map<Seq<char>, ValueModel> = scope.var_map();
    let j0 = devour_whitespace_tokens(toks, i);
    
                let (name, j) = read_name(toks, i);
                let name = match name {
                    Some(n) => n,
                    None => {
                        return (
                            (
                                Err(
                                    SassError::new(
                                        ErrorKind::Syntax,
                                        String::from_str("Expected identifier."),
                                    ),
                                ),
                                j,
                            )
                        );
                    },
                };
                match scope.get_mixin_index(name.as_str()) {
                    Some(_) => {},
                    None => {
                        let mut msg = String::from_str("Undefined mixin ");
                        msg.append(name.as_str());
                        msg.append(".");
                        return ((Err(SassError::new(ErrorKind::Name, msg)), j));
                    },
                }
                let (args, j1) = read_until_semicolon_or_open_brace(toks, j);
                proof {
                    if j1 < toks@.len() {
                        assert(tm[j1 as int] == toks@[j1 as int]@);
                    }
                }
                if j1 < toks.len() && matches!(&toks[j1].kind, TokenKind::Symbol(Symbol::OpenBrace)) {
                    let (content, j2) = read_until_closing_brace(toks, j1 + 1);
                    (Ok(AtRule::Include(IncludeRule { name, args, content })), j2)
                } else {
                    let j2 = skip_semicolon(toks, j1);
                    (
                        Ok(AtRule::Include(IncludeRule { name, args, content: Vec::new() })),
                        j2,
                    )
                }
            
}

/// One at-rule arm, parsed with the same contract the dispatcher states.
#[verifier::rlimit(100)]
fn parse_each_rule(toks: &Vec<Token>, i: usize, scope: &mut Scope) -> (r: (
    Result<AtRule, SassError>,
    usize,
))
    requires
        i <= toks@.len(),
        i == spec_ws_end(toks_model(toks@), i as int) || true,
    ensures
        i <= r.1 <= toks@.len(),
        final(scope).mixins@ == old(scope).mixins@,
        final(scope).functions@ == old(scope).functions@,
        ({
                let tm = toks_model(toks@);
                let j0 = spec_ws_end(tm, i as int);
                if !(0 <= j0 < tm.len() && tm[j0] is Variable) {
                    r.0 matches Err(e) && e.kind == ErrorKind::Syntax && final(scope).var_map()
                        == old(scope).var_map()
                } else {
                    let sv = spec_scan_vars(tm, j0);
                    let jw = spec_ws_end(tm, sv.1);
                    if !(0 <= jw < tm.len() && tm[jw] == TokKindModel::Keyword(Keyword::In)) {
                        r.0 matches Err(e) && e.kind == ErrorKind::Syntax && final(scope).var_map() == old(scope).var_map()
                    } else {
                        let p = spec_parse_value(
                            tm,
                            spec_ws_end(tm, jw + 1),
                            old(scope).var_map(),
                        );
                        match p.0 {
                            Err(k) => r.0 matches Err(e) && e.kind == k && final(scope).var_map() == old(scope).var_map(),
                            Ok(m) => match crate::eval::spec_eval(m) {
                                Err(k) => r.0 matches Err(e) && e.kind == k && final(scope).var_map() == old(scope).var_map(),
                                Ok(ev) => {
                                    let rows = crate::builtin::spec_coerce_list(ev);
                                    let j4 = spec_until_open(tm, p.1);
                                    let b0 = if j4 < tm.len() {
                                        j4 + 1
                                    } else {
                                        j4
                                    };
                                    r.0 matches Ok(a) && (a matches AtRule::Each(er)
                                        && names_model(er.vars@) == sv.0 && crate::value::seq_value_model(
                                        er.rows@,
                                    ) == rows && toks_model(er.body@) == spec_body_slice(tm, b0))
                                        && final(scope).var_map() == spec_each_bound(
                                        sv.0,
                                        rows,
                                        old(scope).var_map(),
                                    )
                                },
                            },
                        }
                    }
                }
            }),
{
    let ghost tm: Seq<TokKindModel> = toks_model(toks@);
    let ghost m0: Map<Seq<char>, ValueModel> = scope.var_map();
    let j0 = devour_whitespace_tokens(toks, i);
    
                proof {
                    if j0 < toks@.len() {
                        assert(tm[j0 as int] == toks@[j0 as int]@);
                    }
                }
                if !(j0 < toks.len() && matches!(&toks[j0].kind, TokenKind::Variable(_))) {
                    return (
                        (
                            Err(
                                SassError::new(
                                    ErrorKind::Syntax,
                                    String::from_str("expected \"$\"."),
                                ),
                            ),
                            j0,
                        )
                    );
                }
                let mut vars: Vec<String> = Vec::new();
                let mut j: usize = j0;
                #[verifier::loop_isolation(false)]
                loop
                    invariant
                        i <= j <= toks@.len(),
                        spec_scan_vars(tm, j0 as int).0 =~= names_model(vars@) + spec_scan_vars(
                            tm,
                            j as int,
                        ).0,
                        spec_scan_vars(tm, j0 as int).1 == spec_scan_vars(tm, j as int).1,
                    decreases toks@.len() - j,
                {
                    if j >= toks.len() {
                        break ;
                    }
                    proof {
                        assert(tm[j as int] == toks@[j as int]@);
                    }
                    match &toks[j].kind {
                        TokenKind::Variable(name) => {
                            let ghost b4: Seq<Seq<char>> = names_model(vars@);
                            vars.push(name.clone());
                            proof {
                                assert(names_model(vars@) =~= b4.push(name@));
                                assert(spec_scan_vars(tm, j0 as int).0 =~= names_model(vars@)
                                    + spec_scan_vars(tm, j + 1).0);
                            }
                            j = j + 1;
                        },
                        TokenKind::Symbol(Symbol::Comma) => {
                            j = j + 1;
                        },
                        TokenKind::Whitespace(_) => {
                            j = j + 1;
                        },
                        _ => {
                            break ;
                        },
                    }
                }
                proof {
                    if j < toks@.len() {
                        assert(tm[j as int] == toks@[j as int]@);
                    }
                    assert(spec_scan_vars(tm, j0 as int).0 =~= names_model(vars@));
                }
                // the word between the names and the iterator
                let jw = devour_whitespace_tokens(toks, j);
                proof {
                    if jw < toks@.len() {
                        assert(tm[jw as int] == toks@[jw as int]@);
                    }
                }
                if !(jw < toks.len() && matches!(&toks[jw].kind, TokenKind::Keyword(Keyword::In))) {
                    return (
                        (
                            Err(
                                SassError::new(
                                    ErrorKind::Syntax,
                                    String::from_str("Expected \"in\"."),
                                ),
                            ),
                            jw,
                        )
                    );
                }
                let j1 = jw + 1;
                let j2 = devour_whitespace_tokens(toks, j1);
                let (iter_v, j3) = value_from_tokens(toks, j2, scope);
                let iter_v = match iter_v {
                    Ok(v) => v,
                    Err(e) => {
                        return ((Err(e), j3));
                    },
                };
                let evaluated = match iter_v.eval() {
                    Ok(v) => v,
                    Err(e) => {
                        return ((Err(e), j3));
                    },
                };
                let (rows, _, _) = crate::builtin::coerce_to_items(&evaluated);
                let (_pre, j4) = read_until_open_brace(toks, j3);
                let j5 = if j4 < toks.len() {
                    j4 + 1
                } else {
                    j4
                };
                let (body, j6) = read_until_closing_brace(toks, j5);
                // bind every row into the caller's scope; the last row's
                // bindings persist, since an iteration is not a lexical
                // scope
                let ghost namesm: Seq<Seq<char>> = names_model(vars@);
                let ghost rowsm: Seq<ValueModel> = crate::value::seq_value_model(rows@);
                let mut ri: usize = 0;
                #[verifier::loop_isolation(false)]
                while ri < rows.len()
                    invariant
                        ri <= rows@.len(),
                        scope.var_map() == spec_each_bound_upto(namesm, rowsm, ri as int, m0),
                        scope.mixins@ == old(scope).mixins@,
                        scope.functions@ == old(scope).functions@,
                    decreases rows@.len() - ri,
                {
                    broadcast use crate::value::lemma_seq_value_model_index, crate::value::lemma_seq_value_model_len;

                    let ghost mrow: Map<Seq<char>, ValueModel> = scope.var_map();
                    if vars.len() == 1 {
                        let v0 = rows[ri].clone_value();
                        let n0 = vars[0].clone();
                        proof {
                            assert(n0@ == namesm[0]);
                        }
                        scope.insert_var(n0, v0);
                        proof {
                            assert(scope.var_map() == spec_bind_row(namesm, rowsm[ri as int], mrow));
                        }
                    } else {
                        let (items, _, _) = crate::builtin::coerce_to_items(&rows[ri]);
                        let ghost itemsm: Seq<ValueModel> = crate::builtin::spec_coerce_list(
                            rowsm[ri as int],
                        );
                        proof {
                            assert(crate::value::seq_value_model(items@) == itemsm);
                        }
                        let mut vi: usize = 0;
                        #[verifier::loop_isolation(false)]
                        while vi < vars.len()
                            invariant
                                vi <= vars@.len(),
                                scope.var_map() == spec_bind_vars_upto(
                                    namesm,
                                    itemsm,
                                    vi as int,
                                    mrow,
                                ),
                                scope.mixins@ == old(scope).mixins@,
                                scope.functions@ == old(scope).functions@,
                            decreases vars@.len() - vi,
                        {
                            let val: Value = if vi < items.len() {
                                items[vi].clone_value()
                            } else {
                                Value::Null
                            };
                            let nv = vars[vi].clone();
                            proof {
                                assert(nv@ == namesm[vi as int]);
                            }
                            scope.insert_var(nv, val);
                            vi = vi + 1;
                        }
                        proof {
                            assert(scope.var_map() == spec_bind_row(namesm, rowsm[ri as int], mrow));
                        }
                    }
                    ri = ri + 1;
                }
                proof {
                    crate::value::lemma_seq_value_model_len(rows@);
                }
                (Ok(AtRule::Each(EachRule { vars, rows, body })), j6)
            
}

/// One at-rule arm, parsed with the same contract the dispatcher states.
#[verifier::rlimit(100)]
fn parse_for_rule(toks: &Vec<Token>, i: usize, scope: &mut Scope) -> (r: (
    Result<AtRule, SassError>,
    usize,
))
    requires
        i <= toks@.len(),
        i == spec_ws_end(toks_model(toks@), i as int) || true,
    ensures
        i <= r.1 <= toks@.len(),
        final(scope).var_map() == old(scope).var_map(),
        final(scope).mixins@ == old(scope).mixins@,
        final(scope).functions@ == old(scope).functions@,
        ({
                let tm = toks_model(toks@);
                let vn = spec_variable_at(tm, i as int);
                match vn.0 {
                    None => r.0 matches Err(e) && e.kind == ErrorKind::Syntax,
                    Some(var) => {
                        let w1 = spec_name_at(tm, vn.1);
                        if !(w1.0 matches Some(t) && t == "from"@) {
                            r.0 matches Err(e) && e.kind == ErrorKind::Syntax
                        } else {
                            let b1 = spec_bound_at(
                                tm,
                                spec_ws_end(tm, w1.1),
                                old(scope).var_map(),
                            );
                            match b1.0 {
                                None => r.0 matches Err(e) && e.kind == ErrorKind::Type,
                                Some(from_k) => {
                                    let w2 = spec_name_at(tm, b1.1);
                                    if !(w2.0 matches Some(t) && (t == "through"@ || t
                                        == "to"@)) {
                                        r.0 matches Err(e) && e.kind == ErrorKind::Syntax
                                    } else {
                                        let b2 = spec_bound_at(
                                            tm,
                                            spec_ws_end(tm, w2.1),
                                            old(scope).var_map(),
                                        );
                                        match b2.0 {
                                            None => r.0 matches Err(e) && e.kind
                                                == ErrorKind::Type,
                                            Some(to_k) => {
                                                let j7 = spec_until_open(tm, b2.1);
                                                let b0 = if j7 < tm.len() {
                                                    j7 + 1
                                                } else {
                                                    j7
                                                };
                                                r.0 matches Ok(a) && (a matches AtRule::For(f)
                                                    && f.var@ == var && f.from_val == from_k
                                                    && f.to_val == to_k && (f.inclusive <==> (
                                                w2.0 matches Some(t) && t == "through"@))
                                                    && toks_model(f.body@) == spec_body_slice(
                                                    tm,
                                                    b0,
                                                ))
                                            },
                                        }
                                    }
                                }
                            }
                        }
                    },
                }
            }),
{
    let ghost tm: Seq<TokKindModel> = toks_model(toks@);
    let ghost m0: Map<Seq<char>, ValueModel> = scope.var_map();
    let j0 = devour_whitespace_tokens(toks, i);
    
                let (varname, j) = read_variable(toks, i);
                let varname = match varname {
                    Some(n) => n,
                    None => {
                        return (
                            (
                                Err(
                                    SassError::new(
                                        ErrorKind::Syntax,
                                        String::from_str("Expected \"$\"."),
                                    ),
                                ),
                                j,
                            )
                        );
                    },
                };
                let (fromw, j1) = read_name(toks, j);
                let from_ok: bool = match &fromw {
                    Some(w) => str_eq(w.as_str(), "from"),
                    None => false,
                };
                if !from_ok {
                    return (
                        (
                            Err(
                                SassError::new(
                                    ErrorKind::Syntax,
                                    String::from_str("Expected \"from\"."),
                                ),
                            ),
                            j1,
                        )
                    );
                }
                let j2 = devour_whitespace_tokens(toks, j1);
                let (a_v, j3) = value_one_bound(toks, j2, scope);
                let a_k = match a_v {
                    Some(k) => k,
                    None => {
                        return (
                            (
                                Err(
                                    SassError::new(
                                        ErrorKind::Type,
                                        String::from_str("Expected an integer bound."),
                                    ),
                                ),
                                j3,
                            )
                        );
                    },
                };
                let (towd, j4) = read_name(toks, j3);
                let inclusive: bool = match &towd {
                    Some(w) => {
                        if str_eq(w.as_str(), "through") {
                            true
                        } else if str_eq(w.as_str(), "to") {
                            proof {
                                reveal_strlit("to");
                                reveal_strlit("through");
                                assert("to"@.len() != "through"@.len());
                            }
                            false
                        } else {
                            return (
                                (
                                    Err(
                                        SassError::new(
                                            ErrorKind::Syntax,
                                            String::from_str("Expected \"through\" or \"to\"."),
                                        ),
                                    ),
                                    j4,
                                )
                            );
                        }
                    },
                    None => {
                        return (
                            (
                                Err(
                                    SassError::new(
                                        ErrorKind::Syntax,
                                        String::from_str("Expected \"through\" or \"to\"."),
                                    ),
                                ),
                                j4,
                            )
                        );
                    },
                };
                let j5 = devour_whitespace_tokens(toks, j4);
                let (b_v, j6) = value_one_bound(toks, j5, scope);
                let b_k = match b_v {
                    Some(k) => k,
                    None => {
                        return (
                            (
                                Err(
                                    SassError::new(
                                        ErrorKind::Type,
                                        String::from_str("Expected an integer bound."),
                                    ),
                                ),
                                j6,
                            )
                        );
                    },
                };
                let (_pre, j7) = read_until_open_brace(toks, j6);
                let j8 = if j7 < toks.len() {
                    j7 + 1
                } else {
                    j7
                };
                let (body, j9) = read_until_closing_brace(toks, j8);
                (
                    Ok(
                        AtRule::For(
                            ForRule { var: varname, from_val: a_k, to_val: b_k, inclusive, body },
                        ),
                    ),
                    j9,
                )
            
}

/// Skips one semicolon and the whitespace after it.
fn skip_semicolon(toks: &Vec<Token>, i: usize) -> (r: usize)
    requires
        i <= toks@.len(),
    ensures
        i <= r <= toks@.len(),
        r == spec_skip_semi(toks_model(toks@), i as int),
{
    proof {
        if i < toks@.len() {
            assert(toks_model(toks@)[i as int] == toks@[i as int]@);
        }
    }
    let mut j: usize = i;
    if j < toks.len() && matches!(&toks[j].kind, TokenKind::Symbol(Symbol::SemiColon)) {
        j = j + 1;
    }
    devour_whitespace_tokens(toks, j)
}

/// Reads one identifier token.
fn read_name(toks: &Vec<Token>, i: usize) -> (r: (Option<String>, usize))
    requires
        i <= toks@.len(),
    ensures
        i <= r.1 <= toks@.len(),
        r.1 == spec_name_at(toks_model(toks@), i as int).1,
        match spec_name_at(toks_model(toks@), i as int).0 {
            Some(n) => r.0 matches Some(t) && t@ == n,
            None => r.0 is None,
        },
{
    let j = devour_whitespace_tokens(toks, i);
    proof {
        if j < toks@.len() {
            assert(toks_model(toks@)[j as int] == toks@[j as int]@);
        }
    }
    if j < toks.len() {
        match &toks[j].kind {
            TokenKind::Ident(s) => (Some(s.clone()), j + 1),
            _ => (None, j),
        }
    } else {
        (None, j)
    }
}

/// Reads one variable token.
fn read_variable(toks: &Vec<Token>, i: usize) -> (r: (Option<String>, usize))
    requires
        i <= toks@.len(),
    ensures
        i <= r.1 <= toks@.len(),
        r.1 == spec_variable_at(toks_model(toks@), i as int).1,
        match spec_variable_at(toks_model(toks@), i as int).0 {
            Some(n) => r.0 matches Some(t) && t@ == n,
            None => r.0 is None,
        },
{
    let j = devour_whitespace_tokens(toks, i);
    proof {
        if j < toks@.len() {
            assert(toks_model(toks@)[j as int] == toks@[j as int]@);
        }
    }
    if j < toks.len() {
        match &toks[j].kind {
            TokenKind::Variable(s) => (Some(s.clone()), j + 1),
            _ => (None, j),
        }
    } else {
        (None, j)
    }
}

/// Evaluates one bound of a counting rule to a whole number.
fn value_one_bound(toks: &Vec<Token>, i: usize, scope: &Scope) -> (r: (Option<i64>, usize))
    requires
        i <= toks@.len(),
    ensures
        i <= r.1 <= toks@.len(),
        r.1 == spec_bound_at(toks_model(toks@), i as int, scope.var_map()).1,
        match spec_bound_at(toks_model(toks@), i as int, scope.var_map()).0 {
            Some(k) => r.0 matches Some(x) && x == k,
            None => r.0 is None,
        },
{
    let (v, j) = crate::value_parse::value_one_token(toks, i, scope);
    match v {
        Ok(val) => {
            match val.eval() {
                Ok(Value::Dimension(n, _)) => {
                    if n.denom >= 1 && !n.is_decimal() {
                        (Some(n.to_integer()), j)
                    } else {
                        (None, j)
                    }
                },
                _ => (None, j),
            }
        },
        Err(_) => (None, j),
    }
}

/// Copies parameter names.
fn clone_names(v: &Vec<String>) -> (r: Vec<String>)
    ensures
        names_model(r@) == names_model(v@),
{
    let mut out: Vec<String> = Vec::new();
    let mut k: usize = 0;
    #[verifier::loop_isolation(false)]
    while k < v.len()
        invariant
            k <= v@.len(),
            out@.len() == k,
            forall|l: int| 0 <= l < k ==> (#[trigger] out@[l])@ == v@[l]@,
        decreases v@.len() - k,
    {
        out.push(v[k].clone());
        k = k + 1;
    }
    proof {
        assert(names_model(out@) =~= names_model(v@));
    }
    out
}

/// Copies tokens.
pub fn clone_tokens(v: &Vec<Token>) -> (r: Vec<Token>)
    ensures
        toks_model(r@) == toks_model(v@),
{
    let mut out: Vec<Token> = Vec::new();
    let mut k: usize = 0;
    #[verifier::loop_isolation(false)]
    while k < v.len()
        invariant
            k <= v@.len(),
            out@.len() == k,
            forall|l: int| 0 <= l < k ==> (#[trigger] out@[l])@ == v@[l]@,
        decreases v@.len() - k,
    {
        out.push(clone_token(&v[k]));
        k = k + 1;
    }
    proof {
        assert(toks_model(out@) =~= toks_model(v@));
    }
    out
}

} // verus!

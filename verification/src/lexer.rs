//! The lexer: turns source characters into positioned tokens. Whitespace
//! is kept as tokens because selectors depend on it.

use vstd::prelude::*;
use crate::common::{Keyword, Pos, Symbol, Whitespace};
use crate::selector::{Attribute, AttributeKind};
use crate::strutil::{chars_to_string, str_chars};
use crate::units::Unit;

verus! {

/// One lexed token.
#[derive(Debug)]
pub enum TokenKind {
    Ident(String),
    Number(String),
    Variable(String),
    Symbol(Symbol),
    Whitespace(Whitespace),
    UnitToken(Unit),
    Keyword(Keyword),
    AtRuleName(String),
    AttrSelector(Attribute),
    Interpolation,
}

/// A token with the position it was read at.
#[derive(Debug)]
pub struct Token {
    pub kind: TokenKind,
    pub pos: Pos,
}

/// The model of a token kind: strings become character sequences.
pub enum TokKindModel {
    Ident(Seq<char>),
    Number(Seq<char>),
    Variable(Seq<char>),
    Symbol(crate::common::Symbol),
    Whitespace(crate::common::Whitespace),
    UnitToken(Unit),
    Keyword(Keyword),
    AtRuleName(Seq<char>),
    AttrSelector(crate::selector::AttributeModel),
    Interpolation,
}

impl View for TokenKind {
    type V = TokKindModel;

    open spec fn view(&self) -> TokKindModel {
        match self {
            TokenKind::Ident(s) => TokKindModel::Ident(s@),
            TokenKind::Number(s) => TokKindModel::Number(s@),
            TokenKind::Variable(s) => TokKindModel::Variable(s@),
            TokenKind::Symbol(s) => TokKindModel::Symbol(*s),
            TokenKind::Whitespace(w) => TokKindModel::Whitespace(*w),
            TokenKind::UnitToken(u) => TokKindModel::UnitToken(*u),
            TokenKind::Keyword(k) => TokKindModel::Keyword(*k),
            TokenKind::AtRuleName(s) => TokKindModel::AtRuleName(s@),
            TokenKind::AttrSelector(a) => TokKindModel::AttrSelector(a@),
            TokenKind::Interpolation => TokKindModel::Interpolation,
        }
    }
}

impl View for Token {
    type V = TokKindModel;

    open spec fn view(&self) -> TokKindModel {
        self.kind@
    }
}

/// The models of a token sequence.
pub open spec fn toks_model(s: Seq<Token>) -> Seq<TokKindModel> {
    Seq::new(s.len(), |i: int| s[i]@)
}

/// Letters, as the lexer classifies them.
pub open spec fn spec_is_alpha(c: char) -> bool {
    ('a' <= c && c <= 'z') || ('A' <= c && c <= 'Z')
}

/// Decimal digits.
pub open spec fn spec_is_digit(c: char) -> bool {
    '0' <= c && c <= '9'
}

/// The characters a name may continue with: letters, digits and hyphens.
pub open spec fn spec_is_name_char(c: char) -> bool {
    spec_is_alpha(c) || spec_is_digit(c) || c == '-'
}

/// The characters a number may continue with: digits and the point.
pub open spec fn spec_is_num_char(c: char) -> bool {
    spec_is_digit(c) || c == '.'
}

pub fn is_alpha(c: char) -> (r: bool)
    ensures
        r == spec_is_alpha(c),
{
    ('a' <= c && c <= 'z') || ('A' <= c && c <= 'Z')
}

pub fn is_digit(c: char) -> (r: bool)
    ensures
        r == spec_is_digit(c),
{
    '0' <= c && c <= '9'
}

pub fn is_name_char(c: char) -> (r: bool)
    ensures
        r == spec_is_name_char(c),
{
    is_alpha(c) || is_digit(c) || c == '-'
}

pub fn is_num_char(c: char) -> (r: bool)
    ensures
        r == spec_is_num_char(c),
{
    is_digit(c) || c == '.'
}

/// Spaces, newlines and carriage returns.
pub open spec fn spec_is_whitespace(c: char) -> bool {
    c == ' ' || c == '\n' || c == '\r'
}

pub fn is_whitespace(c: char) -> (r: bool)
    ensures
        r == spec_is_whitespace(c),
{
    c == ' ' || c == '\n' || c == '\r'
}

/// Where a run of name characters starting at `i` ends.
pub open spec fn spec_name_run_end(s: Seq<char>, i: int) -> int
    decreases s.len() - i,
{
    if i < 0 || i >= s.len() || !spec_is_name_char(s[i]) {
        i
    } else {
        spec_name_run_end(s, i + 1)
    }
}

/// Where a run of number characters starting at `i` ends.
pub open spec fn spec_num_run_end(s: Seq<char>, i: int) -> int
    decreases s.len() - i,
{
    if i < 0 || i >= s.len() || !spec_is_num_char(s[i]) {
        i
    } else {
        spec_num_run_end(s, i + 1)
    }
}

/// A number run never moves backward and never leaves the text.
pub proof fn lemma_num_run_bounds(s: Seq<char>, i: int)
    requires
        0 <= i <= s.len(),
    ensures
        i <= spec_num_run_end(s, i) <= s.len(),
    decreases s.len() - i,
{
    if i < s.len() && spec_is_num_char(s[i]) {
        lemma_num_run_bounds(s, i + 1);
    }
}

/// A run never moves backward and never leaves the text.
pub proof fn lemma_name_run_bounds(s: Seq<char>, i: int)
    requires
        0 <= i <= s.len(),
    ensures
        i <= spec_name_run_end(s, i) <= s.len(),
    decreases s.len() - i,
{
    if i < s.len() && spec_is_name_char(s[i]) {
        lemma_name_run_bounds(s, i + 1);
    }
}

/// The reserved word an identifier names, if any.
pub open spec fn spec_keyword_from_name(s: Seq<char>) -> Option<Keyword> {
    if s == "true"@ {
        Some(Keyword::True)
    } else if s == "false"@ {
        Some(Keyword::False)
    } else if s == "null"@ {
        Some(Keyword::Null)
    } else if s == "and"@ {
        Some(Keyword::And)
    } else if s == "or"@ {
        Some(Keyword::Or)
    } else if s == "not"@ {
        Some(Keyword::Not)
    } else if s == "in"@ {
        Some(Keyword::In)
    } else {
        None
    }
}

/// Reads the reserved word an identifier names, if any.
pub fn keyword_from_name(s: &str) -> (r: Option<Keyword>)
    ensures
        r == spec_keyword_from_name(s@),
{
    if crate::strutil::str_eq(s, "true") {
        Some(Keyword::True)
    } else if crate::strutil::str_eq(s, "false") {
        Some(Keyword::False)
    } else if crate::strutil::str_eq(s, "null") {
        Some(Keyword::Null)
    } else if crate::strutil::str_eq(s, "and") {
        Some(Keyword::And)
    } else if crate::strutil::str_eq(s, "or") {
        Some(Keyword::Or)
    } else if crate::strutil::str_eq(s, "not") {
        Some(Keyword::Not)
    } else if crate::strutil::str_eq(s, "in") {
        Some(Keyword::In)
    } else {
        None
    }
}

/// The lexer walks the characters of one source text once.
#[derive(Debug)]
pub struct Lexer {
    pub chars: Vec<char>,
    pub i: usize,
    pub pos: Pos,
}

impl Lexer {
    /// Well-formedness: the cursor stays inside the text.
    pub open spec fn inv(self) -> bool {
        self.i <= self.chars@.len()
    }

    /// A lexer at the start of the given text.
    pub fn new(buf: &str) -> (l: Lexer)
        ensures
            l.inv(),
            l.chars@ == buf@,
            l.i == 0,
    {
        Lexer { chars: str_chars(buf), i: 0, pos: Pos::new() }
    }

    /// Skips whitespace without producing tokens.
    pub fn devour_whitespace(&mut self)
        requires
            old(self).inv(),
        ensures
            final(self).inv(),
            final(self).chars@ == old(self).chars@,
            old(self).i <= final(self).i,
    {
        #[verifier::loop_isolation(false)]
        while self.i < self.chars.len() && is_whitespace(self.chars[self.i])
            invariant
                self.inv(),
                self.chars@ == old(self).chars@,
                old(self).i <= self.i,
            decreases self.chars@.len() - self.i,
        {
            self.i = self.i + 1;
            self.pos.next_char();
        }
    }

    /// Lexes a run of name characters into an identifier, a reserved
    /// word, or a unit name.
    fn lex_ident(&mut self) -> (r: TokenKind)
        requires
            old(self).inv(),
        ensures
            final(self).inv(),
            final(self).chars@ == old(self).chars@,
            old(self).i <= final(self).i,
            final(self).i == spec_name_run_end(old(self).chars@, old(self).i as int),
            ({
                let w = old(self).chars@.subrange(old(self).i as int, final(self).i as int);
                match spec_keyword_from_name(w) {
                    Some(k) => r == TokenKind::Keyword(k),
                    None => match Unit::spec_from_name(w) {
                        Some(u) => r == TokenKind::UnitToken(u),
                        None => r matches TokenKind::Ident(s) && s@ == w,
                    },
                }
            }),
    {
        let word = self.take_name_run();
        let ws = chars_to_string(&word);
        match keyword_from_name(ws.as_str()) {
            Some(k) => TokenKind::Keyword(k),
            None => match Unit::from_name(ws.as_str()) {
                Some(u) => TokenKind::UnitToken(u),
                None => TokenKind::Ident(ws),
            },
        }
    }

    /// Takes the maximal run of name characters at the cursor.
    fn take_name_run(&mut self) -> (w: Vec<char>)
        requires
            old(self).inv(),
        ensures
            final(self).inv(),
            final(self).chars@ == old(self).chars@,
            old(self).i <= final(self).i,
            final(self).i == spec_name_run_end(old(self).chars@, old(self).i as int),
            w@ == old(self).chars@.subrange(old(self).i as int, final(self).i as int),
    {
        let mut w: Vec<char> = Vec::new();
        proof {
            lemma_name_run_bounds(self.chars@, self.i as int);
        }
        #[verifier::loop_isolation(false)]
        while self.i < self.chars.len() && is_name_char(self.chars[self.i])
            invariant
                self.inv(),
                self.chars@ == old(self).chars@,
                old(self).i <= self.i,
                w@ == self.chars@.subrange(old(self).i as int, self.i as int),
                spec_name_run_end(self.chars@, old(self).i as int) == spec_name_run_end(
                    self.chars@,
                    self.i as int,
                ),
            decreases self.chars@.len() - self.i,
        {
            w.push(self.chars[self.i]);
            self.i = self.i + 1;
            self.pos.next_char();
            proof {
                assert(w@ =~= self.chars@.subrange(old(self).i as int, self.i as int));
            }
        }
        w
    }

    /// Takes the maximal run of number characters at the cursor.
    fn take_num_run(&mut self) -> (w: Vec<char>)
        requires
            old(self).inv(),
        ensures
            final(self).inv(),
            final(self).chars@ == old(self).chars@,
            old(self).i <= final(self).i,
            final(self).i == spec_num_run_end(old(self).chars@, old(self).i as int),
            w@ == old(self).chars@.subrange(old(self).i as int, final(self).i as int),
    {
        let mut w: Vec<char> = Vec::new();
        #[verifier::loop_isolation(false)]
        while self.i < self.chars.len() && is_num_char(self.chars[self.i])
            invariant
                self.inv(),
                self.chars@ == old(self).chars@,
                old(self).i <= self.i,
                w@ == self.chars@.subrange(old(self).i as int, self.i as int),
                spec_num_run_end(self.chars@, old(self).i as int) == spec_num_run_end(
                    self.chars@,
                    self.i as int,
                ),
            decreases self.chars@.len() - self.i,
        {
            w.push(self.chars[self.i]);
            self.i = self.i + 1;
            self.pos.next_char();
            proof {
                assert(w@ =~= self.chars@.subrange(old(self).i as int, self.i as int));
            }
        }
        w
    }

    /// Lexes the digits of a number literal.
    fn lex_num(&mut self) -> (r: TokenKind)
        requires
            old(self).inv(),
        ensures
            final(self).inv(),
            final(self).chars@ == old(self).chars@,
            old(self).i <= final(self).i,
            final(self).i == spec_num_run_end(old(self).chars@, old(self).i as int),
            r matches TokenKind::Number(s) && s@ == old(self).chars@.subrange(
                old(self).i as int,
                final(self).i as int,
            ),
    {
        let w = self.take_num_run();
        TokenKind::Number(chars_to_string(&w))
    }

    /// Lexes a variable name after the dollar sign.
    fn lex_variable(&mut self) -> (r: TokenKind)
        requires
            old(self).inv(),
        ensures
            final(self).inv(),
            final(self).chars@ == old(self).chars@,
            old(self).i <= final(self).i,
            final(self).i == spec_name_run_end(old(self).chars@, old(self).i as int),
            r matches TokenKind::Variable(s) && s@ == old(self).chars@.subrange(
                old(self).i as int,
                final(self).i as int,
            ),
    {
        let w = self.take_name_run();
        TokenKind::Variable(chars_to_string(&w))
    }

    /// Lexes the name after an at sign.
    fn lex_at_rule(&mut self) -> (r: TokenKind)
        requires
            old(self).inv(),
        ensures
            final(self).inv(),
            final(self).chars@ == old(self).chars@,
            old(self).i <= final(self).i,
            final(self).i == spec_name_run_end(old(self).chars@, old(self).i as int),
            r matches TokenKind::AtRuleName(s) && s@ == old(self).chars@.subrange(
                old(self).i as int,
                final(self).i as int,
            ),
    {
        let w = self.take_name_run();
        TokenKind::AtRuleName(chars_to_string(&w))
    }

    /// Lexes what follows a forward slash: a line comment is dropped
    /// entirely (nothing comes back), a block comment becomes one
    /// newline-whitespace token, and anything else is the division
    /// symbol.
    fn lex_forward_slash(&mut self) -> (r: Option<TokenKind>)
        requires
            old(self).inv(),
            old(self).i < old(self).chars@.len(),
        ensures
            final(self).inv(),
            final(self).chars@ == old(self).chars@,
            old(self).i < final(self).i,
            r matches Some(k) ==> ((k matches TokenKind::Symbol(s) ==> s == Symbol::Div) && (
            k is Symbol || (k matches TokenKind::Whitespace(wk) && wk == Whitespace::Newline))),
    {
        let n: usize = self.chars.len();
        self.i = self.i + 1;
        self.pos.next_char();
        if self.i >= self.chars.len() {
            return Some(TokenKind::Symbol(Symbol::Div));
        }
        let c = self.chars[self.i];
        if c == '/' {
            #[verifier::loop_isolation(false)]
            while self.i < self.chars.len() && self.chars[self.i] != '\n'
                invariant
                    self.inv(),
                    self.chars@ == old(self).chars@,
                    old(self).i < self.i,
                decreases self.chars@.len() - self.i,
            {
                self.i = self.i + 1;
                self.pos.next_char();
            }
            None
        } else if c == '*' {
            if self.i < self.chars.len() {
                self.i = self.i + 1;
            }
            let mut done: bool = false;
            #[verifier::loop_isolation(false)]
            while self.i < self.chars.len() && !done
                invariant
                    self.inv(),
                    self.chars@ == old(self).chars@,
                    old(self).i < self.i,
                decreases self.chars@.len() - self.i + (if done { 0int } else { 1int }),
            {
                if self.chars[self.i] == '*' && self.i + 1 < self.chars.len() && self.chars[self.i
                    + 1] == '/' {
                    done = true;
                    self.i = self.i + 2;
                } else {
                    self.i = self.i + 1;
                }
                self.pos.next_char();
            }
            Some(TokenKind::Whitespace(Whitespace::Newline))
        } else {
            Some(TokenKind::Symbol(Symbol::Div))
        }
    }

    /// Lexes an attribute selector after the opening square bracket:
    /// an attribute name, an optional matcher and value, an optional
    /// case-insensitivity flag, and the closing bracket.
    fn lex_attr(&mut self) -> (r: TokenKind)
        requires
            old(self).inv(),
        ensures
            final(self).inv(),
            final(self).chars@ == old(self).chars@,
            old(self).i <= final(self).i,
            r matches TokenKind::AttrSelector(a) && a.attr@ == old(self).chars@.subrange(
                old(self).i as int,
                spec_name_run_end(old(self).chars@, old(self).i as int),
            ),
    {
        let attr_chars = self.take_name_run();
        let attr = chars_to_string(&attr_chars);
        self.devour_whitespace();
        if self.i >= self.chars.len() {
            return TokenKind::AttrSelector(
                Attribute { kind: AttributeKind::Any, attr, value: String::new(), case_sensitive: true },
            );
        }
        let c = self.chars[self.i];
        if c == ']' {
            self.i = self.i + 1;
            self.pos.next_char();
            return TokenKind::AttrSelector(
                Attribute { kind: AttributeKind::Any, attr, value: String::new(), case_sensitive: true },
            );
        }
        let kind: AttributeKind = if c == '=' {
            AttributeKind::Equals
        } else if c == '~' {
            AttributeKind::InList
        } else if c == '|' {
            AttributeKind::BeginsWithHyphenOrExact
        } else if c == '^' {
            AttributeKind::StartsWith
        } else if c == '$' {
            AttributeKind::EndsWith
        } else if c == '*' {
            AttributeKind::Contains
        } else {
            // an unknown matcher reads as a bare attribute up to the
            // closing bracket
            #[verifier::loop_isolation(false)]
            while self.i < self.chars.len() && self.chars[self.i] != ']'
                invariant
                    self.inv(),
                    self.chars@ == old(self).chars@,
                    old(self).i <= self.i,
                decreases self.chars@.len() - self.i,
            {
                self.i = self.i + 1;
                self.pos.next_char();
            }
            if self.i < self.chars.len() {
                self.i = self.i + 1;
                self.pos.next_char();
            }
            return TokenKind::AttrSelector(
                Attribute { kind: AttributeKind::Any, attr, value: String::new(), case_sensitive: true },
            );
        };
        self.i = self.i + 1;
        self.pos.next_char();
        if !matches!(kind, AttributeKind::Equals) {
            // the matcher glyph is followed by the equals sign
            if self.i < self.chars.len() && self.chars[self.i] == '=' {
                self.i = self.i + 1;
                self.pos.next_char();
            }
        }
        self.devour_whitespace();
        if self.i < self.chars.len() && (self.chars[self.i] == '\'' || self.chars[self.i] == '"') {
            self.i = self.i + 1;
            self.pos.next_char();
        }
        let value_chars = self.take_name_run();
        let value = chars_to_string(&value_chars);
        if self.i < self.chars.len() && (self.chars[self.i] == '\'' || self.chars[self.i] == '"') {
            self.i = self.i + 1;
            self.pos.next_char();
        }
        self.devour_whitespace();
        let mut case_sensitive: bool = true;
        if self.i < self.chars.len() && (self.chars[self.i] == 'i' || self.chars[self.i] == 'I') {
            case_sensitive = false;
            self.i = self.i + 1;
            self.pos.next_char();
            self.devour_whitespace();
        }
        if self.i < self.chars.len() && self.chars[self.i] == ']' {
            self.i = self.i + 1;
            self.pos.next_char();
        }
        TokenKind::AttrSelector(Attribute { kind, attr, value, case_sensitive })
    }

    /// Produces the next token, nothing at the end of the text, or a
    /// syntax error on a character the language has no place for. A
    /// line comment produces nothing and lexing continues after it.
    pub fn next(&mut self) -> (r: Result<Option<Token>, crate::error::SassError>)
        requires
            old(self).inv(),
        ensures
            final(self).inv(),
            final(self).chars@ == old(self).chars@,
            old(self).i <= final(self).i,
            r matches Ok(o) ==> ((o is None ==> final(self).i == final(self).chars@.len()) && (
            o is Some ==> old(self).i < final(self).i)),
            old(self).i == old(self).chars@.len() ==> r == Ok::<
                Option<Token>,
                crate::error::SassError,
            >(None),
            r matches Err(e) ==> e.kind == crate::error::ErrorKind::Syntax,
            r matches Ok(o) ==> (o matches Some(t) ==> (spec_is_alpha(
                old(self).chars@[old(self).i as int],
            ) ==> ({
                let w = old(self).chars@.subrange(
                    old(self).i as int,
                    spec_name_run_end(old(self).chars@, old(self).i as int),
                );
                match spec_keyword_from_name(w) {
                    Some(k) => t.kind == TokenKind::Keyword(k),
                    None => match Unit::spec_from_name(w) {
                        Some(u) => t.kind == TokenKind::UnitToken(u),
                        None => t.kind matches TokenKind::Ident(s) && s@ == w,
                    },
                }
            }))),
            r matches Ok(o) ==> (o matches Some(t) ==> (spec_is_digit(
                old(self).chars@[old(self).i as int],
            ) ==> (t.kind matches TokenKind::Number(s) && s@ == old(self).chars@.subrange(
                old(self).i as int,
                spec_num_run_end(old(self).chars@, old(self).i as int),
            )))),
        decreases old(self).chars@.len() - old(self).i,
    {
        if self.i >= self.chars.len() {
            return Ok(None);
        }
        let p = self.pos;
        let c = self.chars[self.i];
        let kind: TokenKind = if is_alpha(c) {
            proof {
                assert(spec_name_run_end(self.chars@, self.i as int) == spec_name_run_end(
                    self.chars@,
                    self.i + 1,
                ));
                lemma_name_run_bounds(self.chars@, self.i + 1);
            }
            let k = self.lex_ident();
            proof {
                assert(old(self).i < self.i);
            }
            k
        } else if is_digit(c) {
            proof {
                assert(spec_num_run_end(self.chars@, self.i as int) == spec_num_run_end(
                    self.chars@,
                    self.i + 1,
                ));
                lemma_num_run_bounds(self.chars@, self.i + 1);
            }
            let k = self.lex_num();
            proof {
                assert(old(self).i < self.i);
            }
            k
        } else if c == '@' {
            self.i = self.i + 1;
            self.pos.next_char();
            let k = self.lex_at_rule();
            proof {
                assert(old(self).i < self.i);
            }
            k
        } else if c == '$' {
            self.i = self.i + 1;
            self.pos.next_char();
            let k = self.lex_variable();
            proof {
                assert(old(self).i < self.i);
            }
            k
        } else if c == '/' {
            match self.lex_forward_slash() {
                Some(k) => k,
                None => {
                    // a dropped line comment: lex on after it
                    return self.next();
                },
            }
        } else if c == '[' {
            self.i = self.i + 1;
            self.pos.next_char();
            let k = self.lex_attr();
            proof {
                assert(old(self).i < self.i);
            }
            k
        } else if c == ' ' {
            self.i = self.i + 1;
            self.pos.next_char();
            TokenKind::Whitespace(Whitespace::Space)
        } else if c == '\t' {
            self.i = self.i + 1;
            self.pos.next_char();
            TokenKind::Whitespace(Whitespace::Tab)
        } else if c == '\n' {
            self.i = self.i + 1;
            self.pos.newline();
            TokenKind::Whitespace(Whitespace::Newline)
        } else if c == '\r' {
            self.i = self.i + 1;
            self.pos.next_char();
            TokenKind::Whitespace(Whitespace::CarriageReturn)
        } else if c == '%' {
            self.i = self.i + 1;
            self.pos.next_char();
            TokenKind::UnitToken(Unit::Percent)
        } else if c == '#' {
            // an interpolation opens with a brace right after the hash
            if self.i + 1 < self.chars.len() && self.chars[self.i + 1] == '{' {
                self.i = self.i + 2;
                self.pos.next_char();
                self.pos.next_char();
                TokenKind::Interpolation
            } else {
                self.i = self.i + 1;
                self.pos.next_char();
                TokenKind::Symbol(Symbol::Hash)
            }
        } else {
            let known: bool = c == ':' || c == ',' || c == '.' || c == ';' || c == '+' || c == '-'
                || c == '*' || c == '~' || c == '\'' || c == '"' || c == '{' || c == '}' || c
                == '(' || c == ')' || c == ']' || c == '<' || c == '>' || c == '&';
            if !known {
                return Err(
                    crate::error::SassError::new(
                        crate::error::ErrorKind::Syntax,
                        String::from_str("unexpected character"),
                    ),
                );
            }
            let sym: Symbol = if c == ':' {
                Symbol::Colon
            } else if c == ',' {
                Symbol::Comma
            } else if c == '.' {
                Symbol::Period
            } else if c == ';' {
                Symbol::SemiColon
            } else if c == '+' {
                Symbol::Plus
            } else if c == '-' {
                Symbol::Minus
            } else if c == '*' {
                Symbol::Mul
            } else if c == '~' {
                Symbol::Tilde
            } else if c == '\'' {
                Symbol::SingleQuote
            } else if c == '"' {
                Symbol::DoubleQuote
            } else if c == '{' {
                Symbol::OpenBrace
            } else if c == '}' {
                Symbol::CloseBrace
            } else if c == '(' {
                Symbol::OpenParen
            } else if c == ')' {
                Symbol::CloseParen
            } else if c == ']' {
                Symbol::CloseSquareBrace
            } else if c == '<' {
                Symbol::Lt
            } else if c == '>' {
                Symbol::Gt
            } else if c == '&' {
                Symbol::BitAnd
            } else {
                Symbol::BitAnd
            };
            self.i = self.i + 1;
            self.pos.next_char();
            TokenKind::Symbol(sym)
        };
        Ok(Some(Token { kind, pos: p }))
    }

}

} // verus!

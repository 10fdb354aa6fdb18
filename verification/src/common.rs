//! Small shared kinds: source positions, punctuation symbols, whitespace,
//! keywords, operators, and list bracket flags.

use vstd::prelude::*;

verus! {

/// A source position: line and column, both starting at one.
#[derive(Clone, Copy, Debug, PartialEq, Eq, Structural)]
pub struct Pos {
    pub line: u64,
    pub column: u64,
}

impl Pos {
    pub fn new() -> (p: Pos)
        ensures
            p.line == 1,
            p.column == 1,
    {
        Pos { line: 1, column: 1 }
    }

    /// Advances the column by one; the column saturates rather than wrapping.
    pub fn next_char(&mut self)
        ensures
            final(self).line == old(self).line,
            final(self).column == if old(self).column < u64::MAX {
                old(self).column + 1
            } else {
                old(self).column as int
            },
    {
        if self.column < u64::MAX {
            self.column = self.column + 1;
        }
    }

    /// Starts a new line: the line grows by one (saturating) and the column
    /// returns to one.
    pub fn newline(&mut self)
        ensures
            final(self).line == if old(self).line < u64::MAX {
                old(self).line + 1
            } else {
                old(self).line as int
            },
            final(self).column == 1,
    {
        if self.line < u64::MAX {
            self.line = self.line + 1;
        }
        self.column = 1;
    }
}

/// Punctuation tokens.
#[derive(Clone, Copy, Debug, PartialEq, Eq, Structural)]
pub enum Symbol {
    Colon,
    Comma,
    Period,
    SemiColon,
    Plus,
    Minus,
    Mul,
    Div,
    Percent,
    Tilde,
    SingleQuote,
    DoubleQuote,
    Hash,
    OpenBrace,
    CloseBrace,
    OpenParen,
    CloseParen,
    OpenSquareBrace,
    CloseSquareBrace,
    Lt,
    Gt,
    BitAnd,
}

impl Symbol {
    /// The glyph this symbol was lexed from.
    pub fn as_char(self) -> (c: char)
        ensures
            c == self.spec_char(),
    {
        match self {
            Symbol::Colon => ':',
            Symbol::Comma => ',',
            Symbol::Period => '.',
            Symbol::SemiColon => ';',
            Symbol::Plus => '+',
            Symbol::Minus => '-',
            Symbol::Mul => '*',
            Symbol::Div => '/',
            Symbol::Percent => '%',
            Symbol::Tilde => '~',
            Symbol::SingleQuote => '\'',
            Symbol::DoubleQuote => '"',
            Symbol::Hash => '#',
            Symbol::OpenBrace => '{',
            Symbol::CloseBrace => '}',
            Symbol::OpenParen => '(',
            Symbol::CloseParen => ')',
            Symbol::OpenSquareBrace => '[',
            Symbol::CloseSquareBrace => ']',
            Symbol::Lt => '<',
            Symbol::Gt => '>',
            Symbol::BitAnd => '&',
        }
    }

    pub open spec fn spec_char(self) -> char {
        match self {
            Symbol::Colon => ':',
            Symbol::Comma => ',',
            Symbol::Period => '.',
            Symbol::SemiColon => ';',
            Symbol::Plus => '+',
            Symbol::Minus => '-',
            Symbol::Mul => '*',
            Symbol::Div => '/',
            Symbol::Percent => '%',
            Symbol::Tilde => '~',
            Symbol::SingleQuote => '\'',
            Symbol::DoubleQuote => '"',
            Symbol::Hash => '#',
            Symbol::OpenBrace => '{',
            Symbol::CloseBrace => '}',
            Symbol::OpenParen => '(',
            Symbol::CloseParen => ')',
            Symbol::OpenSquareBrace => '[',
            Symbol::CloseSquareBrace => ']',
            Symbol::Lt => '<',
            Symbol::Gt => '>',
            Symbol::BitAnd => '&',
        }
    }
}

/// Whitespace kinds are kept as tokens: selectors depend on significant
/// whitespace (the descendant combinator).
#[derive(Clone, Copy, Debug, PartialEq, Eq, Structural)]
pub enum Whitespace {
    Space,
    Tab,
    Newline,
    CarriageReturn,
}

/// Reserved words of the expression language.
#[derive(Clone, Copy, Debug, PartialEq, Eq, Structural)]
pub enum Keyword {
    True,
    False,
    Null,
    Important,
    And,
    Or,
    Not,
    In,
}

/// Binary and unary operators of the expression language.
#[derive(Clone, Copy, Debug, PartialEq, Eq, Structural)]
pub enum Op {
    Plus,
    Minus,
    Mul,
    Div,
    Rem,
    Equal,
    NotEqual,
    Lt,
    Le,
    Gt,
    Ge,
    And,
    Or,
    Not,
}

impl Op {
    /// How the operator is written.
    pub open spec fn spec_str(self) -> Seq<char> {
        match self {
            Op::Plus => "+"@,
            Op::Minus => "-"@,
            Op::Mul => "*"@,
            Op::Div => "/"@,
            Op::Rem => "%"@,
            Op::Equal => "=="@,
            Op::NotEqual => "!="@,
            Op::Lt => "<"@,
            Op::Le => "<="@,
            Op::Gt => ">"@,
            Op::Ge => ">="@,
            Op::And => "and"@,
            Op::Or => "or"@,
            Op::Not => "not"@,
        }
    }

    pub fn as_str(self) -> (r: &'static str)
        ensures
            r@ == self.spec_str(),
    {
        match self {
            Op::Plus => "+",
            Op::Minus => "-",
            Op::Mul => "*",
            Op::Div => "/",
            Op::Rem => "%",
            Op::Equal => "==",
            Op::NotEqual => "!=",
            Op::Lt => "<",
            Op::Le => "<=",
            Op::Gt => ">",
            Op::Ge => ">=",
            Op::And => "and",
            Op::Or => "or",
            Op::Not => "not",
        }
    }
}

/// Whether a list was written with square brackets.
#[derive(Clone, Copy, Debug, PartialEq, Eq, Structural)]
pub enum Brackets {
    Unbracketed,
    Bracketed,
}

} // verus!

//! The lexical alphabet: source locations, token kinds and tokens.
use vstd::prelude::*;
use crate::text::{decimal_of, push_decimal, push_str};

verus! {

/// A 1-based line/column position in the source text.
#[derive(Clone, Copy, Debug, PartialEq, Eq, Structural)]
pub struct Location {
    pub col: usize,
    pub line: usize,
}

impl Location {
    pub fn new(col: usize, line: usize) -> (r: Self)
        ensures
            r.col == col,
            r.line == line,
    {
        Self { col, line }
    }

    /// Moves to the first column of the next line.
    pub fn add_line(&mut self)
        requires
            old(self).line < usize::MAX,
        ensures
            final(self).col == 1,
            final(self).line == old(self).line + 1,
    {
        self.col = 1;
        self.line = self.line + 1;
    }

    /// Moves one column to the right.
    pub fn add_col(&mut self)
        requires
            old(self).col < usize::MAX,
        ensures
            final(self).col == old(self).col + 1,
            final(self).line == old(self).line,
    {
        self.col = self.col + 1;
    }

    /// `line: <line>, col: <col>`.
    pub fn to_string(&self) -> (r: String)
        ensures
            r@ == location_text(*self),
    {
        let mut s = String::new();
        push_str(&mut s, "line: ");
        push_decimal(&mut s, self.line);
        push_str(&mut s, ", col: ");
        push_decimal(&mut s, self.col);
        s
    }
}

/// How a location reads in diagnostics.
pub open spec fn location_text(l: Location) -> Seq<char> {
    "line: "@ + decimal_of(l.line as nat) + ", col: "@ + decimal_of(l.col as nat)
}

#[derive(Clone, Copy, Debug, PartialEq, Eq, Structural)]
pub enum TokenKind {
    EOF,
    Plus,
    Minus,
    Star,
    Slash,
    Inc,
    Decr,
    Colon,
    Semicolon,
    LParen,
    RParen,
    LCurly,
    RCurly,
    Id,
    Int,
    Float,
    String,
    Comma,
    Fn,
    Return,
}

/// The display name of a kind, as diagnostics show it.
pub open spec fn kind_text(k: TokenKind) -> Seq<char> {
    match k {
        TokenKind::EOF => "end of file"@,
        TokenKind::Plus => "+"@,
        TokenKind::Minus => "-"@,
        TokenKind::Star => "*"@,
        TokenKind::Slash => "/"@,
        TokenKind::Inc => "++"@,
        TokenKind::Decr => "--"@,
        TokenKind::Colon => ":"@,
        TokenKind::Semicolon => ";"@,
        TokenKind::LParen => "("@,
        TokenKind::RParen => ")"@,
        TokenKind::LCurly => "{"@,
        TokenKind::RCurly => "}"@,
        TokenKind::Id => "identifier"@,
        TokenKind::Int => "integer literal"@,
        TokenKind::Float => "float literal"@,
        TokenKind::String => "string literal"@,
        TokenKind::Comma => ","@,
        TokenKind::Fn => "fn"@,
        TokenKind::Return => "return"@,
    }
}

/// The variant name of a kind (`Semicolon`, `LParen`, ...).
pub open spec fn kind_name(k: TokenKind) -> Seq<char> {
    match k {
        TokenKind::EOF => "EOF"@,
        TokenKind::Plus => "Plus"@,
        TokenKind::Minus => "Minus"@,
        TokenKind::Star => "Star"@,
        TokenKind::Slash => "Slash"@,
        TokenKind::Inc => "Inc"@,
        TokenKind::Decr => "Decr"@,
        TokenKind::Colon => "Colon"@,
        TokenKind::Semicolon => "Semicolon"@,
        TokenKind::LParen => "LParen"@,
        TokenKind::RParen => "RParen"@,
        TokenKind::LCurly => "LCurly"@,
        TokenKind::RCurly => "RCurly"@,
        TokenKind::Id => "Id"@,
        TokenKind::Int => "Int"@,
        TokenKind::Float => "Float"@,
        TokenKind::String => "String"@,
        TokenKind::Comma => "Comma"@,
        TokenKind::Fn => "Fn"@,
        TokenKind::Return => "Return"@,
    }
}

impl TokenKind {
    pub fn is_one_of(&self, kinds: &[TokenKind]) -> (r: bool)
        ensures
            r == kinds@.contains(*self),
    {
        let mut i: usize = 0;
        while i < kinds.len()
            invariant
                i <= kinds@.len(),
                forall|j: int| 0 <= j < i ==> kinds@[j] != *self,
            decreases kinds@.len() - i,
        {
            if kinds[i] == *self {
                return true;
            }
            i = i + 1;
        }
        false
    }

    pub fn is(&self, kind: TokenKind) -> (r: bool)
        ensures
            r == (kind == *self),
    {
        kind == *self
    }

    /// The display name of this kind.
    pub fn text(&self) -> (r: &'static str)
        ensures
            r@ == kind_text(*self),
    {
        match self {
            TokenKind::EOF => "end of file",
            TokenKind::Plus => "+",
            TokenKind::Minus => "-",
            TokenKind::Star => "*",
            TokenKind::Slash => "/",
            TokenKind::Inc => "++",
            TokenKind::Decr => "--",
            TokenKind::Colon => ":",
            TokenKind::Semicolon => ";",
            TokenKind::LParen => "(",
            TokenKind::RParen => ")",
            TokenKind::LCurly => "{",
            TokenKind::RCurly => "}",
            TokenKind::Id => "identifier",
            TokenKind::Int => "integer literal",
            TokenKind::Float => "float literal",
            TokenKind::String => "string literal",
            TokenKind::Comma => ",",
            TokenKind::Fn => "fn",
            TokenKind::Return => "return",
        }
    }

    /// The variant name of this kind.
    pub fn name(&self) -> (r: &'static str)
        ensures
            r@ == kind_name(*self),
    {
        match self {
            TokenKind::EOF => "EOF",
            TokenKind::Plus => "Plus",
            TokenKind::Minus => "Minus",
            TokenKind::Star => "Star",
            TokenKind::Slash => "Slash",
            TokenKind::Inc => "Inc",
            TokenKind::Decr => "Decr",
            TokenKind::Colon => "Colon",
            TokenKind::Semicolon => "Semicolon",
            TokenKind::LParen => "LParen",
            TokenKind::RParen => "RParen",
            TokenKind::LCurly => "LCurly",
            TokenKind::RCurly => "RCurly",
            TokenKind::Id => "Id",
            TokenKind::Int => "Int",
            TokenKind::Float => "Float",
            TokenKind::String => "String",
            TokenKind::Comma => "Comma",
            TokenKind::Fn => "Fn",
            TokenKind::Return => "Return",
        }
    }

    /// The display name of this kind, as an owned string.
    pub fn to_string(&self) -> (r: String)
        ensures
            r@ == kind_text(*self),
    {
        String::from_str(self.text())
    }
}

/// One lexeme: its kind, the exact source text it covers, and where it starts.
#[derive(Clone, Debug)]
pub struct Token {
    pub kind: TokenKind,
    pub literal: String,
    pub location: Location,
}

impl Token {
    pub fn new(kind: TokenKind, literal: String, location: Location) -> (r: Self)
        ensures
            r == (Token { kind, literal, location }),
    {
        Self { kind, literal, location }
    }

    /// An equal copy of this token.
    pub fn duplicate(&self) -> (r: Self)
        ensures
            r == *self,
    {
        Token { kind: self.kind, literal: self.literal.clone(), location: self.location }
    }
}

} // verus!

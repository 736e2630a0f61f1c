//! Lexical vocabulary: token kinds, token payloads and the token record
//! produced by the scanner.

use vstd::prelude::*;

verus! {

/// The kind of a lexical token.
#[derive(Debug, Clone, Copy, PartialEq, Eq, Structural)]
pub enum TokenType {
    // Single-character tokens.
    LeftParen,
    RightParen,
    LeftBrace,
    RightBrace,
    Dot,
    Comma,
    Minus,
    Plus,
    Semicolon,
    Slash,
    Star,
    // One or two character tokens.
    Bang,
    BangEqual,
    Equal,
    EqualEqual,
    Greater,
    GreaterEqual,
    Less,
    LessEqual,
    // Literals.
    Identifier,
    Str,
    Number,
    // Keywords.
    And,
    Class,
    Else,
    False,
    Fun,
    For,
    If,
    Nil,
    Or,
    Print,
    Return,
    This,
    True,
    Var,
    While,
    Eof,
}

/// The literal payload a scanned token may carry: the numeric value of a
/// number literal, or the quoted text of a string literal.
#[derive(Debug, Clone)]
pub enum TokenLit {
    Num(i64),
    Text(Vec<u8>),
}

/// Mathematical image of a token payload.
pub enum SpecTokenLit {
    Num(i64),
    Text(Seq<u8>),
}

impl View for TokenLit {
    type V = SpecTokenLit;

    open spec fn view(&self) -> SpecTokenLit {
        match self {
            TokenLit::Num(n) => SpecTokenLit::Num(*n),
            TokenLit::Text(s) => SpecTokenLit::Text(s@),
        }
    }
}

/// Mathematical image of a token.
pub struct SpecToken {
    pub kind: TokenType,
    pub lexeme: Seq<u8>,
    pub lit: Option<SpecTokenLit>,
    pub line: nat,
    pub col: nat,
}

/// One lexical unit: its kind, the source text it covers, an optional
/// literal payload, and the line and column it was scanned at.
#[derive(Debug, Clone)]
pub struct Token {
    pub token_type: TokenType,
    pub lexeme: Vec<u8>,
    pub literal: Option<TokenLit>,
    pub line: usize,
    pub col: usize,
}

impl View for Token {
    type V = SpecToken;

    open spec fn view(&self) -> SpecToken {
        SpecToken {
            kind: self.token_type,
            lexeme: self.lexeme@,
            lit: match self.literal {
                Option::None => Option::None,
                Option::Some(ref l) => Option::Some(l@),
            },
            line: self.line as nat,
            col: self.col as nat,
        }
    }
}

impl Token {
    pub fn new(
        token_type: TokenType,
        lexeme: Vec<u8>,
        literal: Option<TokenLit>,
        line: usize,
        col: usize,
    ) -> (t: Self)
        ensures
            t@ == (SpecToken {
                kind: token_type,
                lexeme: lexeme@,
                lit: match literal {
                    Option::None => Option::None::<SpecTokenLit>,
                    Option::Some(ref l) => Option::Some(l@),
                },
                line: line as nat,
                col: col as nat,
            }),
    {
        Self { token_type, lexeme, literal, line, col }
    }

    pub fn token_type(&self) -> (k: TokenType)
        ensures
            k == self@.kind,
    {
        self.token_type
    }

    pub fn lexeme(&self) -> (l: &Vec<u8>)
        ensures
            l@ == self@.lexeme,
    {
        &self.lexeme
    }

    pub fn literal(&self) -> (l: &Option<TokenLit>)
        ensures
            match l {
                Option::None => self@.lit is None,
                Option::Some(p) => self@.lit == Option::Some(p@),
            },
    {
        &self.literal
    }

    pub fn line(&self) -> (n: usize)
        ensures
            n as nat == self@.line,
    {
        self.line
    }

    pub fn col(&self) -> (n: usize)
        ensures
            n as nat == self@.col,
    {
        self.col
    }
}

} // verus!

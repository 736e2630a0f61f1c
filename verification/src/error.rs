//! The error value every stage reports: a source position, an optional
//! place phrase, and a message, with its formatted text.

use vstd::prelude::*;

use crate::token::{SpecToken, Token, TokenType};
use crate::value::{ascii_bytes, clone_bytes, dec_nat, render_u64, str_bytes};

verus! {

/// Mathematical image of an error.
#[verifier::ext_equal]
pub struct SpecErr {
    pub line: nat,
    pub col: nat,
    pub place: Seq<u8>,
    pub message: Seq<u8>,
}

/// An error carrying the source line and column it arose at, a place phrase
/// such as `at 'foo'`, and a message. Never a process abort: every failure
/// of scanning, parsing or evaluation is reported as a value of this type.
pub struct LoxError {
    pub line: usize,
    pub col: usize,
    pub place: Vec<u8>,
    pub message: Vec<u8>,
}

impl View for LoxError {
    type V = SpecErr;

    open spec fn view(&self) -> SpecErr {
        SpecErr {
            line: self.line as nat,
            col: self.col as nat,
            place: self.place@,
            message: self.message@,
        }
    }
}

/// The place phrase and position an error takes from a token: `at end` for
/// the end-of-input token, otherwise `at '<lexeme>'`.
pub open spec fn spec_err_from_token(t: SpecToken, message: Seq<u8>) -> SpecErr {
    SpecErr {
        line: t.line,
        col: t.col,
        place: if t.kind is Eof {
            ascii_bytes("at end"@)
        } else {
            ascii_bytes("at '"@) + t.lexeme + ascii_bytes("'"@)
        },
        message: message,
    }
}

/// The formatted text of an error:
/// `[line L, col C] Error <place>: <message>`.
pub open spec fn spec_render_err(e: SpecErr) -> Seq<u8> {
    ascii_bytes("[line "@) + dec_nat(e.line) + ascii_bytes(", col "@) + dec_nat(e.col)
        + ascii_bytes("] Error "@) + e.place + ascii_bytes(": "@) + e.message
}

impl LoxError {
    /// An error with no place phrase.
    pub fn new(line: usize, col: usize, message: Vec<u8>) -> (e: Self)
        ensures
            e@ == (SpecErr {
                line: line as nat,
                col: col as nat,
                place: Seq::empty(),
                message: message@,
            }),
    {
        let e = Self { line, col, place: Vec::new(), message };
        proof {
            assert(e@.place =~= Seq::<u8>::empty());
        }
        e
    }

    /// An error with an explicit place phrase.
    pub fn with_place(line: usize, col: usize, place: Vec<u8>, message: Vec<u8>) -> (e: Self)
        ensures
            e@ == (SpecErr {
                line: line as nat,
                col: col as nat,
                place: place@,
                message: message@,
            }),
    {
        Self { line, col, place, message }
    }

    /// An error positioned at a token, with the place phrase the token
    /// yields.
    pub fn from_token(token: &Token, message: Vec<u8>) -> (e: Self)
        ensures
            e@ == spec_err_from_token(token@, message@),
    {
        match token.token_type() {
            TokenType::Eof => {
                proof {
                    reveal_strlit("at end");
                }
                let e = Self {
                    line: token.line,
                    col: token.col,
                    place: str_bytes("at end"),
                    message,
                };
                e
            },
            _ => {
                proof {
                    reveal_strlit("at '");
                    reveal_strlit("'");
                }
                let mut place = str_bytes("at '");
                let mut mid = clone_bytes(&token.lexeme);
                place.append(&mut mid);
                let mut close = str_bytes("'");
                place.append(&mut close);
                proof {
                    assert(place@ =~= ascii_bytes("at '"@) + token@.lexeme + ascii_bytes("'"@));
                }
                Self { line: token.line, col: token.col, place, message }
            },
        }
    }

    /// The error for an operand or callee of the wrong runtime type,
    /// positioned at the offending token.
    pub fn unexpected_type(token: &Token) -> (e: Self)
        ensures
            e@ == spec_err_from_token(token@, ascii_bytes("Unexpected type of token."@)),
    {
        proof {
            reveal_strlit("Unexpected type of token.");
        }
        Self::from_token(token, str_bytes("Unexpected type of token."))
    }

    /// The formatted text of this error.
    pub fn render(&self) -> (r: Vec<u8>)
        ensures
            r@ == spec_render_err(self@),
    {
        proof {
            reveal_strlit("[line ");
            reveal_strlit(", col ");
            reveal_strlit("] Error ");
            reveal_strlit(": ");
        }
        let mut r = str_bytes("[line ");
        let mut part = render_u64(self.line as u64);
        r.append(&mut part);
        let mut part = str_bytes(", col ");
        r.append(&mut part);
        let mut part = render_u64(self.col as u64);
        r.append(&mut part);
        let mut part = str_bytes("] Error ");
        r.append(&mut part);
        let mut part = clone_bytes(&self.place);
        r.append(&mut part);
        let mut part = str_bytes(": ");
        r.append(&mut part);
        let mut part = clone_bytes(&self.message);
        r.append(&mut part);
        proof {
            assert(r@ =~= spec_render_err(self@));
        }
        r
    }
}

} // verus!

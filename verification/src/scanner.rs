//! Lexical analysis: one pass over the source bytes producing the token
//! sequence, terminated by an end-of-input token. The whole scan is fixed by
//! a spec function, and the executable scanner is proved to produce exactly
//! its outcome.

use vstd::prelude::*;

use crate::error::{LoxError, SpecErr};
use crate::token::{SpecToken, SpecTokenLit, Token, TokenLit, TokenType};
use crate::value::{ascii_bytes, bytes_eq, str_bytes};

verus! {

/// Whether a byte is a decimal digit.
pub open spec fn is_digit(b: u8) -> bool {
    48 <= b <= 57
}

/// Whether a byte is an ASCII letter.
pub open spec fn is_alpha(b: u8) -> bool {
    (65 <= b <= 90) || (97 <= b <= 122)
}

/// Whether a byte is a letter or a digit.
pub open spec fn is_alnum(b: u8) -> bool {
    is_digit(b) || is_alpha(b)
}

/// Whether a byte is whitespace other than a newline: tab, vertical tab,
/// form feed, carriage return, space, and the two high whitespace bytes.
pub open spec fn is_space(b: u8) -> bool {
    b == 9 || b == 11 || b == 12 || b == 13 || b == 32 || b == 133 || b == 160
}

/// How many positions remain before the end, zero when past it.
pub open spec fn rem(len: nat, pos: nat) -> nat {
    if pos <= len {
        (len - pos) as nat
    } else {
        0
    }
}

/// The column of a position: how many bytes stand between it and the start
/// of its line.
pub open spec fn col_at(src: Seq<u8>, pos: nat) -> nat
    decreases pos,
{
    if pos == 0 {
        0
    } else if pos > src.len() {
        col_at(src, src.len())
    } else if src[pos - 1] == 10 {
        0
    } else {
        1 + col_at(src, (pos - 1) as nat)
    }
}

/// How many bytes a line comment covers from a position: up to the next
/// newline or the end.
pub open spec fn comment_len(src: Seq<u8>, pos: nat) -> nat
    decreases rem(src.len(), pos),
{
    if pos >= src.len() || src[pos as int] == 10 {
        0
    } else {
        1 + comment_len(src, pos + 1)
    }
}

/// How many bytes a string literal's contents cover from a position: up to
/// the closing quote or the end.
pub open spec fn quote_len(src: Seq<u8>, pos: nat) -> nat
    decreases rem(src.len(), pos),
{
    if pos >= src.len() || src[pos as int] == 34 {
        0
    } else {
        1 + quote_len(src, pos + 1)
    }
}

/// How many digits run from a position.
pub open spec fn digits_len(src: Seq<u8>, pos: nat) -> nat
    decreases rem(src.len(), pos),
{
    if pos >= src.len() || !is_digit(src[pos as int]) {
        0
    } else {
        1 + digits_len(src, pos + 1)
    }
}

/// How many letters and digits run from a position.
pub open spec fn alnum_len(src: Seq<u8>, pos: nat) -> nat
    decreases rem(src.len(), pos),
{
    if pos >= src.len() || !is_alnum(src[pos as int]) {
        0
    } else {
        1 + alnum_len(src, pos + 1)
    }
}

/// How many newlines lie in a half-open byte range.
pub open spec fn count_nl(src: Seq<u8>, a: nat, b: nat) -> nat
    decreases rem(b, a),
{
    if a >= b || a >= src.len() {
        0
    } else {
        (if src[a as int] == 10 {
            1nat
        } else {
            0nat
        }) + count_nl(src, a + 1, b)
    }
}

/// The numeric value of a digit run, when it fits the number range.
pub open spec fn digits_val(src: Seq<u8>, a: nat, b: nat) -> Option<i64>
    decreases b - a,
{
    if a >= b {
        Option::Some(0i64)
    } else {
        match digits_val(src, a, (b - 1) as nat) {
            Option::Some(v) => {
                let x = v as int * 10 + (src[b - 1] as int - 48);
                if x <= i64::MAX {
                    Option::Some(x as i64)
                } else {
                    Option::None
                }
            },
            Option::None => Option::None,
        }
    }
}

/// The kind an identifier's text reclassifies to: one of the fixed keywords
/// or a plain identifier.
pub open spec fn keyword_kind(lex: Seq<u8>) -> TokenType {
    if lex == ascii_bytes("and"@) {
        TokenType::And
    } else if lex == ascii_bytes("class"@) {
        TokenType::Class
    } else if lex == ascii_bytes("else"@) {
        TokenType::Else
    } else if lex == ascii_bytes("false"@) {
        TokenType::False
    } else if lex == ascii_bytes("fun"@) {
        TokenType::Fun
    } else if lex == ascii_bytes("for"@) {
        TokenType::For
    } else if lex == ascii_bytes("if"@) {
        TokenType::If
    } else if lex == ascii_bytes("nil"@) {
        TokenType::Nil
    } else if lex == ascii_bytes("or"@) {
        TokenType::Or
    } else if lex == ascii_bytes("print"@) {
        TokenType::Print
    } else if lex == ascii_bytes("return"@) {
        TokenType::Return
    } else if lex == ascii_bytes("this"@) {
        TokenType::This
    } else if lex == ascii_bytes("true"@) {
        TokenType::True
    } else if lex == ascii_bytes("var"@) {
        TokenType::Var
    } else if lex == ascii_bytes("while"@) {
        TokenType::While
    } else {
        TokenType::Identifier
    }
}

/// A token without a literal payload.
pub open spec fn plain_tok(kind: TokenType, lexeme: Seq<u8>, line: nat, col: nat) -> SpecToken {
    SpecToken { kind, lexeme, lit: Option::None, line, col }
}

/// A token sequence with one more token in front, unless scanning failed.
pub open spec fn cons_tok(t: SpecToken, rest: Result<Seq<SpecToken>, SpecErr>) -> Result<
    Seq<SpecToken>,
    SpecErr,
> {
    match rest {
        Result::Ok(ts) => Result::Ok(seq![t] + ts),
        Result::Err(e) => Result::Err(e),
    }
}

/// The whole scan from a position: the token sequence up to and including
/// the end-of-input token, or the first lexical error. Two-character
/// operators take one character of lookahead; `//` drops the rest of the
/// line; strings may span lines; a number's value is its integer part under
/// the machine number model; identifiers reclassify through the keyword
/// table.
pub open spec fn spec_scan(src: Seq<u8>, pos: nat, line: nat) -> Result<Seq<SpecToken>, SpecErr>
    decreases rem(src.len(), pos),
{
    if pos >= src.len() {
        Result::Ok(seq![plain_tok(TokenType::Eof, Seq::empty(), line, col_at(src, pos))])
    } else {
        let c = src[pos as int];
        let col = col_at(src, pos);
        if c == 40 {
            cons_tok(plain_tok(TokenType::LeftParen, seq![c], line, col), spec_scan(src, pos + 1, line))
        } else if c == 41 {
            cons_tok(plain_tok(TokenType::RightParen, seq![c], line, col), spec_scan(src, pos + 1, line))
        } else if c == 123 {
            cons_tok(plain_tok(TokenType::LeftBrace, seq![c], line, col), spec_scan(src, pos + 1, line))
        } else if c == 125 {
            cons_tok(plain_tok(TokenType::RightBrace, seq![c], line, col), spec_scan(src, pos + 1, line))
        } else if c == 44 {
            cons_tok(plain_tok(TokenType::Comma, seq![c], line, col), spec_scan(src, pos + 1, line))
        } else if c == 46 {
            cons_tok(plain_tok(TokenType::Dot, seq![c], line, col), spec_scan(src, pos + 1, line))
        } else if c == 45 {
            cons_tok(plain_tok(TokenType::Minus, seq![c], line, col), spec_scan(src, pos + 1, line))
        } else if c == 43 {
            cons_tok(plain_tok(TokenType::Plus, seq![c], line, col), spec_scan(src, pos + 1, line))
        } else if c == 59 {
            cons_tok(plain_tok(TokenType::Semicolon, seq![c], line, col), spec_scan(src, pos + 1, line))
        } else if c == 42 {
            cons_tok(plain_tok(TokenType::Star, seq![c], line, col), spec_scan(src, pos + 1, line))
        } else if c == 33 {
            if pos + 1 < src.len() && src[pos as int + 1] == 61 {
                cons_tok(
                    plain_tok(TokenType::BangEqual, seq![c, 61u8], line, col),
                    spec_scan(src, pos + 2, line),
                )
            } else {
                cons_tok(plain_tok(TokenType::Bang, seq![c], line, col), spec_scan(src, pos + 1, line))
            }
        } else if c == 61 {
            if pos + 1 < src.len() && src[pos as int + 1] == 61 {
                cons_tok(
                    plain_tok(TokenType::EqualEqual, seq![c, 61u8], line, col),
                    spec_scan(src, pos + 2, line),
                )
            } else {
                cons_tok(plain_tok(TokenType::Equal, seq![c], line, col), spec_scan(src, pos + 1, line))
            }
        } else if c == 60 {
            if pos + 1 < src.len() && src[pos as int + 1] == 61 {
                cons_tok(
                    plain_tok(TokenType::LessEqual, seq![c, 61u8], line, col),
                    spec_scan(src, pos + 2, line),
                )
            } else {
                cons_tok(plain_tok(TokenType::Less, seq![c], line, col), spec_scan(src, pos + 1, line))
            }
        } else if c == 62 {
            if pos + 1 < src.len() && src[pos as int + 1] == 61 {
                cons_tok(
                    plain_tok(TokenType::GreaterEqual, seq![c, 61u8], line, col),
                    spec_scan(src, pos + 2, line),
                )
            } else {
                cons_tok(
                    plain_tok(TokenType::Greater, seq![c], line, col),
                    spec_scan(src, pos + 1, line),
                )
            }
        } else if c == 47 {
            if pos + 1 < src.len() && src[pos as int + 1] == 47 {
                spec_scan(src, pos + 2 + comment_len(src, pos + 2), line)
            } else {
                cons_tok(plain_tok(TokenType::Slash, seq![c], line, col), spec_scan(src, pos + 1, line))
            }
        } else if c == 10 {
            spec_scan(src, pos + 1, line + 1)
        } else if is_space(c) {
            spec_scan(src, pos + 1, line)
        } else if c == 34 {
            let q = pos + 1 + quote_len(src, pos + 1);
            let nl = count_nl(src, pos + 1, q);
            if q >= src.len() {
                Result::Err(
                    SpecErr {
                        line: line + nl,
                        col: col_at(src, q),
                        place: Seq::empty(),
                        message: ascii_bytes("Unterminated string."@),
                    },
                )
            } else {
                cons_tok(
                    SpecToken {
                        kind: TokenType::Str,
                        lexeme: src.subrange(pos as int, (q + 1) as int),
                        lit: Option::Some(SpecTokenLit::Text(src.subrange((pos + 1) as int, q as int))),
                        line: line + nl,
                        col,
                    },
                    spec_scan(src, q + 1, line + nl),
                )
            }
        } else if is_digit(c) {
            let d1 = digits_len(src, pos);
            let end = if pos + d1 + 1 < src.len() && src[(pos + d1) as int] == 46 && is_digit(
                src[(pos + d1 + 1) as int],
            ) {
                pos + d1 + 1 + digits_len(src, pos + d1 + 1)
            } else {
                pos + d1
            };
            match digits_val(src, pos, pos + d1) {
                Option::Some(v) => cons_tok(
                    SpecToken {
                        kind: TokenType::Number,
                        lexeme: src.subrange(pos as int, end as int),
                        lit: Option::Some(SpecTokenLit::Num(v)),
                        line,
                        col,
                    },
                    spec_scan(src, end, line),
                ),
                Option::None => Result::Err(
                    SpecErr {
                        line,
                        col,
                        place: Seq::empty(),
                        message: ascii_bytes("Number literal too large."@),
                    },
                ),
            }
        } else if is_alpha(c) {
            let d = alnum_len(src, pos);
            let lex = src.subrange(pos as int, (pos + d) as int);
            cons_tok(plain_tok(keyword_kind(lex), lex, line, col), spec_scan(src, pos + d, line))
        } else {
            Result::Err(
                SpecErr {
                    line,
                    col: col_at(src, pos + 1),
                    place: Seq::empty(),
                    message: ascii_bytes("Unexpected character."@),
                },
            )
        }
    }
}

/// Image of a token list.
pub open spec fn toks_view(ts: Seq<Token>) -> Seq<SpecToken> {
    Seq::new(ts.len(), |i: int| ts[i]@)
}

/// At most one newline per byte.
pub proof fn lemma_count_nl_le(src: Seq<u8>, a: nat, b: nat)
    ensures
        a + count_nl(src, a, b) <= b || count_nl(src, a, b) == 0,
        count_nl(src, a, b) <= rem(b, a),
    decreases rem(b, a),
{
    if a < b && a < src.len() {
        lemma_count_nl_le(src, a + 1, b);
    }
}

/// Whether a byte is a decimal digit.
fn byte_is_digit(b: u8) -> (r: bool)
    ensures
        r == is_digit(b),
{
    48 <= b && b <= 57
}

/// Whether a byte is an ASCII letter.
fn byte_is_alpha(b: u8) -> (r: bool)
    ensures
        r == is_alpha(b),
{
    (65 <= b && b <= 90) || (97 <= b && b <= 122)
}

/// Whether a byte is whitespace other than a newline.
fn byte_is_space(b: u8) -> (r: bool)
    ensures
        r == is_space(b),
{
    b == 9 || b == 11 || b == 12 || b == 13 || b == 32 || b == 133 || b == 160
}

/// The column of a position.
fn exec_col_at(src: &Vec<u8>, pos: usize) -> (c: usize)
    requires
        pos <= src@.len(),
    ensures
        c as nat == col_at(src@, pos as nat),
        c <= pos,
    decreases pos,
{
    if pos == 0 {
        0
    } else if src[pos - 1] == 10 {
        0
    } else {
        1 + exec_col_at(src, pos - 1)
    }
}

/// How many bytes a line comment covers from a position.
fn exec_comment_len(src: &Vec<u8>, pos: usize) -> (r: usize)
    requires
        pos <= src@.len(),
    ensures
        r as nat == comment_len(src@, pos as nat),
        pos + r <= src@.len(),
    decreases src@.len() - pos,
{
    if pos >= src.len() || src[pos] == 10 {
        0
    } else {
        1 + exec_comment_len(src, pos + 1)
    }
}

/// How many bytes a string literal's contents cover from a position.
fn exec_quote_len(src: &Vec<u8>, pos: usize) -> (r: usize)
    requires
        pos <= src@.len(),
    ensures
        r as nat == quote_len(src@, pos as nat),
        pos + r <= src@.len(),
    decreases src@.len() - pos,
{
    if pos >= src.len() || src[pos] == 34 {
        0
    } else {
        1 + exec_quote_len(src, pos + 1)
    }
}

/// How many digits run from a position.
fn exec_digits_len(src: &Vec<u8>, pos: usize) -> (r: usize)
    requires
        pos <= src@.len(),
    ensures
        r as nat == digits_len(src@, pos as nat),
        pos + r <= src@.len(),
    decreases src@.len() - pos,
{
    if pos >= src.len() || !byte_is_digit(src[pos]) {
        0
    } else {
        1 + exec_digits_len(src, pos + 1)
    }
}

/// How many letters and digits run from a position.
fn exec_alnum_len(src: &Vec<u8>, pos: usize) -> (r: usize)
    requires
        pos <= src@.len(),
    ensures
        r as nat == alnum_len(src@, pos as nat),
        pos + r <= src@.len(),
    decreases src@.len() - pos,
{
    if pos >= src.len() || !(byte_is_digit(src[pos]) || byte_is_alpha(src[pos])) {
        0
    } else {
        1 + exec_alnum_len(src, pos + 1)
    }
}

/// How many newlines lie in a half-open byte range.
fn exec_count_nl(src: &Vec<u8>, a: usize, b: usize) -> (r: usize)
    requires
        a <= b,
        b <= src@.len(),
    ensures
        r as nat == count_nl(src@, a as nat, b as nat),
        r <= b - a,
    decreases b - a,
{
    if a >= b {
        0
    } else if src[a] == 10 {
        1 + exec_count_nl(src, a + 1, b)
    } else {
        exec_count_nl(src, a + 1, b)
    }
}

/// The numeric value of a digit run, when it fits the number range.
fn exec_digits_value(src: &Vec<u8>, a: usize, b: usize) -> (r: Option<i64>)
    requires
        a <= b,
        b <= src@.len(),
    ensures
        r == digits_val(src@, a as nat, b as nat),
    decreases b - a,
{
    if a >= b {
        Option::Some(0)
    } else {
        match exec_digits_value(src, a, b - 1) {
            Option::Some(v) => {
                let x: i128 = (v as i128) * 10 + ((src[b - 1] as i128) - 48);
                if x <= i64::MAX as i128 {
                    Option::Some(#[verifier::truncate] (x as i64))
                } else {
                    Option::None
                }
            },
            Option::None => Option::None,
        }
    }
}

/// A copy of a half-open byte range.
fn copy_range(src: &Vec<u8>, a: usize, b: usize) -> (r: Vec<u8>)
    requires
        a <= b,
        b <= src@.len(),
    ensures
        r@ == src@.subrange(a as int, b as int),
    decreases b - a,
{
    let mut r: Vec<u8> = Vec::new();
    let mut i: usize = a;
    while i < b
        invariant
            a <= i <= b,
            b <= src@.len(),
            r@ == src@.subrange(a as int, i as int),
        decreases b - i,
    {
        r.push(src[i]);
        proof {
            assert(r@ =~= src@.subrange(a as int, i + 1));
        }
        i = i + 1;
    }
    r
}

/// A one-byte lexeme.
fn one_byte(c: u8) -> (r: Vec<u8>)
    ensures
        r@ == seq![c],
{
    let mut r: Vec<u8> = Vec::new();
    r.push(c);
    proof {
        assert(r@ =~= seq![c]);
    }
    r
}

/// A two-byte lexeme.
fn two_bytes(a: u8, b: u8) -> (r: Vec<u8>)
    ensures
        r@ == seq![a, b],
{
    let mut r: Vec<u8> = Vec::new();
    r.push(a);
    r.push(b);
    proof {
        assert(r@ =~= seq![a, b]);
    }
    r
}

/// The keyword table: the kind an identifier's text reclassifies to.
fn exec_keyword_kind(lex: &Vec<u8>) -> (k: TokenType)
    ensures
        k == keyword_kind(lex@),
{
    proof {
        reveal_strlit("and");
        reveal_strlit("class");
        reveal_strlit("else");
        reveal_strlit("false");
        reveal_strlit("fun");
        reveal_strlit("for");
        reveal_strlit("if");
        reveal_strlit("nil");
        reveal_strlit("or");
        reveal_strlit("print");
        reveal_strlit("return");
        reveal_strlit("this");
        reveal_strlit("true");
        reveal_strlit("var");
        reveal_strlit("while");
    }
    if bytes_eq(lex, &str_bytes("and")) {
        TokenType::And
    } else if bytes_eq(lex, &str_bytes("class")) {
        TokenType::Class
    } else if bytes_eq(lex, &str_bytes("else")) {
        TokenType::Else
    } else if bytes_eq(lex, &str_bytes("false")) {
        TokenType::False
    } else if bytes_eq(lex, &str_bytes("fun")) {
        TokenType::Fun
    } else if bytes_eq(lex, &str_bytes("for")) {
        TokenType::For
    } else if bytes_eq(lex, &str_bytes("if")) {
        TokenType::If
    } else if bytes_eq(lex, &str_bytes("nil")) {
        TokenType::Nil
    } else if bytes_eq(lex, &str_bytes("or")) {
        TokenType::Or
    } else if bytes_eq(lex, &str_bytes("print")) {
        TokenType::Print
    } else if bytes_eq(lex, &str_bytes("return")) {
        TokenType::Return
    } else if bytes_eq(lex, &str_bytes("this")) {
        TokenType::This
    } else if bytes_eq(lex, &str_bytes("true")) {
        TokenType::True
    } else if bytes_eq(lex, &str_bytes("var")) {
        TokenType::Var
    } else if bytes_eq(lex, &str_bytes("while")) {
        TokenType::While
    } else {
        TokenType::Identifier
    }
}

/// Scans the rest of the source and puts one freshly scanned token in
/// front.
fn cons_scan(src: &Vec<u8>, t: Token, npos: usize, nline: usize) -> (r: Result<
    Vec<Token>,
    LoxError,
>)
    requires
        src@.len() < usize::MAX,
        npos <= src@.len(),
        nline + (src@.len() - npos) <= usize::MAX,
    ensures
        match r {
            Result::Ok(ts) => cons_tok(t@, spec_scan(src@, npos as nat, nline as nat))
                == Result::<Seq<SpecToken>, SpecErr>::Ok(toks_view(ts@)),
            Result::Err(e) => cons_tok(t@, spec_scan(src@, npos as nat, nline as nat))
                == Result::<Seq<SpecToken>, SpecErr>::Err(e@),
        },
    decreases src@.len() - npos, 1int,
{
    match scan_from(src, npos, nline) {
        Result::Ok(mut ts) => {
            let ghost tail = ts@;
            ts.insert(0, t);
            proof {
                assert(toks_view(ts@) =~= seq![t@] + toks_view(tail));
            }
            Result::Ok(ts)
        },
        Result::Err(e) => Result::Err(e),
    }
}

/// The executable scan from a position: exactly the tokens or the error
/// the specification names.
#[verifier::rlimit(100)]
fn scan_from(src: &Vec<u8>, pos: usize, line: usize) -> (r: Result<Vec<Token>, LoxError>)
    requires
        src@.len() < usize::MAX,
        pos <= src@.len(),
        line + (src@.len() - pos) <= usize::MAX,
    ensures
        match r {
            Result::Ok(ts) => spec_scan(src@, pos as nat, line as nat)
                == Result::<Seq<SpecToken>, SpecErr>::Ok(toks_view(ts@)),
            Result::Err(e) => spec_scan(src@, pos as nat, line as nat)
                == Result::<Seq<SpecToken>, SpecErr>::Err(e@),
        },
    decreases src@.len() - pos, 0int,
{
    if pos >= src.len() {
        let t = Token::new(TokenType::Eof, Vec::new(), Option::None, line, exec_col_at(src, pos));
        let mut ts: Vec<Token> = Vec::new();
        ts.push(t);
        proof {
            assert(toks_view(ts@) =~= seq![t@]);
            assert(t@.lexeme =~= Seq::<u8>::empty());
        }
        Result::Ok(ts)
    } else {
        let c = src[pos];
        let col = exec_col_at(src, pos);
        if c == 40 {
            cons_scan(src, Token::new(TokenType::LeftParen, one_byte(c), Option::None, line, col), pos + 1, line)
        } else if c == 41 {
            cons_scan(src, Token::new(TokenType::RightParen, one_byte(c), Option::None, line, col), pos + 1, line)
        } else if c == 123 {
            cons_scan(src, Token::new(TokenType::LeftBrace, one_byte(c), Option::None, line, col), pos + 1, line)
        } else if c == 125 {
            cons_scan(src, Token::new(TokenType::RightBrace, one_byte(c), Option::None, line, col), pos + 1, line)
        } else if c == 44 {
            cons_scan(src, Token::new(TokenType::Comma, one_byte(c), Option::None, line, col), pos + 1, line)
        } else if c == 46 {
            cons_scan(src, Token::new(TokenType::Dot, one_byte(c), Option::None, line, col), pos + 1, line)
        } else if c == 45 {
            cons_scan(src, Token::new(TokenType::Minus, one_byte(c), Option::None, line, col), pos + 1, line)
        } else if c == 43 {
            cons_scan(src, Token::new(TokenType::Plus, one_byte(c), Option::None, line, col), pos + 1, line)
        } else if c == 59 {
            cons_scan(src, Token::new(TokenType::Semicolon, one_byte(c), Option::None, line, col), pos + 1, line)
        } else if c == 42 {
            cons_scan(src, Token::new(TokenType::Star, one_byte(c), Option::None, line, col), pos + 1, line)
        } else if c == 33 {
            if pos + 1 < src.len() && src[pos + 1] == 61 {
                cons_scan(src, Token::new(TokenType::BangEqual, two_bytes(c, 61), Option::None, line, col), pos + 2, line)
            } else {
                cons_scan(src, Token::new(TokenType::Bang, one_byte(c), Option::None, line, col), pos + 1, line)
            }
        } else if c == 61 {
            if pos + 1 < src.len() && src[pos + 1] == 61 {
                cons_scan(src, Token::new(TokenType::EqualEqual, two_bytes(c, 61), Option::None, line, col), pos + 2, line)
            } else {
                cons_scan(src, Token::new(TokenType::Equal, one_byte(c), Option::None, line, col), pos + 1, line)
            }
        } else if c == 60 {
            if pos + 1 < src.len() && src[pos + 1] == 61 {
                cons_scan(src, Token::new(TokenType::LessEqual, two_bytes(c, 61), Option::None, line, col), pos + 2, line)
            } else {
                cons_scan(src, Token::new(TokenType::Less, one_byte(c), Option::None, line, col), pos + 1, line)
            }
        } else if c == 62 {
            if pos + 1 < src.len() && src[pos + 1] == 61 {
                cons_scan(src, Token::new(TokenType::GreaterEqual, two_bytes(c, 61), Option::None, line, col), pos + 2, line)
            } else {
                cons_scan(src, Token::new(TokenType::Greater, one_byte(c), Option::None, line, col), pos + 1, line)
            }
        } else if c == 47 {
            if pos + 1 < src.len() && src[pos + 1] == 47 {
                let d = exec_comment_len(src, pos + 2);
                scan_from(src, pos + 2 + d, line)
            } else {
                cons_scan(src, Token::new(TokenType::Slash, one_byte(c), Option::None, line, col), pos + 1, line)
            }
        } else if c == 10 {
            scan_from(src, pos + 1, line + 1)
        } else if byte_is_space(c) {
            scan_from(src, pos + 1, line)
        } else if c == 34 {
            let qd = exec_quote_len(src, pos + 1);
            let q = pos + 1 + qd;
            let nl = exec_count_nl(src, pos + 1, q);
            if q >= src.len() {
                proof {
                    reveal_strlit("Unterminated string.");
                }
                Result::Err(LoxError::new(line + nl, exec_col_at(src, q), str_bytes("Unterminated string.")))
            } else {
                let t = Token::new(
                    TokenType::Str,
                    copy_range(src, pos, q + 1),
                    Option::Some(TokenLit::Text(copy_range(src, pos + 1, q))),
                    line + nl,
                    col,
                );
                cons_scan(src, t, q + 1, line + nl)
            }
        } else if byte_is_digit(c) {
            let d1 = exec_digits_len(src, pos);
            proof {
                assert(digits_len(src@, pos as nat) >= 1);
            }
            let end = if pos + d1 + 1 < src.len() && src[pos + d1] == 46 && byte_is_digit(
                src[pos + d1 + 1],
            ) {
                let d2 = exec_digits_len(src, pos + d1 + 1);
                pos + d1 + 1 + d2
            } else {
                pos + d1
            };
            match exec_digits_value(src, pos, pos + d1) {
                Option::Some(v) => {
                    let t = Token::new(
                        TokenType::Number,
                        copy_range(src, pos, end),
                        Option::Some(TokenLit::Num(v)),
                        line,
                        col,
                    );
                    cons_scan(src, t, end, line)
                },
                Option::None => {
                    proof {
                        reveal_strlit("Number literal too large.");
                    }
                    Result::Err(LoxError::new(line, col, str_bytes("Number literal too large.")))
                },
            }
        } else if byte_is_alpha(c) {
            let d = exec_alnum_len(src, pos);
            proof {
                assert(alnum_len(src@, pos as nat) >= 1);
            }
            let lex = copy_range(src, pos, pos + d);
            let k = exec_keyword_kind(&lex);
            cons_scan(src, Token::new(k, lex, Option::None, line, col), pos + d, line)
        } else {
            proof {
                reveal_strlit("Unexpected character.");
            }
            Result::Err(LoxError::new(line, exec_col_at(src, pos + 1), str_bytes("Unexpected character.")))
        }
    }
}

/// Scans the whole source once: the token sequence terminated by the
/// end-of-input token, or the first lexical error, exactly as the
/// specification names them. Line counting starts at one.
pub fn scan_tokens(source: &Vec<u8>) -> (r: Result<Vec<Token>, LoxError>)
    requires
        source@.len() + 1 <= usize::MAX,
    ensures
        match r {
            Result::Ok(ts) => spec_scan(source@, 0, 1) == Result::<Seq<SpecToken>, SpecErr>::Ok(
                toks_view(ts@),
            ) && ts@.len() >= 1,
            Result::Err(e) => spec_scan(source@, 0, 1) == Result::<Seq<SpecToken>, SpecErr>::Err(
                e@,
            ),
        },
{
    match scan_from(source, 0, 1) {
        Result::Ok(ts) => {
            proof {
                lemma_scan_nonempty(source@, 0, 1);
                assert(toks_view(ts@).len() == ts@.len());
            }
            Result::Ok(ts)
        },
        Result::Err(e) => Result::Err(e),
    }
}

/// A successful scan always yields at least the end-of-input token.
proof fn lemma_scan_nonempty(src: Seq<u8>, pos: nat, line: nat)
    ensures
        match spec_scan(src, pos, line) {
            Result::Ok(ts) => ts.len() >= 1,
            Result::Err(_) => true,
        },
    decreases rem(src.len(), pos),
{
    if pos < src.len() {
        let c = src[pos as int];
        if c == 47 && pos + 1 < src.len() && src[pos as int + 1] == 47 {
            lemma_scan_nonempty(src, pos + 2 + comment_len(src, pos + 2), line);
        } else if c == 10 {
            lemma_scan_nonempty(src, pos + 1, line + 1);
        } else if is_space(c) {
            lemma_scan_nonempty(src, pos + 1, line);
        } else if c == 34 {
            let q = pos + 1 + quote_len(src, pos + 1);
            if q < src.len() {
                lemma_scan_nonempty(src, q + 1, line + count_nl(src, pos + 1, q));
            }
        } else if is_digit(c) {
            let d1 = digits_len(src, pos);
            let end = if pos + d1 + 1 < src.len() && src[(pos + d1) as int] == 46 && is_digit(
                src[(pos + d1 + 1) as int],
            ) {
                pos + d1 + 1 + digits_len(src, pos + d1 + 1)
            } else {
                pos + d1
            };
            lemma_scan_nonempty(src, end, line);
        } else if is_alpha(c) {
            lemma_scan_nonempty(src, pos + alnum_len(src, pos), line);
        } else {
            lemma_scan_nonempty(src, pos + 1, line);
        }
    }
}

} // verus!

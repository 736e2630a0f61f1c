//! The grammar, as spec functions: recursive-descent parsing from the token
//! sequence to the statement list, with precedence-correct expression
//! tiers, the `for` desugaring, and panic-mode recovery that lets one
//! source report several independent syntax errors. These functions fix
//! what a parse yields, token by token; an executable parser has to produce
//! exactly their outcome.

use vstd::prelude::*;

use crate::ast::{SpecExpr, SpecStmt};
use crate::error::{spec_err_from_token, SpecErr};
use crate::scanner::rem;
use crate::token::{SpecToken, SpecTokenLit, TokenType};
use crate::value::ascii_bytes;

verus! {

/// The token at a position, or a bare end-of-input token past the end.
pub open spec fn tok_at(toks: Seq<SpecToken>, i: nat) -> SpecToken {
    if i < toks.len() {
        toks[i as int]
    } else {
        SpecToken { kind: TokenType::Eof, lexeme: Seq::empty(), lit: Option::None, line: 0, col: 0 }
    }
}

/// The kind of the token at a position.
pub open spec fn kind_at(toks: Seq<SpecToken>, i: nat) -> TokenType {
    tok_at(toks, i).kind
}

/// A syntax error at a position's token.
pub open spec fn perr_at(toks: Seq<SpecToken>, i: nat, msg: Seq<u8>) -> SpecErr {
    spec_err_from_token(tok_at(toks, i), msg)
}

/// The `for` statement's desugaring: the increment joins the body in a
/// block, a missing condition becomes the literal `true`, the pair becomes
/// a `while`, and an initializer wraps the whole in an outer block.
pub open spec fn desugar_for(
    init: Option<SpecStmt>,
    cond: Option<SpecExpr>,
    inc: Option<SpecExpr>,
    body: SpecStmt,
) -> SpecStmt {
    let body1 = match inc {
        Option::Some(e) => SpecStmt::Block {
            statements: seq![body, SpecStmt::Expression { expression: e }],
        },
        Option::None => body,
    };
    let cond1 = match cond {
        Option::Some(e) => e,
        Option::None => SpecExpr::Literal { value: crate::ast::SpecLit::Bool(true) },
    };
    let w = SpecStmt::While { condition: cond1, body: Box::new(body1) };
    match init {
        Option::Some(s) => SpecStmt::Block { statements: seq![s, w] },
        Option::None => w,
    }
}

/// How far panic-mode recovery skips from a position: up to just after a
/// `;`, to just before a token that begins a declaration or statement, or
/// to the end of input.
pub open spec fn sync_len(toks: Seq<SpecToken>, j: nat) -> nat
    decreases rem(toks.len(), j),
{
    if kind_at(toks, j) is Eof {
        0
    } else if j >= 1 && kind_at(toks, (j - 1) as nat) is Semicolon {
        0
    } else if kind_at(toks, j) is Class || kind_at(toks, j) is Fun || kind_at(toks, j) is Var
        || kind_at(toks, j) is For || kind_at(toks, j) is If || kind_at(toks, j) is While
        || kind_at(toks, j) is Print || kind_at(toks, j) is Return {
        0
    } else {
        1 + sync_len(toks, j + 1)
    }
}

/// An expression-parse outcome: the expression or the first error, and how
/// many tokens were consumed.
pub type PExpr = (Result<SpecExpr, SpecErr>, nat);

/// A statement-parse outcome.
pub type PStmt = (Result<SpecStmt, SpecErr>, nat);

/// expression -> assignment
pub open spec fn p_expression(toks: Seq<SpecToken>, i: nat) -> PExpr
    decreases rem(toks.len(), i), 20int,
{
    p_assignment(toks, i)
}

/// assignment -> IDENTIFIER "=" assignment | logic_or ; only a bare
/// variable reference may stand on the left.
pub open spec fn p_assignment(toks: Seq<SpecToken>, i: nat) -> PExpr
    decreases rem(toks.len(), i), 19int,
{
    let (r, d) = p_logic_or(toks, i);
    match r {
        Result::Ok(e) => if kind_at(toks, i + d) is Equal {
            let (rv, dv) = p_assignment(toks, i + d + 1);
            match rv {
                Result::Ok(v) => match e {
                    SpecExpr::Variable { name } => (
                        Result::Ok(SpecExpr::Assign { name, value: Box::new(v) }),
                        d + 1 + dv,
                    ),
                    _ => (
                        Result::Err(
                            perr_at(toks, i + d, ascii_bytes("Invalid assignment target."@)),
                        ),
                        d + 1 + dv,
                    ),
                },
                Result::Err(e2) => (Result::Err(e2), d + 1 + dv),
            }
        } else {
            (Result::Ok(e), d)
        },
        Result::Err(e2) => (Result::Err(e2), d),
    }
}

/// logic_or -> logic_and ( "or" logic_and )*
pub open spec fn p_logic_or(toks: Seq<SpecToken>, i: nat) -> PExpr
    decreases rem(toks.len(), i), 18int,
{
    let (r, d) = p_logic_and(toks, i);
    match r {
        Result::Ok(e) => {
            let (r2, d2) = p_or_rest(toks, i + d, e);
            (r2, d + d2)
        },
        Result::Err(e2) => (Result::Err(e2), d),
    }
}

pub open spec fn p_or_rest(toks: Seq<SpecToken>, i: nat, acc: SpecExpr) -> PExpr
    decreases rem(toks.len(), i), 17int,
{
    if kind_at(toks, i) is Or {
        let op = tok_at(toks, i);
        let (r, d) = p_logic_and(toks, i + 1);
        match r {
            Result::Ok(e) => {
                let (r2, d2) = p_or_rest(
                    toks,
                    i + 1 + d,
                    SpecExpr::Logical { left: Box::new(acc), operator: op, right: Box::new(e) },
                );
                (r2, 1 + d + d2)
            },
            Result::Err(e2) => (Result::Err(e2), 1 + d),
        }
    } else {
        (Result::Ok(acc), 0)
    }
}

/// logic_and -> equality ( "and" equality )*
pub open spec fn p_logic_and(toks: Seq<SpecToken>, i: nat) -> PExpr
    decreases rem(toks.len(), i), 16int,
{
    let (r, d) = p_equality(toks, i);
    match r {
        Result::Ok(e) => {
            let (r2, d2) = p_and_rest(toks, i + d, e);
            (r2, d + d2)
        },
        Result::Err(e2) => (Result::Err(e2), d),
    }
}

pub open spec fn p_and_rest(toks: Seq<SpecToken>, i: nat, acc: SpecExpr) -> PExpr
    decreases rem(toks.len(), i), 15int,
{
    if kind_at(toks, i) is And {
        let op = tok_at(toks, i);
        let (r, d) = p_equality(toks, i + 1);
        match r {
            Result::Ok(e) => {
                let (r2, d2) = p_and_rest(
                    toks,
                    i + 1 + d,
                    SpecExpr::Logical { left: Box::new(acc), operator: op, right: Box::new(e) },
                );
                (r2, 1 + d + d2)
            },
            Result::Err(e2) => (Result::Err(e2), 1 + d),
        }
    } else {
        (Result::Ok(acc), 0)
    }
}

/// equality -> comparison ( ( "!=" | "==" ) comparison )*
pub open spec fn p_equality(toks: Seq<SpecToken>, i: nat) -> PExpr
    decreases rem(toks.len(), i), 14int,
{
    let (r, d) = p_comparison(toks, i);
    match r {
        Result::Ok(e) => {
            let (r2, d2) = p_eq_rest(toks, i + d, e);
            (r2, d + d2)
        },
        Result::Err(e2) => (Result::Err(e2), d),
    }
}

pub open spec fn p_eq_rest(toks: Seq<SpecToken>, i: nat, acc: SpecExpr) -> PExpr
    decreases rem(toks.len(), i), 13int,
{
    if kind_at(toks, i) is BangEqual || kind_at(toks, i) is EqualEqual {
        let op = tok_at(toks, i);
        let (r, d) = p_comparison(toks, i + 1);
        match r {
            Result::Ok(e) => {
                let (r2, d2) = p_eq_rest(
                    toks,
                    i + 1 + d,
                    SpecExpr::Binary { left: Box::new(acc), operator: op, right: Box::new(e) },
                );
                (r2, 1 + d + d2)
            },
            Result::Err(e2) => (Result::Err(e2), 1 + d),
        }
    } else {
        (Result::Ok(acc), 0)
    }
}

/// comparison -> term ( ( ">" | ">=" | "<" | "<=" ) term )*
pub open spec fn p_comparison(toks: Seq<SpecToken>, i: nat) -> PExpr
    decreases rem(toks.len(), i), 12int,
{
    let (r, d) = p_term(toks, i);
    match r {
        Result::Ok(e) => {
            let (r2, d2) = p_comp_rest(toks, i + d, e);
            (r2, d + d2)
        },
        Result::Err(e2) => (Result::Err(e2), d),
    }
}

pub open spec fn p_comp_rest(toks: Seq<SpecToken>, i: nat, acc: SpecExpr) -> PExpr
    decreases rem(toks.len(), i), 11int,
{
    if kind_at(toks, i) is Greater || kind_at(toks, i) is GreaterEqual || kind_at(toks, i) is Less
        || kind_at(toks, i) is LessEqual {
        let op = tok_at(toks, i);
        let (r, d) = p_term(toks, i + 1);
        match r {
            Result::Ok(e) => {
                let (r2, d2) = p_comp_rest(
                    toks,
                    i + 1 + d,
                    SpecExpr::Binary { left: Box::new(acc), operator: op, right: Box::new(e) },
                );
                (r2, 1 + d + d2)
            },
            Result::Err(e2) => (Result::Err(e2), 1 + d),
        }
    } else {
        (Result::Ok(acc), 0)
    }
}

/// term -> factor ( ( "-" | "+" ) factor )*
pub open spec fn p_term(toks: Seq<SpecToken>, i: nat) -> PExpr
    decreases rem(toks.len(), i), 10int,
{
    let (r, d) = p_factor(toks, i);
    match r {
        Result::Ok(e) => {
            let (r2, d2) = p_term_rest(toks, i + d, e);
            (r2, d + d2)
        },
        Result::Err(e2) => (Result::Err(e2), d),
    }
}

pub open spec fn p_term_rest(toks: Seq<SpecToken>, i: nat, acc: SpecExpr) -> PExpr
    decreases rem(toks.len(), i), 9int,
{
    if kind_at(toks, i) is Minus || kind_at(toks, i) is Plus {
        let op = tok_at(toks, i);
        let (r, d) = p_factor(toks, i + 1);
        match r {
            Result::Ok(e) => {
                let (r2, d2) = p_term_rest(
                    toks,
                    i + 1 + d,
                    SpecExpr::Binary { left: Box::new(acc), operator: op, right: Box::new(e) },
                );
                (r2, 1 + d + d2)
            },
            Result::Err(e2) => (Result::Err(e2), 1 + d),
        }
    } else {
        (Result::Ok(acc), 0)
    }
}

/// factor -> unary ( ( "/" | "*" ) unary )*
pub open spec fn p_factor(toks: Seq<SpecToken>, i: nat) -> PExpr
    decreases rem(toks.len(), i), 8int,
{
    let (r, d) = p_unary(toks, i);
    match r {
        Result::Ok(e) => {
            let (r2, d2) = p_factor_rest(toks, i + d, e);
            (r2, d + d2)
        },
        Result::Err(e2) => (Result::Err(e2), d),
    }
}

pub open spec fn p_factor_rest(toks: Seq<SpecToken>, i: nat, acc: SpecExpr) -> PExpr
    decreases rem(toks.len(), i), 7int,
{
    if kind_at(toks, i) is Slash || kind_at(toks, i) is Star {
        let op = tok_at(toks, i);
        let (r, d) = p_unary(toks, i + 1);
        match r {
            Result::Ok(e) => {
                let (r2, d2) = p_factor_rest(
                    toks,
                    i + 1 + d,
                    SpecExpr::Binary { left: Box::new(acc), operator: op, right: Box::new(e) },
                );
                (r2, 1 + d + d2)
            },
            Result::Err(e2) => (Result::Err(e2), 1 + d),
        }
    } else {
        (Result::Ok(acc), 0)
    }
}

/// unary -> ( "!" | "-" ) unary | call
pub open spec fn p_unary(toks: Seq<SpecToken>, i: nat) -> PExpr
    decreases rem(toks.len(), i), 6int,
{
    if kind_at(toks, i) is Bang || kind_at(toks, i) is Minus {
        let op = tok_at(toks, i);
        let (r, d) = p_unary(toks, i + 1);
        match r {
            Result::Ok(e) => (
                Result::Ok(SpecExpr::Unary { operator: op, right: Box::new(e) }),
                1 + d,
            ),
            Result::Err(e2) => (Result::Err(e2), 1 + d),
        }
    } else {
        p_call(toks, i)
    }
}

/// call -> primary ( "(" arguments? ")" )*
pub open spec fn p_call(toks: Seq<SpecToken>, i: nat) -> PExpr
    decreases rem(toks.len(), i), 5int,
{
    let (r, d) = p_primary(toks, i);
    match r {
        Result::Ok(e) => {
            let (r2, d2) = p_call_rest(toks, i + d, e);
            (r2, d + d2)
        },
        Result::Err(e2) => (Result::Err(e2), d),
    }
}

pub open spec fn p_call_rest(toks: Seq<SpecToken>, i: nat, acc: SpecExpr) -> PExpr
    decreases rem(toks.len(), i), 4int,
{
    if kind_at(toks, i) is LeftParen {
        let (ra, da) = if kind_at(toks, i + 1) is RightParen {
            (Result::<Seq<SpecExpr>, SpecErr>::Ok(Seq::empty()), 0nat)
        } else {
            p_args(toks, i + 1, Seq::empty())
        };
        match ra {
            Result::Ok(args) => if kind_at(toks, i + 1 + da) is RightParen {
                let paren = tok_at(toks, i + 1 + da);
                let (r2, d2) = p_call_rest(
                    toks,
                    i + 1 + da + 1,
                    SpecExpr::Call { callee: Box::new(acc), paren, arguments: args },
                );
                (r2, 1 + da + 1 + d2)
            } else {
                (
                    Result::Err(
                        perr_at(toks, i + 1 + da, ascii_bytes("Expect ')' after arguments."@)),
                    ),
                    1 + da,
                )
            },
            Result::Err(e2) => (Result::Err(e2), 1 + da),
        }
    } else {
        (Result::Ok(acc), 0)
    }
}

/// arguments -> expression ( "," expression )* , capped at 255 entries.
pub open spec fn p_args(toks: Seq<SpecToken>, i: nat, acc: Seq<SpecExpr>) -> (Result<
    Seq<SpecExpr>,
    SpecErr,
>, nat)
    decreases rem(toks.len(), i), 21int,
{
    if acc.len() >= 255 {
        (
            Result::Err(perr_at(toks, i, ascii_bytes("Can't have more than 255 arguments."@))),
            0,
        )
    } else {
        let (r, d) = p_expression(toks, i);
        match r {
            Result::Ok(e) => if kind_at(toks, i + d) is Comma {
                let (r2, d2) = p_args(toks, i + d + 1, acc.push(e));
                (r2, d + 1 + d2)
            } else {
                (Result::Ok(acc.push(e)), d)
            },
            Result::Err(e2) => (Result::Err(e2), d),
        }
    }
}

/// primary -> literal | identifier | "(" expression ")"
pub open spec fn p_primary(toks: Seq<SpecToken>, i: nat) -> PExpr
    decreases rem(toks.len(), i), 3int,
{
    let t = tok_at(toks, i);
    if t.kind is False {
        (Result::Ok(SpecExpr::Literal { value: crate::ast::SpecLit::Bool(false) }), 1)
    } else if t.kind is True {
        (Result::Ok(SpecExpr::Literal { value: crate::ast::SpecLit::Bool(true) }), 1)
    } else if t.kind is Nil {
        (Result::Ok(SpecExpr::Literal { value: crate::ast::SpecLit::Nil }), 1)
    } else if t.kind is Number || t.kind is Str {
        match t.lit {
            Option::Some(SpecTokenLit::Num(n)) => (
                Result::Ok(SpecExpr::Literal { value: crate::ast::SpecLit::Num(n) }),
                1,
            ),
            Option::Some(SpecTokenLit::Text(s)) => (
                Result::Ok(SpecExpr::Literal { value: crate::ast::SpecLit::Text(s) }),
                1,
            ),
            Option::None => (
                Result::Err(perr_at(toks, i, ascii_bytes("Expect expression."@))),
                0,
            ),
        }
    } else if t.kind is Identifier {
        (Result::Ok(SpecExpr::Variable { name: t }), 1)
    } else if t.kind is LeftParen {
        let (r, d) = p_expression(toks, i + 1);
        match r {
            Result::Ok(e) => if kind_at(toks, i + 1 + d) is RightParen {
                (
                    Result::Ok(SpecExpr::Grouping { expression: Box::new(e) }),
                    1 + d + 1,
                )
            } else {
                (
                    Result::Err(
                        perr_at(toks, i + 1 + d, ascii_bytes("Expect ')' after expression."@)),
                    ),
                    1 + d,
                )
            },
            Result::Err(e2) => (Result::Err(e2), 1 + d),
        }
    } else {
        (Result::Err(perr_at(toks, i, ascii_bytes("Expect expression."@))), 0)
    }
}

/// declaration -> funDecl | varDecl | statement
pub open spec fn p_declaration(toks: Seq<SpecToken>, i: nat) -> PStmt
    decreases rem(toks.len(), i), 40int,
{
    if kind_at(toks, i) is Fun {
        let (r, d) = p_function(toks, i + 1);
        (r, 1 + d)
    } else if kind_at(toks, i) is Var {
        let (r, d) = p_var_decl(toks, i + 1);
        (r, 1 + d)
    } else {
        p_statement(toks, i)
    }
}

/// statement -> exprStmt | forStmt | ifStmt | printStmt | returnStmt
///            | whileStmt | block
pub open spec fn p_statement(toks: Seq<SpecToken>, i: nat) -> PStmt
    decreases rem(toks.len(), i), 39int,
{
    if kind_at(toks, i) is For {
        let (r, d) = p_for(toks, i + 1);
        (r, 1 + d)
    } else if kind_at(toks, i) is If {
        let (r, d) = p_if(toks, i + 1);
        (r, 1 + d)
    } else if kind_at(toks, i) is Print {
        let (r, d) = p_print(toks, i + 1);
        (r, 1 + d)
    } else if kind_at(toks, i) is Return {
        let (r, d) = p_return(toks, i + 1, tok_at(toks, i));
        (r, 1 + d)
    } else if kind_at(toks, i) is While {
        let (r, d) = p_while(toks, i + 1);
        (r, 1 + d)
    } else if kind_at(toks, i) is LeftBrace {
        let (r, d) = p_block(toks, i + 1, Seq::empty());
        match r {
            Result::Ok(stmts) => (Result::Ok(SpecStmt::Block { statements: stmts }), 1 + d),
            Result::Err(e) => (Result::Err(e), 1 + d),
        }
    } else {
        p_expr_stmt(toks, i)
    }
}

/// block -> "{" declaration* "}" ; entered after the brace, collecting
/// statements until the closing brace.
pub open spec fn p_block(toks: Seq<SpecToken>, i: nat, acc: Seq<SpecStmt>) -> (Result<
    Seq<SpecStmt>,
    SpecErr,
>, nat)
    decreases rem(toks.len(), i), 45int,
{
    if kind_at(toks, i) is RightBrace {
        (Result::Ok(acc), 1)
    } else if kind_at(toks, i) is Eof {
        (Result::Err(perr_at(toks, i, ascii_bytes("Expect '}' after block."@))), 0)
    } else {
        let (r, d) = p_declaration(toks, i);
        match r {
            Result::Ok(st) => {
                let step: nat = if d == 0 {
                    1
                } else {
                    d
                };
                let (r2, d2) = p_block(toks, i + step, acc.push(st));
                (r2, step + d2)
            },
            Result::Err(e) => (Result::Err(e), d),
        }
    }
}

/// exprStmt -> expression ";"
pub open spec fn p_expr_stmt(toks: Seq<SpecToken>, i: nat) -> PStmt
    decreases rem(toks.len(), i), 31int,
{
    let (r, d) = p_expression(toks, i);
    match r {
        Result::Ok(e) => if kind_at(toks, i + d) is Semicolon {
            (Result::Ok(SpecStmt::Expression { expression: e }), d + 1)
        } else {
            (
                Result::Err(perr_at(toks, i + d, ascii_bytes("Expect ';' after expression."@))),
                d,
            )
        },
        Result::Err(e2) => (Result::Err(e2), d),
    }
}

/// printStmt -> "print" expression ";" ; entered after the keyword.
pub open spec fn p_print(toks: Seq<SpecToken>, i: nat) -> PStmt
    decreases rem(toks.len(), i), 31int,
{
    let (r, d) = p_expression(toks, i);
    match r {
        Result::Ok(e) => if kind_at(toks, i + d) is Semicolon {
            (Result::Ok(SpecStmt::Print { expression: e }), d + 1)
        } else {
            (Result::Err(perr_at(toks, i + d, ascii_bytes("Expect ';' after value."@))), d)
        },
        Result::Err(e2) => (Result::Err(e2), d),
    }
}

/// returnStmt -> "return" expression? ";" ; entered after the keyword.
pub open spec fn p_return(toks: Seq<SpecToken>, i: nat, kw: SpecToken) -> PStmt
    decreases rem(toks.len(), i), 31int,
{
    if kind_at(toks, i) is Semicolon {
        (Result::Ok(SpecStmt::Return { keyword: kw, value: Option::None }), 1)
    } else {
        let (r, d) = p_expression(toks, i);
        match r {
            Result::Ok(e) => if kind_at(toks, i + d) is Semicolon {
                (Result::Ok(SpecStmt::Return { keyword: kw, value: Option::Some(e) }), d + 1)
            } else {
                (
                    Result::Err(
                        perr_at(toks, i + d, ascii_bytes("Expect ';' after return value."@)),
                    ),
                    d,
                )
            },
            Result::Err(e2) => (Result::Err(e2), d),
        }
    }
}

/// varDecl -> "var" IDENTIFIER ( "=" expression )? ";" ; entered after the
/// keyword.
pub open spec fn p_var_decl(toks: Seq<SpecToken>, i: nat) -> PStmt
    decreases rem(toks.len(), i), 31int,
{
    if kind_at(toks, i) is Identifier {
        let name = tok_at(toks, i);
        if kind_at(toks, i + 1) is Equal {
            let (r, d) = p_expression(toks, i + 2);
            match r {
                Result::Ok(e) => if kind_at(toks, i + 2 + d) is Semicolon {
                    (
                        Result::Ok(SpecStmt::Var { name, initializer: Option::Some(e) }),
                        3 + d,
                    )
                } else {
                    (
                        Result::Err(
                            perr_at(
                                toks,
                                i + 2 + d,
                                ascii_bytes("Expect ';' after variable declaration."@),
                            ),
                        ),
                        2 + d,
                    )
                },
                Result::Err(e2) => (Result::Err(e2), 2 + d),
            }
        } else if kind_at(toks, i + 1) is Semicolon {
            (Result::Ok(SpecStmt::Var { name, initializer: Option::None }), 2)
        } else {
            (
                Result::Err(
                    perr_at(toks, i + 1, ascii_bytes("Expect ';' after variable declaration."@)),
                ),
                1,
            )
        }
    } else {
        (Result::Err(perr_at(toks, i, ascii_bytes("Expect variable name."@))), 0)
    }
}

/// whileStmt -> "while" "(" expression ")" statement ; entered after the
/// keyword.
pub open spec fn p_while(toks: Seq<SpecToken>, i: nat) -> PStmt
    decreases rem(toks.len(), i), 34int,
{
    if kind_at(toks, i) is LeftParen {
        let (r, d) = p_expression(toks, i + 1);
        match r {
            Result::Ok(c) => if kind_at(toks, i + 1 + d) is RightParen {
                let (rb, db) = p_statement(toks, i + 2 + d);
                match rb {
                    Result::Ok(b) => (
                        Result::Ok(SpecStmt::While { condition: c, body: Box::new(b) }),
                        2 + d + db,
                    ),
                    Result::Err(e2) => (Result::Err(e2), 2 + d + db),
                }
            } else {
                (
                    Result::Err(
                        perr_at(
                            toks,
                            i + 1 + d,
                            ascii_bytes("Expect ')' after while condition."@),
                        ),
                    ),
                    1 + d,
                )
            },
            Result::Err(e2) => (Result::Err(e2), 1 + d),
        }
    } else {
        (Result::Err(perr_at(toks, i, ascii_bytes("Expect '(' after while."@))), 0)
    }
}

/// ifStmt -> "if" "(" expression ")" statement ( "else" statement )? ;
/// entered after the keyword.
pub open spec fn p_if(toks: Seq<SpecToken>, i: nat) -> PStmt
    decreases rem(toks.len(), i), 33int,
{
    if kind_at(toks, i) is LeftParen {
        let (r, d) = p_expression(toks, i + 1);
        match r {
            Result::Ok(c) => if kind_at(toks, i + 1 + d) is RightParen {
                let (rt, dt) = p_statement(toks, i + 2 + d);
                match rt {
                    Result::Ok(t) => if kind_at(toks, i + 2 + d + dt) is Else {
                        let (re, de) = p_statement(toks, i + 2 + d + dt + 1);
                        match re {
                            Result::Ok(el) => (
                                Result::Ok(
                                    SpecStmt::If {
                                        condition: c,
                                        then_branch: Box::new(t),
                                        else_branch: Option::Some(Box::new(el)),
                                    },
                                ),
                                3 + d + dt + de,
                            ),
                            Result::Err(e2) => (Result::Err(e2), 3 + d + dt + de),
                        }
                    } else {
                        (
                            Result::Ok(
                                SpecStmt::If {
                                    condition: c,
                                    then_branch: Box::new(t),
                                    else_branch: Option::None,
                                },
                            ),
                            2 + d + dt,
                        )
                    },
                    Result::Err(e2) => (Result::Err(e2), 2 + d + dt),
                }
            } else {
                (
                    Result::Err(
                        perr_at(toks, i + 1 + d, ascii_bytes("Expect ')' after if condition."@)),
                    ),
                    1 + d,
                )
            },
            Result::Err(e2) => (Result::Err(e2), 1 + d),
        }
    } else {
        (Result::Err(perr_at(toks, i, ascii_bytes("Expect '(' after if."@))), 0)
    }
}

/// forStmt -> "for" "(" ( varDecl | exprStmt | ";" ) expression? ";"
/// expression? ")" statement , desugared to a while; entered after the
/// keyword.
pub open spec fn p_for(toks: Seq<SpecToken>, i: nat) -> PStmt
    decreases rem(toks.len(), i), 38int,
{
    if kind_at(toks, i) is LeftParen {
        let (rinit, dinit): (Result<Option<SpecStmt>, SpecErr>, nat) = if kind_at(toks, i + 1)
            is Semicolon {
            (Result::Ok(Option::None), 1nat)
        } else if kind_at(toks, i + 1) is Var {
            let (r, d) = p_var_decl(toks, i + 2);
            match r {
                Result::Ok(st) => (Result::Ok(Option::Some(st)), 1 + d),
                Result::Err(e) => (Result::Err(e), 1 + d),
            }
        } else {
            let (r, d) = p_expr_stmt(toks, i + 1);
            match r {
                Result::Ok(st) => (Result::Ok(Option::Some(st)), d),
                Result::Err(e) => (Result::Err(e), d),
            }
        };
        match rinit {
            Result::Ok(init) => {
                let j2 = i + 1 + dinit;
                let (rcond, dc): (Result<Option<SpecExpr>, SpecErr>, nat) = if !(kind_at(
                    toks,
                    j2,
                ) is Semicolon) {
                    let (r, d) = p_expression(toks, j2);
                    match r {
                        Result::Ok(e) => (Result::Ok(Option::Some(e)), d),
                        Result::Err(e2) => (Result::Err(e2), d),
                    }
                } else {
                    (Result::Ok(Option::None), 0nat)
                };
                match rcond {
                    Result::Ok(cond) => if kind_at(toks, j2 + dc) is Semicolon {
                        let j3 = j2 + dc + 1;
                        let (rinc, di): (Result<Option<SpecExpr>, SpecErr>, nat) = if !(kind_at(
                            toks,
                            j3,
                        ) is RightParen) {
                            let (r, d) = p_expression(toks, j3);
                            match r {
                                Result::Ok(e) => (Result::Ok(Option::Some(e)), d),
                                Result::Err(e2) => (Result::Err(e2), d),
                            }
                        } else {
                            (Result::Ok(Option::None), 0nat)
                        };
                        match rinc {
                            Result::Ok(inc) => if kind_at(toks, j3 + di) is RightParen {
                                let j4 = j3 + di + 1;
                                let (rb, db) = p_statement(toks, j4);
                                match rb {
                                    Result::Ok(body) => (
                                        Result::Ok(desugar_for(init, cond, inc, body)),
                                        (j4 + db - i) as nat,
                                    ),
                                    Result::Err(e2) => (Result::Err(e2), (j4 + db - i) as nat),
                                }
                            } else {
                                (
                                    Result::Err(
                                        perr_at(
                                            toks,
                                            j3 + di,
                                            ascii_bytes("Expect ')' after for clauses."@),
                                        ),
                                    ),
                                    (j3 + di - i) as nat,
                                )
                            },
                            Result::Err(e2) => (Result::Err(e2), (j3 + di - i) as nat),
                        }
                    } else {
                        (
                            Result::Err(
                                perr_at(
                                    toks,
                                    j2 + dc,
                                    ascii_bytes("Expect ';' after loop condition."@),
                                ),
                            ),
                            (j2 + dc - i) as nat,
                        )
                    },
                    Result::Err(e2) => (Result::Err(e2), (j2 + dc - i) as nat),
                }
            },
            Result::Err(e) => (Result::Err(e), 1 + dinit),
        }
    } else {
        (Result::Err(perr_at(toks, i, ascii_bytes("Expect '(' after for."@))), 0)
    }
}

/// parameters -> IDENTIFIER ( "," IDENTIFIER )* , capped at 255 names.
pub open spec fn p_params(toks: Seq<SpecToken>, i: nat, acc: Seq<Seq<u8>>) -> (Result<
    Seq<Seq<u8>>,
    SpecErr,
>, nat)
    decreases rem(toks.len(), i), 31int,
{
    if acc.len() >= 255 {
        (
            Result::Err(perr_at(toks, i, ascii_bytes("Can't have more than 255 parameters."@))),
            0,
        )
    } else if kind_at(toks, i) is Identifier {
        let p = tok_at(toks, i).lexeme;
        if kind_at(toks, i + 1) is Comma {
            let (r, d) = p_params(toks, i + 2, acc.push(p));
            (r, 2 + d)
        } else {
            (Result::Ok(acc.push(p)), 1)
        }
    } else {
        (Result::Err(perr_at(toks, i, ascii_bytes("Expect parameter name."@))), 0)
    }
}

/// funDecl -> "fun" IDENTIFIER "(" parameters? ")" block ; entered after
/// the keyword.
pub open spec fn p_function(toks: Seq<SpecToken>, i: nat) -> PStmt
    decreases rem(toks.len(), i), 32int,
{
    if kind_at(toks, i) is Identifier {
        let name = tok_at(toks, i);
        if kind_at(toks, i + 1) is LeftParen {
            let (rp, dp): (Result<Seq<Seq<u8>>, SpecErr>, nat) = if kind_at(toks, i + 2)
                is RightParen {
                (Result::Ok(Seq::empty()), 0nat)
            } else {
                p_params(toks, i + 2, Seq::empty())
            };
            match rp {
                Result::Ok(params) => if kind_at(toks, i + 2 + dp) is RightParen {
                    if kind_at(toks, i + 3 + dp) is LeftBrace {
                        let (rb, db) = p_block(toks, i + 4 + dp, Seq::empty());
                        match rb {
                            Result::Ok(body) => (
                                Result::Ok(SpecStmt::Function { name, params, body }),
                                4 + dp + db,
                            ),
                            Result::Err(e2) => (Result::Err(e2), 4 + dp + db),
                        }
                    } else {
                        (
                            Result::Err(
                                perr_at(
                                    toks,
                                    i + 3 + dp,
                                    ascii_bytes("Expect '{' before function body."@),
                                ),
                            ),
                            3 + dp,
                        )
                    }
                } else {
                    (
                        Result::Err(
                            perr_at(
                                toks,
                                i + 2 + dp,
                                ascii_bytes("Expect ')' after parameters."@),
                            ),
                        ),
                        2 + dp,
                    )
                },
                Result::Err(e2) => (Result::Err(e2), 2 + dp),
            }
        } else {
            (
                Result::Err(
                    perr_at(toks, i + 1, ascii_bytes("Expect '(' after function name."@)),
                ),
                1,
            )
        }
    } else {
        (Result::Err(perr_at(toks, i, ascii_bytes("Expect function name."@))), 0)
    }
}

/// The program loop: declarations until the end of input, with panic-mode
/// recovery. Each failed declaration contributes one error, parsing resumes
/// at the next safe point, and the trailing well-formed statements still
/// parse.
pub open spec fn p_program(toks: Seq<SpecToken>, i: nat, stmts: Seq<SpecStmt>, errs: Seq<SpecErr>)
    -> (Seq<SpecStmt>, Seq<SpecErr>)
    decreases rem(toks.len(), i), 46int,
{
    if kind_at(toks, i) is Eof {
        (stmts, errs)
    } else {
        let (r, d) = p_declaration(toks, i);
        match r {
            Result::Ok(st) => {
                let step: nat = if d == 0 {
                    1
                } else {
                    d
                };
                p_program(toks, i + step, stmts.push(st), errs)
            },
            Result::Err(e) => if kind_at(toks, i + d) is Eof {
                (stmts, errs.push(e))
            } else {
                p_program(toks, i + d + 1 + sync_len(toks, i + d + 1), stmts, errs.push(e))
            },
        }
    }
}

/// The whole parse: the statements of every well-formed declaration, and
/// one error per failed one, in source order.
pub open spec fn spec_parse(toks: Seq<SpecToken>) -> (Seq<SpecStmt>, Seq<SpecErr>) {
    p_program(toks, 0, Seq::empty(), Seq::empty())
}

/// A `for` with empty clauses desugars to exactly `while (true)` over the
/// same body: the two forms behave identically because they are the same
/// statement after parsing.
pub proof fn lemma_bare_for_is_while_true(body: SpecStmt)
    ensures
        desugar_for(Option::None, Option::None, Option::None, body) == (SpecStmt::While {
            condition: (SpecExpr::Literal { value: crate::ast::SpecLit::Bool(true) }),
            body: Box::new(body),
        }),
{
}

} // verus!

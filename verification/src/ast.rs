//! Abstract syntax: runtime values, function values, expressions and
//! statements, together with their mathematical images. The parser builds
//! these trees and the interpreter walks them.

use vstd::prelude::*;

use crate::token::{SpecToken, Token, TokenLit};

verus! {

/// A user function value: an immutable snapshot of the declared name, the
/// ordered parameter names, and the body statement list.
pub struct Function {
    pub name: Token,
    pub params: Vec<Vec<u8>>,
    pub body: Vec<Stmt>,
}

/// A runtime value: nil, a boolean, a number, a string, an identifier text,
/// or a function value.
pub enum Literal {
    Identifier(Vec<u8>),
    Fun(Box<Function>),
    Text(Vec<u8>),
    Number(i64),
    Nil,
    Bool(bool),
}

/// An expression node.
pub enum Expr {
    Literal { value: Literal },
    Variable { name: Token },
    Assign { name: Token, value: Box<Expr> },
    Logical { left: Box<Expr>, operator: Token, right: Box<Expr> },
    Unary { operator: Token, right: Box<Expr> },
    Binary { left: Box<Expr>, operator: Token, right: Box<Expr> },
    Call { callee: Box<Expr>, paren: Token, arguments: Vec<Expr> },
    Grouping { expression: Box<Expr> },
}

/// A statement node.
pub enum Stmt {
    Block { statements: Vec<Stmt> },
    Expression { expression: Expr },
    Function { name: Token, params: Vec<Vec<u8>>, body: Vec<Stmt> },
    If { condition: Expr, then_branch: Box<Stmt>, else_branch: Option<Box<Stmt>> },
    Print { expression: Expr },
    Return { keyword: Token, value: Option<Expr> },
    Var { name: Token, initializer: Option<Expr> },
    While { condition: Expr, body: Box<Stmt> },
}

/// Mathematical image of a function value.
#[verifier::ext_equal]
pub struct SpecFun {
    pub name: SpecToken,
    pub params: Seq<Seq<u8>>,
    pub body: Seq<SpecStmt>,
}

/// Mathematical image of a runtime value.
#[verifier::ext_equal]
pub enum SpecLit {
    Identifier(Seq<u8>),
    Fun(SpecFun),
    Text(Seq<u8>),
    Num(i64),
    Nil,
    Bool(bool),
}

/// Mathematical image of an expression.
#[verifier::ext_equal]
pub enum SpecExpr {
    Literal { value: SpecLit },
    Variable { name: SpecToken },
    Assign { name: SpecToken, value: Box<SpecExpr> },
    Logical { left: Box<SpecExpr>, operator: SpecToken, right: Box<SpecExpr> },
    Unary { operator: SpecToken, right: Box<SpecExpr> },
    Binary { left: Box<SpecExpr>, operator: SpecToken, right: Box<SpecExpr> },
    Call { callee: Box<SpecExpr>, paren: SpecToken, arguments: Seq<SpecExpr> },
    Grouping { expression: Box<SpecExpr> },
}

/// Mathematical image of a statement.
#[verifier::ext_equal]
pub enum SpecStmt {
    Block { statements: Seq<SpecStmt> },
    Expression { expression: SpecExpr },
    Function { name: SpecToken, params: Seq<Seq<u8>>, body: Seq<SpecStmt> },
    If { condition: SpecExpr, then_branch: Box<SpecStmt>, else_branch: Option<Box<SpecStmt>> },
    Print { expression: SpecExpr },
    Return { keyword: SpecToken, value: Option<SpecExpr> },
    Var { name: SpecToken, initializer: Option<SpecExpr> },
    While { condition: SpecExpr, body: Box<SpecStmt> },
}

/// Image of a list of parameter names.
pub open spec fn names_view(ns: Seq<Vec<u8>>) -> Seq<Seq<u8>> {
    Seq::new(ns.len(), |i: int| ns[i]@)
}

pub open spec fn lit_view(l: Literal) -> SpecLit
    decreases l,
{
    match l {
        Literal::Identifier(s) => SpecLit::Identifier(s@),
        Literal::Fun(f) => SpecLit::Fun(fun_view(*f)),
        Literal::Text(s) => SpecLit::Text(s@),
        Literal::Number(n) => SpecLit::Num(n),
        Literal::Nil => SpecLit::Nil,
        Literal::Bool(b) => SpecLit::Bool(b),
    }
}

pub open spec fn fun_view(f: Function) -> SpecFun
    decreases f,
{
    SpecFun { name: f.name@, params: names_view(f.params@), body: stmts_view(f.body@) }
}

pub open spec fn stmts_view(ss: Seq<Stmt>) -> Seq<SpecStmt>
    decreases ss,
{
    if ss.len() == 0 {
        Seq::empty()
    } else {
        stmts_view(ss.drop_last()).push(stmt_view(ss.last()))
    }
}

pub open spec fn exprs_view(es: Seq<Expr>) -> Seq<SpecExpr>
    decreases es,
{
    if es.len() == 0 {
        Seq::empty()
    } else {
        exprs_view(es.drop_last()).push(expr_view(es.last()))
    }
}

/// The image of a statement list has one image per statement, in order.
pub proof fn lemma_stmts_view(ss: Seq<Stmt>)
    ensures
        stmts_view(ss).len() == ss.len(),
        forall|i: int| 0 <= i < ss.len() ==> #[trigger] stmts_view(ss)[i] == stmt_view(ss[i]),
    decreases ss.len(),
{
    if ss.len() > 0 {
        lemma_stmts_view(ss.drop_last());
    }
}

/// The image of an expression list has one image per expression, in order.
pub proof fn lemma_exprs_view(es: Seq<Expr>)
    ensures
        exprs_view(es).len() == es.len(),
        forall|i: int| 0 <= i < es.len() ==> #[trigger] exprs_view(es)[i] == expr_view(es[i]),
    decreases es.len(),
{
    if es.len() > 0 {
        lemma_exprs_view(es.drop_last());
    }
}

pub open spec fn expr_view(e: Expr) -> SpecExpr
    decreases e,
{
    match e {
        Expr::Literal { value } => SpecExpr::Literal { value: lit_view(value) },
        Expr::Variable { name } => SpecExpr::Variable { name: name@ },
        Expr::Assign { name, value } => SpecExpr::Assign {
            name: name@,
            value: Box::new(expr_view(*value)),
        },
        Expr::Logical { left, operator, right } => SpecExpr::Logical {
            left: Box::new(expr_view(*left)),
            operator: operator@,
            right: Box::new(expr_view(*right)),
        },
        Expr::Unary { operator, right } => SpecExpr::Unary {
            operator: operator@,
            right: Box::new(expr_view(*right)),
        },
        Expr::Binary { left, operator, right } => SpecExpr::Binary {
            left: Box::new(expr_view(*left)),
            operator: operator@,
            right: Box::new(expr_view(*right)),
        },
        Expr::Call { callee, paren, arguments } => SpecExpr::Call {
            callee: Box::new(expr_view(*callee)),
            paren: paren@,
            arguments: exprs_view(arguments@),
        },
        Expr::Grouping { expression } => SpecExpr::Grouping {
            expression: Box::new(expr_view(*expression)),
        },
    }
}

pub open spec fn stmt_view(s: Stmt) -> SpecStmt
    decreases s,
{
    match s {
        Stmt::Block { statements } => SpecStmt::Block { statements: stmts_view(statements@) },
        Stmt::Expression { expression } => SpecStmt::Expression {
            expression: expr_view(expression),
        },
        Stmt::Function { name, params, body } => SpecStmt::Function {
            name: name@,
            params: names_view(params@),
            body: stmts_view(body@),
        },
        Stmt::If { condition, then_branch, else_branch } => SpecStmt::If {
            condition: expr_view(condition),
            then_branch: Box::new(stmt_view(*then_branch)),
            else_branch: match else_branch {
                Option::None => Option::None,
                Option::Some(b) => Option::Some(Box::new(stmt_view(*b))),
            },
        },
        Stmt::Print { expression } => SpecStmt::Print { expression: expr_view(expression) },
        Stmt::Return { keyword, value } => SpecStmt::Return {
            keyword: keyword@,
            value: match value {
                Option::None => Option::None,
                Option::Some(e) => Option::Some(expr_view(e)),
            },
        },
        Stmt::Var { name, initializer } => SpecStmt::Var {
            name: name@,
            initializer: match initializer {
                Option::None => Option::None,
                Option::Some(e) => Option::Some(expr_view(e)),
            },
        },
        Stmt::While { condition, body } => SpecStmt::While {
            condition: expr_view(condition),
            body: Box::new(stmt_view(*body)),
        },
    }
}

impl View for Literal {
    type V = SpecLit;

    open spec fn view(&self) -> SpecLit {
        lit_view(*self)
    }
}

/// A copy of a token.
pub fn clone_token(t: &Token) -> (r: Token)
    ensures
        r@ == t@,
{
    Token {
        token_type: t.token_type,
        lexeme: crate::value::clone_bytes(&t.lexeme),
        literal: match &t.literal {
            Option::None => Option::None,
            Option::Some(TokenLit::Num(n)) => Option::Some(TokenLit::Num(*n)),
            Option::Some(TokenLit::Text(s)) => Option::Some(
                TokenLit::Text(crate::value::clone_bytes(s)),
            ),
        },
        line: t.line,
        col: t.col,
    }
}

/// A copy of a list of names.
pub fn clone_names(ns: &Vec<Vec<u8>>) -> (r: Vec<Vec<u8>>)
    ensures
        names_view(r@) == names_view(ns@),
{
    let mut r: Vec<Vec<u8>> = Vec::new();
    let mut i: usize = 0;
    while i < ns.len()
        invariant
            i <= ns@.len(),
            r@.len() == i,
            forall|j: int| 0 <= j < i ==> #[trigger] r@[j]@ == ns@[j]@,
        decreases ns@.len() - i,
    {
        r.push(crate::value::clone_bytes(&ns[i]));
        i = i + 1;
    }
    proof {
        assert(names_view(r@) =~= names_view(ns@));
    }
    r
}

/// A copy of a runtime value.
pub fn clone_lit(l: &Literal) -> (r: Literal)
    ensures
        r@ == l@,
    decreases *l,
{
    match l {
        Literal::Identifier(s) => Literal::Identifier(crate::value::clone_bytes(s)),
        Literal::Fun(f) => Literal::Fun(Box::new(clone_fun(f))),
        Literal::Text(s) => Literal::Text(crate::value::clone_bytes(s)),
        Literal::Number(n) => Literal::Number(*n),
        Literal::Nil => Literal::Nil,
        Literal::Bool(b) => Literal::Bool(*b),
    }
}

/// A copy of a function value.
pub fn clone_fun(f: &Function) -> (r: Function)
    ensures
        r@ == f@,
    decreases *f,
{
    let r = Function {
        name: clone_token(&f.name),
        params: clone_names(&f.params),
        body: clone_stmts(&f.body),
    };
    proof {
        assert(r@ =~= f@);
    }
    r
}

/// A copy of a statement list.
pub fn clone_stmts(ss: &Vec<Stmt>) -> (r: Vec<Stmt>)
    ensures
        r@.len() == ss@.len(),
        forall|j: int| 0 <= j < ss@.len() ==> #[trigger] r@[j]@ == ss@[j]@,
        stmts_view(r@) == stmts_view(ss@),
    decreases ss@,
{
    let mut r: Vec<Stmt> = Vec::new();
    let mut i: usize = 0;
    while i < ss.len()
        invariant
            i <= ss@.len(),
            r@.len() == i,
            forall|j: int| 0 <= j < i ==> #[trigger] r@[j]@ == ss@[j]@,
        decreases ss@.len() - i,
    {
        proof {
            assert(decreases_to!(ss@ => ss@[i as int]));
        }
        r.push(clone_stmt(&ss[i]));
        i = i + 1;
    }
    proof {
        lemma_stmts_view(r@);
        lemma_stmts_view(ss@);
        assert forall|j: int| 0 <= j < ss@.len() implies stmts_view(r@)[j] == stmts_view(ss@)[j] by {
            assert(r@[j]@ == ss@[j]@);
        }
        assert(stmts_view(r@) =~= stmts_view(ss@));
    }
    r
}

/// A copy of an expression list.
pub fn clone_exprs(es: &Vec<Expr>) -> (r: Vec<Expr>)
    ensures
        r@.len() == es@.len(),
        forall|j: int| 0 <= j < es@.len() ==> #[trigger] r@[j]@ == es@[j]@,
        exprs_view(r@) == exprs_view(es@),
    decreases es@,
{
    let mut r: Vec<Expr> = Vec::new();
    let mut i: usize = 0;
    while i < es.len()
        invariant
            i <= es@.len(),
            r@.len() == i,
            forall|j: int| 0 <= j < i ==> #[trigger] r@[j]@ == es@[j]@,
        decreases es@.len() - i,
    {
        proof {
            assert(decreases_to!(es@ => es@[i as int]));
        }
        r.push(clone_expr(&es[i]));
        i = i + 1;
    }
    proof {
        lemma_exprs_view(r@);
        lemma_exprs_view(es@);
        assert forall|j: int| 0 <= j < es@.len() implies exprs_view(r@)[j] == exprs_view(es@)[j] by {
            assert(r@[j]@ == es@[j]@);
        }
        assert(exprs_view(r@) =~= exprs_view(es@));
    }
    r
}

/// A copy of an expression.
pub fn clone_expr(e: &Expr) -> (r: Expr)
    ensures
        r@ == e@,
    decreases *e,
{
    match e {
        Expr::Literal { value } => Expr::Literal { value: clone_lit(value) },
        Expr::Variable { name } => Expr::Variable { name: clone_token(name) },
        Expr::Assign { name, value } => Expr::Assign {
            name: clone_token(name),
            value: Box::new(clone_expr(value)),
        },
        Expr::Logical { left, operator, right } => Expr::Logical {
            left: Box::new(clone_expr(left)),
            operator: clone_token(operator),
            right: Box::new(clone_expr(right)),
        },
        Expr::Unary { operator, right } => Expr::Unary {
            operator: clone_token(operator),
            right: Box::new(clone_expr(right)),
        },
        Expr::Binary { left, operator, right } => Expr::Binary {
            left: Box::new(clone_expr(left)),
            operator: clone_token(operator),
            right: Box::new(clone_expr(right)),
        },
        Expr::Call { callee, paren, arguments } => Expr::Call {
            callee: Box::new(clone_expr(callee)),
            paren: clone_token(paren),
            arguments: clone_exprs(arguments),
        },
        Expr::Grouping { expression } => Expr::Grouping {
            expression: Box::new(clone_expr(expression)),
        },
    }
}

/// A copy of a statement.
pub fn clone_stmt(s: &Stmt) -> (r: Stmt)
    ensures
        r@ == s@,
    decreases *s,
{
    match s {
        Stmt::Block { statements } => Stmt::Block { statements: clone_stmts(statements) },
        Stmt::Expression { expression } => Stmt::Expression {
            expression: clone_expr(expression),
        },
        Stmt::Function { name, params, body } => Stmt::Function {
            name: clone_token(name),
            params: clone_names(params),
            body: clone_stmts(body),
        },
        Stmt::If { condition, then_branch, else_branch } => Stmt::If {
            condition: clone_expr(condition),
            then_branch: Box::new(clone_stmt(then_branch)),
            else_branch: match else_branch {
                Option::None => Option::None,
                Option::Some(b) => Option::Some(Box::new(clone_stmt(b))),
            },
        },
        Stmt::Print { expression } => Stmt::Print { expression: clone_expr(expression) },
        Stmt::Return { keyword, value } => Stmt::Return {
            keyword: clone_token(keyword),
            value: match value {
                Option::None => Option::None,
                Option::Some(e) => Option::Some(clone_expr(e)),
            },
        },
        Stmt::Var { name, initializer } => Stmt::Var {
            name: clone_token(name),
            initializer: match initializer {
                Option::None => Option::None,
                Option::Some(e) => Option::Some(clone_expr(e)),
            },
        },
        Stmt::While { condition, body } => Stmt::While {
            condition: clone_expr(condition),
            body: Box::new(clone_stmt(body)),
        },
    }
}

impl View for Function {
    type V = SpecFun;

    open spec fn view(&self) -> SpecFun {
        fun_view(*self)
    }
}

impl View for Expr {
    type V = SpecExpr;

    open spec fn view(&self) -> SpecExpr {
        expr_view(*self)
    }
}

impl View for Stmt {
    type V = SpecStmt;

    open spec fn view(&self) -> SpecStmt {
        stmt_view(*self)
    }
}

} // verus!

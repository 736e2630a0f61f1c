//! The language's semantics, as a definitional interpreter over the
//! mathematical images of statements and expressions. The executable
//! interpreter is proved to produce exactly these outcomes.
//!
//! Evaluation threads a state (the scope chain and the output text) and a
//! fuel budget. Fuel is spent only on loop iterations and function calls, so
//! a program that diverges is cut off with a budget error once the budget is
//! gone; the executable entry points pass the largest budget a machine word
//! holds.

use vstd::prelude::*;

use crate::ast::{SpecExpr, SpecFun, SpecLit, SpecStmt};
use crate::environment::{
    env_define, env_get, env_set, scope_lookup, SpecBinding,
};
use crate::error::{spec_err_from_token, SpecErr};
use crate::token::{SpecToken, TokenType};
use crate::value::{ascii_bytes, dec_nat, spec_lit_eq, spec_render_lit, spec_truthy};

verus! {

/// The state evaluation threads: the scope chain and the output text so far.
#[verifier::ext_equal]
pub struct SpecState {
    pub env: Seq<Seq<SpecBinding>>,
    pub out: Seq<u8>,
}

/// The outcome of evaluating an expression.
#[verifier::ext_equal]
pub enum EvalOut {
    Val { v: SpecLit, st: SpecState },
    Fail { e: SpecErr, st: SpecState },
}

/// The outcome of executing a statement: normal completion with the
/// statement's value, an early return unwinding outward, or an error.
#[verifier::ext_equal]
pub enum FlowOut {
    Normal { v: SpecLit, st: SpecState },
    Ret { v: SpecLit, st: SpecState },
    Fail { e: SpecErr, st: SpecState },
}

/// The outcome of evaluating an argument list.
#[verifier::ext_equal]
pub enum ArgsOut {
    Vals { vs: Seq<SpecLit>, st: SpecState },
    Fail { e: SpecErr, st: SpecState },
}

/// The error for an operand of the wrong runtime type.
pub open spec fn type_err(t: SpecToken) -> SpecErr {
    spec_err_from_token(t, ascii_bytes("Unexpected type of token."@))
}

/// The error for dividing by zero.
pub open spec fn div_zero_err(t: SpecToken) -> SpecErr {
    spec_err_from_token(t, ascii_bytes("Division by zero."@))
}

/// The error for an arithmetic result outside the number range.
pub open spec fn overflow_err(t: SpecToken) -> SpecErr {
    spec_err_from_token(t, ascii_bytes("Number overflow."@))
}

/// The error for calling a value that is not callable.
pub open spec fn not_callable_err(t: SpecToken) -> SpecErr {
    spec_err_from_token(t, ascii_bytes("Can only call functions and classes."@))
}

/// The message of the error for a call with the wrong argument count.
pub open spec fn arity_msg(want: nat, got: nat) -> Seq<u8> {
    ascii_bytes("Expected "@) + dec_nat(want) + ascii_bytes(" arguments but got "@) + dec_nat(got)
        + ascii_bytes("."@)
}

/// The error for a call with the wrong argument count.
pub open spec fn arity_err(t: SpecToken, want: nat, got: nat) -> SpecErr {
    spec_err_from_token(t, arity_msg(want, got))
}

/// The error for a program that exhausted its evaluation budget.
pub open spec fn budget_err() -> SpecErr {
    SpecErr {
        line: 0,
        col: 0,
        place: Seq::empty(),
        message: ascii_bytes("Out of execution budget."@),
    }
}

/// Magnitude of an integer.
pub open spec fn iabs(a: int) -> int {
    if a < 0 {
        -a
    } else {
        a
    }
}

/// Division truncated toward zero, as machine division behaves.
pub open spec fn tdiv(a: int, b: int) -> int {
    if (a < 0) != (b < 0) {
        -(iabs(a) / iabs(b))
    } else {
        iabs(a) / iabs(b)
    }
}

/// Whether an integer fits the number range.
pub open spec fn fits_i64(n: int) -> bool {
    i64::MIN <= n <= i64::MAX
}

/// Ordering on truthiness: `false` below `true`.
pub open spec fn bool_lt(a: bool, b: bool) -> bool {
    !a && b
}

/// The result of a binary operator on two values, or the error it raises.
/// Arithmetic needs numbers, except `+`, which also concatenates two
/// strings. Ordering comparisons order two numbers or two booleans; any
/// other pairing is ordered by truthiness. Equality is structural and never
/// fails.
pub open spec fn eval_binary(op: SpecToken, l: SpecLit, r: SpecLit) -> Result<SpecLit, SpecErr> {
    match op.kind {
        TokenType::Minus => match (l, r) {
            (SpecLit::Num(a), SpecLit::Num(b)) => if fits_i64(a - b) {
                Result::Ok(SpecLit::Num((a - b) as i64))
            } else {
                Result::Err(overflow_err(op))
            },
            _ => Result::Err(type_err(op)),
        },
        TokenType::Plus => match (l, r) {
            (SpecLit::Num(a), SpecLit::Num(b)) => if fits_i64(a + b) {
                Result::Ok(SpecLit::Num((a + b) as i64))
            } else {
                Result::Err(overflow_err(op))
            },
            (SpecLit::Text(a), SpecLit::Text(b)) => Result::Ok(SpecLit::Text(a + b)),
            _ => Result::Err(type_err(op)),
        },
        TokenType::Star => match (l, r) {
            (SpecLit::Num(a), SpecLit::Num(b)) => if fits_i64(a * b) {
                Result::Ok(SpecLit::Num((a * b) as i64))
            } else {
                Result::Err(overflow_err(op))
            },
            _ => Result::Err(type_err(op)),
        },
        TokenType::Slash => match (l, r) {
            (SpecLit::Num(a), SpecLit::Num(b)) => if b == 0 {
                Result::Err(div_zero_err(op))
            } else if !fits_i64(tdiv(a as int, b as int)) {
                Result::Err(overflow_err(op))
            } else {
                Result::Ok(SpecLit::Num(tdiv(a as int, b as int) as i64))
            },
            _ => Result::Err(type_err(op)),
        },
        TokenType::Greater => match (l, r) {
            (SpecLit::Num(a), SpecLit::Num(b)) => Result::Ok(SpecLit::Bool(a > b)),
            (SpecLit::Bool(a), SpecLit::Bool(b)) => Result::Ok(SpecLit::Bool(bool_lt(b, a))),
            (a, b) => Result::Ok(SpecLit::Bool(bool_lt(spec_truthy(b), spec_truthy(a)))),
        },
        TokenType::GreaterEqual => match (l, r) {
            (SpecLit::Num(a), SpecLit::Num(b)) => Result::Ok(SpecLit::Bool(a >= b)),
            (SpecLit::Bool(a), SpecLit::Bool(b)) => Result::Ok(SpecLit::Bool(!bool_lt(a, b))),
            (a, b) => Result::Ok(SpecLit::Bool(!bool_lt(spec_truthy(a), spec_truthy(b)))),
        },
        TokenType::Less => match (l, r) {
            (SpecLit::Num(a), SpecLit::Num(b)) => Result::Ok(SpecLit::Bool(a < b)),
            (SpecLit::Bool(a), SpecLit::Bool(b)) => Result::Ok(SpecLit::Bool(bool_lt(a, b))),
            (a, b) => Result::Ok(SpecLit::Bool(bool_lt(spec_truthy(a), spec_truthy(b)))),
        },
        TokenType::LessEqual => match (l, r) {
            (SpecLit::Num(a), SpecLit::Num(b)) => Result::Ok(SpecLit::Bool(a <= b)),
            (SpecLit::Bool(a), SpecLit::Bool(b)) => Result::Ok(SpecLit::Bool(!bool_lt(b, a))),
            (a, b) => Result::Ok(SpecLit::Bool(!bool_lt(spec_truthy(b), spec_truthy(a)))),
        },
        TokenType::BangEqual => Result::Ok(SpecLit::Bool(!spec_lit_eq(l, r))),
        TokenType::EqualEqual => Result::Ok(SpecLit::Bool(spec_lit_eq(l, r))),
        _ => Result::Err(type_err(op)),
    }
}

/// The result of a unary operator: `!` negates truthiness, `-` negates a
/// number.
pub open spec fn eval_unary(op: SpecToken, v: SpecLit) -> Result<SpecLit, SpecErr> {
    match op.kind {
        TokenType::Bang => Result::Ok(SpecLit::Bool(!spec_truthy(v))),
        TokenType::Minus => match v {
            SpecLit::Num(n) => if fits_i64(-(n as int)) {
                Result::Ok(SpecLit::Num((-(n as int)) as i64))
            } else {
                Result::Err(overflow_err(op))
            },
            _ => Result::Err(type_err(op)),
        },
        _ => Result::Err(type_err(op)),
    }
}

/// The scope a call opens: each parameter bound to its argument, in order.
pub open spec fn param_scope(params: Seq<Seq<u8>>, vs: Seq<SpecLit>) -> Seq<SpecBinding> {
    Seq::new(params.len(), |i: int| SpecBinding { name: params[i], value: vs[i] })
}

/// The outcome of evaluating an expression in a state with a fuel budget.
pub open spec fn eval_expr(e: SpecExpr, st: SpecState, fuel: nat) -> EvalOut
    decreases fuel, e, 0int,
{
    match e {
        SpecExpr::Literal { value } => EvalOut::Val { v: value, st },
        SpecExpr::Variable { name } => match env_get(st.env, name.lexeme) {
            Option::Some(v) => EvalOut::Val { v, st },
            Option::None => EvalOut::Fail {
                e: spec_err_from_token(name, crate::environment::undefined_var_msg(name.lexeme)),
                st,
            },
        },
        SpecExpr::Assign { name, value } => match eval_expr(*value, st, fuel) {
            EvalOut::Val { v, st: st1 } => match env_set(st1.env, name.lexeme, v) {
                Option::Some(env2) => EvalOut::Val {
                    v,
                    st: SpecState { env: env2, out: st1.out },
                },
                Option::None => EvalOut::Fail {
                    e: spec_err_from_token(
                        name,
                        crate::environment::undefined_var_msg(name.lexeme),
                    ),
                    st: st1,
                },
            },
            fail => fail,
        },
        SpecExpr::Logical { left, operator, right } => match eval_expr(*left, st, fuel) {
            EvalOut::Val { v: l, st: st1 } => if operator.kind is Or {
                if spec_truthy(l) {
                    EvalOut::Val { v: l, st: st1 }
                } else {
                    eval_expr(*right, st1, fuel)
                }
            } else if operator.kind is And {
                if !spec_truthy(l) {
                    EvalOut::Val { v: l, st: st1 }
                } else {
                    eval_expr(*right, st1, fuel)
                }
            } else {
                EvalOut::Fail { e: type_err(operator), st: st1 }
            },
            fail => fail,
        },
        SpecExpr::Unary { operator, right } => match eval_expr(*right, st, fuel) {
            EvalOut::Val { v, st: st1 } => match eval_unary(operator, v) {
                Result::Ok(r) => EvalOut::Val { v: r, st: st1 },
                Result::Err(err) => EvalOut::Fail { e: err, st: st1 },
            },
            fail => fail,
        },
        SpecExpr::Binary { left, operator, right } => match eval_expr(*left, st, fuel) {
            EvalOut::Val { v: l, st: st1 } => match eval_expr(*right, st1, fuel) {
                EvalOut::Val { v: r, st: st2 } => match eval_binary(operator, l, r) {
                    Result::Ok(v) => EvalOut::Val { v, st: st2 },
                    Result::Err(err) => EvalOut::Fail { e: err, st: st2 },
                },
                fail => fail,
            },
            fail => fail,
        },
        SpecExpr::Call { callee, paren, arguments } => match eval_expr(*callee, st, fuel) {
            EvalOut::Val { v: c, st: st1 } => match eval_args(arguments, st1, fuel) {
                ArgsOut::Vals { vs, st: st2 } => match c {
                    SpecLit::Fun(f) => if vs.len() != f.params.len() {
                        EvalOut::Fail { e: arity_err(paren, f.params.len(), vs.len()), st: st2 }
                    } else if fuel == 0 {
                        EvalOut::Fail { e: budget_err(), st: st2 }
                    } else {
                        call_fun(f, vs, st2, (fuel - 1) as nat)
                    },
                    _ => EvalOut::Fail { e: not_callable_err(paren), st: st2 },
                },
                ArgsOut::Fail { e, st: st2 } => EvalOut::Fail { e, st: st2 },
            },
            fail => fail,
        },
        SpecExpr::Grouping { expression } => eval_expr(*expression, st, fuel),
    }
}

/// The outcome of evaluating an argument list, left to right.
pub open spec fn eval_args(es: Seq<SpecExpr>, st: SpecState, fuel: nat) -> ArgsOut
    decreases fuel, es, 0int,
{
    if es.len() == 0 {
        ArgsOut::Vals { vs: Seq::empty(), st }
    } else {
        match eval_expr(es.first(), st, fuel) {
            EvalOut::Val { v, st: st1 } => match eval_args(es.drop_first(), st1, fuel) {
                ArgsOut::Vals { vs, st: st2 } => ArgsOut::Vals { vs: seq![v] + vs, st: st2 },
                fail => fail,
            },
            EvalOut::Fail { e, st: st1 } => ArgsOut::Fail { e, st: st1 },
        }
    }
}

/// The outcome of calling a function value: one fresh scope of the call-site
/// chain binds the parameters, the body runs as a block under it, and absent
/// an early return the call's value is nil.
pub open spec fn call_fun(f: SpecFun, vs: Seq<SpecLit>, st: SpecState, fuel: nat) -> EvalOut
    decreases fuel, f, 0int,
{
    let entry = SpecState { env: st.env.push(param_scope(f.params, vs)), out: st.out };
    match exec_block(f.body, entry, fuel) {
        FlowOut::Normal { v: _, st: st1 } => EvalOut::Val {
            v: SpecLit::Nil,
            st: SpecState { env: st1.env.drop_last(), out: st1.out },
        },
        FlowOut::Ret { v, st: st1 } => EvalOut::Val {
            v,
            st: SpecState { env: st1.env.drop_last(), out: st1.out },
        },
        FlowOut::Fail { e, st: st1 } => EvalOut::Fail {
            e,
            st: SpecState { env: st1.env.drop_last(), out: st1.out },
        },
    }
}

/// The outcome of running a statement list in a fresh scope that is
/// discarded afterwards, whatever the outcome: shadowed bindings never leak
/// outward.
pub open spec fn exec_block(ss: Seq<SpecStmt>, st: SpecState, fuel: nat) -> FlowOut
    decreases fuel, ss, 1int,
{
    let entry = SpecState { env: st.env.push(Seq::empty()), out: st.out };
    match exec_stmts(ss, entry, fuel) {
        FlowOut::Normal { v: _, st: st1 } => FlowOut::Normal {
            v: SpecLit::Nil,
            st: SpecState { env: st1.env.drop_last(), out: st1.out },
        },
        FlowOut::Ret { v, st: st1 } => FlowOut::Ret {
            v,
            st: SpecState { env: st1.env.drop_last(), out: st1.out },
        },
        FlowOut::Fail { e, st: st1 } => FlowOut::Fail {
            e,
            st: SpecState { env: st1.env.drop_last(), out: st1.out },
        },
    }
}

/// The outcome of running statements in order: the value of the last one,
/// with an early return or an error cutting the rest off.
pub open spec fn exec_stmts(ss: Seq<SpecStmt>, st: SpecState, fuel: nat) -> FlowOut
    decreases fuel, ss, 0int,
{
    if ss.len() == 0 {
        FlowOut::Normal { v: SpecLit::Nil, st }
    } else {
        match exec_stmt(ss.first(), st, fuel) {
            FlowOut::Normal { v, st: st1 } => if ss.len() == 1 {
                FlowOut::Normal { v, st: st1 }
            } else {
                exec_stmts(ss.drop_first(), st1, fuel)
            },
            other => other,
        }
    }
}

/// The outcome of executing one statement.
pub open spec fn exec_stmt(s: SpecStmt, st: SpecState, fuel: nat) -> FlowOut
    decreases fuel, s, 0int,
{
    match s {
        SpecStmt::Block { statements } => exec_block(statements, st, fuel),
        SpecStmt::Expression { expression } => match eval_expr(expression, st, fuel) {
            EvalOut::Val { v, st: st1 } => FlowOut::Normal { v, st: st1 },
            EvalOut::Fail { e, st: st1 } => FlowOut::Fail { e, st: st1 },
        },
        SpecStmt::Function { name, params, body } => FlowOut::Normal {
            v: SpecLit::Nil,
            st: SpecState {
                env: env_define(
                    st.env,
                    name.lexeme,
                    SpecLit::Fun(SpecFun { name, params, body }),
                ),
                out: st.out,
            },
        },
        SpecStmt::If { condition, then_branch, else_branch } => match eval_expr(
            condition,
            st,
            fuel,
        ) {
            EvalOut::Val { v, st: st1 } => if spec_truthy(v) {
                exec_stmt(*then_branch, st1, fuel)
            } else {
                match else_branch {
                    Option::Some(b) => exec_stmt(*b, st1, fuel),
                    Option::None => FlowOut::Normal { v: SpecLit::Nil, st: st1 },
                }
            },
            EvalOut::Fail { e, st: st1 } => FlowOut::Fail { e, st: st1 },
        },
        SpecStmt::Print { expression } => match eval_expr(expression, st, fuel) {
            EvalOut::Val { v, st: st1 } => FlowOut::Normal {
                v: SpecLit::Nil,
                st: SpecState {
                    env: st1.env,
                    out: st1.out + spec_render_lit(v) + seq![10u8],
                },
            },
            EvalOut::Fail { e, st: st1 } => FlowOut::Fail { e, st: st1 },
        },
        SpecStmt::Return { keyword: _, value } => match value {
            Option::Some(e) => match eval_expr(e, st, fuel) {
                EvalOut::Val { v, st: st1 } => FlowOut::Ret { v, st: st1 },
                EvalOut::Fail { e: err, st: st1 } => FlowOut::Fail { e: err, st: st1 },
            },
            Option::None => FlowOut::Ret { v: SpecLit::Nil, st },
        },
        SpecStmt::Var { name, initializer } => match initializer {
            Option::Some(e) => match eval_expr(e, st, fuel) {
                EvalOut::Val { v, st: st1 } => FlowOut::Normal {
                    v: SpecLit::Nil,
                    st: SpecState {
                        env: env_define(st1.env, name.lexeme, v),
                        out: st1.out,
                    },
                },
                EvalOut::Fail { e: err, st: st1 } => FlowOut::Fail { e: err, st: st1 },
            },
            Option::None => FlowOut::Normal {
                v: SpecLit::Nil,
                st: SpecState {
                    env: env_define(st.env, name.lexeme, SpecLit::Nil),
                    out: st.out,
                },
            },
        },
        SpecStmt::While { condition, body } => match eval_expr(condition, st, fuel) {
            EvalOut::Val { v, st: st1 } => if !spec_truthy(v) {
                FlowOut::Normal { v: SpecLit::Nil, st: st1 }
            } else {
                match exec_stmt(*body, st1, fuel) {
                    FlowOut::Normal { v: _, st: st2 } => if fuel == 0 {
                        FlowOut::Fail { e: budget_err(), st: st2 }
                    } else {
                        exec_stmt(s, st2, (fuel - 1) as nat)
                    },
                    other => other,
                }
            },
            EvalOut::Fail { e, st: st1 } => FlowOut::Fail { e, st: st1 },
        },
    }
}

/// Assignment never changes how many scopes the chain holds.
pub proof fn lemma_env_set_len(env: Seq<Seq<SpecBinding>>, name: Seq<u8>, v: SpecLit)
    ensures
        match env_set(env, name, v) {
            Option::Some(e) => e.len() == env.len(),
            Option::None => true,
        },
    decreases env.len(),
{
    if env.len() > 0 {
        lemma_env_set_len(env.drop_last(), name, v);
    }
}

/// The scope count an outcome carries.
pub open spec fn eval_out_depth(o: EvalOut) -> nat {
    match o {
        EvalOut::Val { st, .. } => st.env.len(),
        EvalOut::Fail { st, .. } => st.env.len(),
    }
}

/// The scope count a flow outcome carries.
pub open spec fn flow_out_depth(o: FlowOut) -> nat {
    match o {
        FlowOut::Normal { st, .. } => st.env.len(),
        FlowOut::Ret { st, .. } => st.env.len(),
        FlowOut::Fail { st, .. } => st.env.len(),
    }
}

/// The scope count an argument-list outcome carries.
pub open spec fn args_out_depth(o: ArgsOut) -> nat {
    match o {
        ArgsOut::Vals { st, .. } => st.env.len(),
        ArgsOut::Fail { st, .. } => st.env.len(),
    }
}

/// Evaluating an expression preserves the scope count.
pub proof fn lemma_eval_expr_depth(e: SpecExpr, st: SpecState, fuel: nat)
    requires
        st.env.len() >= 1,
    ensures
        eval_out_depth(eval_expr(e, st, fuel)) == st.env.len(),
    decreases fuel, e, 0int,
{
    match e {
        SpecExpr::Literal { .. } => {},
        SpecExpr::Variable { .. } => {},
        SpecExpr::Assign { name, value } => {
            lemma_eval_expr_depth(*value, st, fuel);
            match eval_expr(*value, st, fuel) {
                EvalOut::Val { v, st: st1 } => {
                    lemma_env_set_len(st1.env, name.lexeme, v);
                },
                _ => {},
            }
        },
        SpecExpr::Logical { left, operator: _, right } => {
            lemma_eval_expr_depth(*left, st, fuel);
            match eval_expr(*left, st, fuel) {
                EvalOut::Val { v: _, st: st1 } => {
                    lemma_eval_expr_depth(*right, st1, fuel);
                },
                _ => {},
            }
        },
        SpecExpr::Unary { operator: _, right } => {
            lemma_eval_expr_depth(*right, st, fuel);
        },
        SpecExpr::Binary { left, operator: _, right } => {
            lemma_eval_expr_depth(*left, st, fuel);
            match eval_expr(*left, st, fuel) {
                EvalOut::Val { v: _, st: st1 } => {
                    lemma_eval_expr_depth(*right, st1, fuel);
                },
                _ => {},
            }
        },
        SpecExpr::Call { callee, paren: _, arguments } => {
            lemma_eval_expr_depth(*callee, st, fuel);
            match eval_expr(*callee, st, fuel) {
                EvalOut::Val { v: c, st: st1 } => {
                    lemma_eval_args_depth(arguments, st1, fuel);
                    match eval_args(arguments, st1, fuel) {
                        ArgsOut::Vals { vs, st: st2 } => {
                            match c {
                                SpecLit::Fun(f) => {
                                    if vs.len() == f.params.len() && fuel > 0 {
                                        lemma_call_fun_depth(f, vs, st2, (fuel - 1) as nat);
                                    }
                                },
                                _ => {},
                            }
                        },
                        _ => {},
                    }
                },
                _ => {},
            }
        },
        SpecExpr::Grouping { expression } => {
            lemma_eval_expr_depth(*expression, st, fuel);
        },
    }
}

/// Evaluating an argument list preserves the scope count.
pub proof fn lemma_eval_args_depth(es: Seq<SpecExpr>, st: SpecState, fuel: nat)
    requires
        st.env.len() >= 1,
    ensures
        args_out_depth(eval_args(es, st, fuel)) == st.env.len(),
    decreases fuel, es, 0int,
{
    if es.len() > 0 {
        lemma_eval_expr_depth(es.first(), st, fuel);
        match eval_expr(es.first(), st, fuel) {
            EvalOut::Val { v: _, st: st1 } => {
                lemma_eval_args_depth(es.drop_first(), st1, fuel);
            },
            _ => {},
        }
    }
}

/// Calling a function value preserves the scope count of the call site.
pub proof fn lemma_call_fun_depth(f: SpecFun, vs: Seq<SpecLit>, st: SpecState, fuel: nat)
    requires
        st.env.len() >= 1,
    ensures
        eval_out_depth(call_fun(f, vs, st, fuel)) == st.env.len(),
    decreases fuel, f, 0int,
{
    let entry = SpecState { env: st.env.push(param_scope(f.params, vs)), out: st.out };
    lemma_exec_block_depth(f.body, entry, fuel);
}

/// A block preserves the scope count: the scope it opens is discarded on
/// every path out of it.
pub proof fn lemma_exec_block_depth(ss: Seq<SpecStmt>, st: SpecState, fuel: nat)
    requires
        st.env.len() >= 1,
    ensures
        flow_out_depth(exec_block(ss, st, fuel)) == st.env.len(),
    decreases fuel, ss, 1int,
{
    let entry = SpecState { env: st.env.push(Seq::empty()), out: st.out };
    lemma_exec_stmts_depth(ss, entry, fuel);
}

/// Running statements in order preserves the scope count.
pub proof fn lemma_exec_stmts_depth(ss: Seq<SpecStmt>, st: SpecState, fuel: nat)
    requires
        st.env.len() >= 1,
    ensures
        flow_out_depth(exec_stmts(ss, st, fuel)) == st.env.len(),
    decreases fuel, ss, 0int,
{
    if ss.len() > 0 {
        lemma_exec_stmt_depth(ss.first(), st, fuel);
        match exec_stmt(ss.first(), st, fuel) {
            FlowOut::Normal { v: _, st: st1 } => {
                if ss.len() > 1 {
                    lemma_exec_stmts_depth(ss.drop_first(), st1, fuel);
                }
            },
            _ => {},
        }
    }
}

/// Executing one statement preserves the scope count.
pub proof fn lemma_exec_stmt_depth(s: SpecStmt, st: SpecState, fuel: nat)
    requires
        st.env.len() >= 1,
    ensures
        flow_out_depth(exec_stmt(s, st, fuel)) == st.env.len(),
    decreases fuel, s, 0int,
{
    match s {
        SpecStmt::Block { statements } => {
            lemma_exec_block_depth(statements, st, fuel);
        },
        SpecStmt::Expression { expression } => {
            lemma_eval_expr_depth(expression, st, fuel);
        },
        SpecStmt::Function { .. } => {},
        SpecStmt::If { condition, then_branch, else_branch } => {
            lemma_eval_expr_depth(condition, st, fuel);
            match eval_expr(condition, st, fuel) {
                EvalOut::Val { v, st: st1 } => {
                    if spec_truthy(v) {
                        lemma_exec_stmt_depth(*then_branch, st1, fuel);
                    } else {
                        match else_branch {
                            Option::Some(b) => {
                                lemma_exec_stmt_depth(*b, st1, fuel);
                            },
                            Option::None => {},
                        }
                    }
                },
                _ => {},
            }
        },
        SpecStmt::Print { expression } => {
            lemma_eval_expr_depth(expression, st, fuel);
        },
        SpecStmt::Return { keyword: _, value } => {
            match value {
                Option::Some(e) => {
                    lemma_eval_expr_depth(e, st, fuel);
                },
                Option::None => {},
            }
        },
        SpecStmt::Var { name: _, initializer } => {
            match initializer {
                Option::Some(e) => {
                    lemma_eval_expr_depth(e, st, fuel);
                },
                Option::None => {},
            }
        },
        SpecStmt::While { condition, body } => {
            lemma_eval_expr_depth(condition, st, fuel);
            match eval_expr(condition, st, fuel) {
                EvalOut::Val { v, st: st1 } => {
                    if spec_truthy(v) {
                        lemma_exec_stmt_depth(*body, st1, fuel);
                        match exec_stmt(*body, st1, fuel) {
                            FlowOut::Normal { v: _, st: st2 } => {
                                if fuel > 0 {
                                    lemma_exec_stmt_depth(s, st2, (fuel - 1) as nat);
                                }
                            },
                            _ => {},
                        }
                    }
                },
                _ => {},
            }
        },
    }
}

/// One unfolding of the definition, for use outside this module.
pub proof fn lemma_eval_expr_unfold(e: SpecExpr, st: SpecState, fuel: nat)
    ensures
        eval_expr(e, st, fuel) == ({ match e {
        SpecExpr::Literal { value } => EvalOut::Val { v: value, st },
        SpecExpr::Variable { name } => match env_get(st.env, name.lexeme) {
            Option::Some(v) => EvalOut::Val { v, st },
            Option::None => EvalOut::Fail {
                e: spec_err_from_token(name, crate::environment::undefined_var_msg(name.lexeme)),
                st,
            },
        },
        SpecExpr::Assign { name, value } => match eval_expr(*value, st, fuel) {
            EvalOut::Val { v, st: st1 } => match env_set(st1.env, name.lexeme, v) {
                Option::Some(env2) => EvalOut::Val {
                    v,
                    st: SpecState { env: env2, out: st1.out },
                },
                Option::None => EvalOut::Fail {
                    e: spec_err_from_token(
                        name,
                        crate::environment::undefined_var_msg(name.lexeme),
                    ),
                    st: st1,
                },
            },
            fail => fail,
        },
        SpecExpr::Logical { left, operator, right } => match eval_expr(*left, st, fuel) {
            EvalOut::Val { v: l, st: st1 } => if operator.kind is Or {
                if spec_truthy(l) {
                    EvalOut::Val { v: l, st: st1 }
                } else {
                    eval_expr(*right, st1, fuel)
                }
            } else if operator.kind is And {
                if !spec_truthy(l) {
                    EvalOut::Val { v: l, st: st1 }
                } else {
                    eval_expr(*right, st1, fuel)
                }
            } else {
                EvalOut::Fail { e: type_err(operator), st: st1 }
            },
            fail => fail,
        },
        SpecExpr::Unary { operator, right } => match eval_expr(*right, st, fuel) {
            EvalOut::Val { v, st: st1 } => match eval_unary(operator, v) {
                Result::Ok(r) => EvalOut::Val { v: r, st: st1 },
                Result::Err(err) => EvalOut::Fail { e: err, st: st1 },
            },
            fail => fail,
        },
        SpecExpr::Binary { left, operator, right } => match eval_expr(*left, st, fuel) {
            EvalOut::Val { v: l, st: st1 } => match eval_expr(*right, st1, fuel) {
                EvalOut::Val { v: r, st: st2 } => match eval_binary(operator, l, r) {
                    Result::Ok(v) => EvalOut::Val { v, st: st2 },
                    Result::Err(err) => EvalOut::Fail { e: err, st: st2 },
                },
                fail => fail,
            },
            fail => fail,
        },
        SpecExpr::Call { callee, paren, arguments } => match eval_expr(*callee, st, fuel) {
            EvalOut::Val { v: c, st: st1 } => match eval_args(arguments, st1, fuel) {
                ArgsOut::Vals { vs, st: st2 } => match c {
                    SpecLit::Fun(f) => if vs.len() != f.params.len() {
                        EvalOut::Fail { e: arity_err(paren, f.params.len(), vs.len()), st: st2 }
                    } else if fuel == 0 {
                        EvalOut::Fail { e: budget_err(), st: st2 }
                    } else {
                        call_fun(f, vs, st2, (fuel - 1) as nat)
                    },
                    _ => EvalOut::Fail { e: not_callable_err(paren), st: st2 },
                },
                ArgsOut::Fail { e, st: st2 } => EvalOut::Fail { e, st: st2 },
            },
            fail => fail,
        },
        SpecExpr::Grouping { expression } => eval_expr(*expression, st, fuel),
    }
        }),
{
}

/// One unfolding of the definition, for use outside this module.
pub proof fn lemma_eval_args_unfold(es: Seq<SpecExpr>, st: SpecState, fuel: nat)
    ensures
        eval_args(es, st, fuel) == ({ if es.len() == 0 {
        ArgsOut::Vals { vs: Seq::empty(), st }
    } else {
        match eval_expr(es.first(), st, fuel) {
            EvalOut::Val { v, st: st1 } => match eval_args(es.drop_first(), st1, fuel) {
                ArgsOut::Vals { vs, st: st2 } => ArgsOut::Vals { vs: seq![v] + vs, st: st2 },
                fail => fail,
            },
            EvalOut::Fail { e, st: st1 } => ArgsOut::Fail { e, st: st1 },
        }
    }
        }),
{
}

/// One unfolding of the definition, for use outside this module.
pub proof fn lemma_call_fun_unfold(f: SpecFun, vs: Seq<SpecLit>, st: SpecState, fuel: nat)
    ensures
        call_fun(f, vs, st, fuel) == ({
    let entry = SpecState { env: st.env.push(param_scope(f.params, vs)), out: st.out };
    match exec_block(f.body, entry, fuel) {
        FlowOut::Normal { v: _, st: st1 } => EvalOut::Val {
            v: SpecLit::Nil,
            st: SpecState { env: st1.env.drop_last(), out: st1.out },
        },
        FlowOut::Ret { v, st: st1 } => EvalOut::Val {
            v,
            st: SpecState { env: st1.env.drop_last(), out: st1.out },
        },
        FlowOut::Fail { e, st: st1 } => EvalOut::Fail {
            e,
            st: SpecState { env: st1.env.drop_last(), out: st1.out },
        },
    }
        }),
{
}

/// One unfolding of the definition, for use outside this module.
pub proof fn lemma_exec_block_unfold(ss: Seq<SpecStmt>, st: SpecState, fuel: nat)
    ensures
        exec_block(ss, st, fuel) == ({
    let entry = SpecState { env: st.env.push(Seq::empty()), out: st.out };
    match exec_stmts(ss, entry, fuel) {
        FlowOut::Normal { v: _, st: st1 } => FlowOut::Normal {
            v: SpecLit::Nil,
            st: SpecState { env: st1.env.drop_last(), out: st1.out },
        },
        FlowOut::Ret { v, st: st1 } => FlowOut::Ret {
            v,
            st: SpecState { env: st1.env.drop_last(), out: st1.out },
        },
        FlowOut::Fail { e, st: st1 } => FlowOut::Fail {
            e,
            st: SpecState { env: st1.env.drop_last(), out: st1.out },
        },
    }
        }),
{
}

/// One unfolding of the definition, for use outside this module.
pub proof fn lemma_exec_stmts_unfold(ss: Seq<SpecStmt>, st: SpecState, fuel: nat)
    ensures
        exec_stmts(ss, st, fuel) == ({ if ss.len() == 0 {
        FlowOut::Normal { v: SpecLit::Nil, st }
    } else {
        match exec_stmt(ss.first(), st, fuel) {
            FlowOut::Normal { v, st: st1 } => if ss.len() == 1 {
                FlowOut::Normal { v, st: st1 }
            } else {
                exec_stmts(ss.drop_first(), st1, fuel)
            },
            other => other,
        }
    }
        }),
{
}

/// One unfolding of the definition, for use outside this module.
pub proof fn lemma_exec_stmt_unfold(s: SpecStmt, st: SpecState, fuel: nat)
    ensures
        exec_stmt(s, st, fuel) == ({ match s {
        SpecStmt::Block { statements } => exec_block(statements, st, fuel),
        SpecStmt::Expression { expression } => match eval_expr(expression, st, fuel) {
            EvalOut::Val { v, st: st1 } => FlowOut::Normal { v, st: st1 },
            EvalOut::Fail { e, st: st1 } => FlowOut::Fail { e, st: st1 },
        },
        SpecStmt::Function { name, params, body } => FlowOut::Normal {
            v: SpecLit::Nil,
            st: SpecState {
                env: env_define(
                    st.env,
                    name.lexeme,
                    SpecLit::Fun(SpecFun { name, params, body }),
                ),
                out: st.out,
            },
        },
        SpecStmt::If { condition, then_branch, else_branch } => match eval_expr(
            condition,
            st,
            fuel,
        ) {
            EvalOut::Val { v, st: st1 } => if spec_truthy(v) {
                exec_stmt(*then_branch, st1, fuel)
            } else {
                match else_branch {
                    Option::Some(b) => exec_stmt(*b, st1, fuel),
                    Option::None => FlowOut::Normal { v: SpecLit::Nil, st: st1 },
                }
            },
            EvalOut::Fail { e, st: st1 } => FlowOut::Fail { e, st: st1 },
        },
        SpecStmt::Print { expression } => match eval_expr(expression, st, fuel) {
            EvalOut::Val { v, st: st1 } => FlowOut::Normal {
                v: SpecLit::Nil,
                st: SpecState {
                    env: st1.env,
                    out: st1.out + spec_render_lit(v) + seq![10u8],
                },
            },
            EvalOut::Fail { e, st: st1 } => FlowOut::Fail { e, st: st1 },
        },
        SpecStmt::Return { keyword: _, value } => match value {
            Option::Some(e) => match eval_expr(e, st, fuel) {
                EvalOut::Val { v, st: st1 } => FlowOut::Ret { v, st: st1 },
                EvalOut::Fail { e: err, st: st1 } => FlowOut::Fail { e: err, st: st1 },
            },
            Option::None => FlowOut::Ret { v: SpecLit::Nil, st },
        },
        SpecStmt::Var { name, initializer } => match initializer {
            Option::Some(e) => match eval_expr(e, st, fuel) {
                EvalOut::Val { v, st: st1 } => FlowOut::Normal {
                    v: SpecLit::Nil,
                    st: SpecState {
                        env: env_define(st1.env, name.lexeme, v),
                        out: st1.out,
                    },
                },
                EvalOut::Fail { e: err, st: st1 } => FlowOut::Fail { e: err, st: st1 },
            },
            Option::None => FlowOut::Normal {
                v: SpecLit::Nil,
                st: SpecState {
                    env: env_define(st.env, name.lexeme, SpecLit::Nil),
                    out: st.out,
                },
            },
        },
        SpecStmt::While { condition, body } => match eval_expr(condition, st, fuel) {
            EvalOut::Val { v, st: st1 } => if !spec_truthy(v) {
                FlowOut::Normal { v: SpecLit::Nil, st: st1 }
            } else {
                match exec_stmt(*body, st1, fuel) {
                    FlowOut::Normal { v: _, st: st2 } => if fuel == 0 {
                        FlowOut::Fail { e: budget_err(), st: st2 }
                    } else {
                        exec_stmt(s, st2, (fuel - 1) as nat)
                    },
                    other => other,
                }
            },
            EvalOut::Fail { e, st: st1 } => FlowOut::Fail { e, st: st1 },
        },
    }
        }),
{
}

} // verus!

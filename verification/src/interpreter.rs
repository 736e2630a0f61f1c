//! The tree-walking evaluator: executes statements and expressions against
//! a scope chain, collecting printed output, and is proved to produce
//! exactly the outcomes of the definitional semantics.

use vstd::prelude::*;

use crate::ast::{
    clone_lit, clone_names, clone_stmts, clone_token, exprs_view, lemma_exprs_view,
    lemma_stmts_view, names_view, stmts_view, Expr, Function, Literal, SpecExpr, SpecFun,
    SpecLit, Stmt,
};
use crate::environment::Environment;
use crate::error::LoxError;
use crate::environment::SpecBinding;
use crate::semantics::{
    arity_err, arity_msg, budget_err, call_fun, div_zero_err, eval_args, eval_binary, eval_expr,
    eval_unary, exec_block, exec_stmt, exec_stmts, iabs, lemma_call_fun_unfold,
    lemma_eval_args_depth, lemma_eval_args_unfold, lemma_eval_expr_depth, lemma_eval_expr_unfold,
    lemma_exec_block_depth, lemma_exec_block_unfold, lemma_exec_stmt_depth,
    lemma_exec_stmt_unfold, lemma_exec_stmts_depth, lemma_exec_stmts_unfold, not_callable_err,
    overflow_err, param_scope, tdiv, type_err, ArgsOut, EvalOut, FlowOut, SpecState,
};
use crate::token::{Token, TokenType};
use crate::value::{spec_lit_eq, str_bytes};

verus! {

/// The error for an operand of the wrong runtime type.
fn type_error(t: &Token) -> (e: LoxError)
    ensures
        e@ == type_err(t@),
{
    LoxError::unexpected_type(t)
}

/// The error for dividing by zero.
fn div_zero_error(t: &Token) -> (e: LoxError)
    ensures
        e@ == div_zero_err(t@),
{
    proof {
        reveal_strlit("Division by zero.");
    }
    LoxError::from_token(t, str_bytes("Division by zero."))
}

/// The error for an arithmetic result outside the number range.
fn overflow_error(t: &Token) -> (e: LoxError)
    ensures
        e@ == overflow_err(t@),
{
    proof {
        reveal_strlit("Number overflow.");
    }
    LoxError::from_token(t, str_bytes("Number overflow."))
}

/// The error for calling a value that is not callable.
fn not_callable_error(t: &Token) -> (e: LoxError)
    ensures
        e@ == not_callable_err(t@),
{
    proof {
        reveal_strlit("Can only call functions and classes.");
    }
    LoxError::from_token(t, str_bytes("Can only call functions and classes."))
}

/// The error for a call with the wrong argument count.
fn arity_error(t: &Token, want: usize, got: usize) -> (e: LoxError)
    ensures
        e@ == arity_err(t@, want as nat, got as nat),
{
    proof {
        reveal_strlit("Expected ");
        reveal_strlit(" arguments but got ");
        reveal_strlit(".");
    }
    let mut message = str_bytes("Expected ");
    let mut part = crate::value::render_u64(want as u64);
    message.append(&mut part);
    let mut part = str_bytes(" arguments but got ");
    message.append(&mut part);
    let mut part = crate::value::render_u64(got as u64);
    message.append(&mut part);
    let mut part = str_bytes(".");
    message.append(&mut part);
    proof {
        assert(message@ =~= arity_msg(want as nat, got as nat));
    }
    LoxError::from_token(t, message)
}

/// The error for a program that exhausted its evaluation budget.
fn budget_error() -> (e: LoxError)
    ensures
        e@ == budget_err(),
{
    proof {
        reveal_strlit("Out of execution budget.");
    }
    let e = LoxError::new(0, 0, str_bytes("Out of execution budget."));
    proof {
        assert(e@ =~= budget_err());
    }
    e
}

/// Whether two values are structurally equal.
fn lits_equal(left: &Literal, right: &Literal) -> (r: bool)
    ensures
        r == spec_lit_eq(left@, right@),
{
    match (left, right) {
        (Literal::Identifier(a), Literal::Identifier(b)) => crate::value::bytes_eq(a, b),
        (Literal::Fun(a), Literal::Fun(b)) => crate::value::bytes_eq(
            &a.name.lexeme,
            &b.name.lexeme,
        ),
        (Literal::Text(a), Literal::Text(b)) => crate::value::bytes_eq(a, b),
        (Literal::Number(a), Literal::Number(b)) => *a == *b,
        (Literal::Nil, Literal::Nil) => true,
        (Literal::Bool(a), Literal::Bool(b)) => *a == *b,
        _ => false,
    }
}

/// Machine division truncated toward zero, avoiding the one overflowing
/// case.
fn div_trunc(a: i64, b: i64) -> (q: i64)
    requires
        b != 0,
        !(a == i64::MIN && b == -1),
    ensures
        q as int == tdiv(a as int, b as int),
{
    let ma: u64 = if a >= 0 {
        a as u64
    } else {
        ((-(a + 1)) as u64) + 1
    };
    let mb: u64 = if b >= 0 {
        b as u64
    } else {
        ((-(b + 1)) as u64) + 1
    };
    proof {
        assert(ma as int == iabs(a as int));
        assert(mb as int == iabs(b as int));
    }
    let q = ma / mb;
    proof {
        assert(q as int == iabs(a as int) / iabs(b as int));
        assert(q <= ma) by (nonlinear_arith)
            requires
                mb >= 1,
                q == ma / mb,
        ;
        if mb == 1 {
            assert(q == ma) by (nonlinear_arith)
                requires
                    mb == 1,
                    q == ma / mb,
            ;
        } else {
            assert(q <= ma / 2) by (nonlinear_arith)
                requires
                    mb >= 2,
                    q == ma / mb,
            ;
        }
    }
    if (a < 0) != (b < 0) {
        if q == 9223372036854775808u64 {
            i64::MIN
        } else {
            -(q as i64)
        }
    } else {
        q as i64
    }
}

/// The result of a binary operator on two evaluated operands.
fn apply_binary(op: &Token, l: Literal, r: Literal) -> (res: Result<Literal, LoxError>)
    ensures
        match res {
            Result::Ok(v) => eval_binary(op@, l@, r@) == Result::<SpecLit, crate::error::SpecErr>::Ok(v@),
            Result::Err(e) => eval_binary(op@, l@, r@) == Result::<SpecLit, crate::error::SpecErr>::Err(e@),
        },
{
    match op.token_type() {
        TokenType::Minus => match (&l, &r) {
            (Literal::Number(a), Literal::Number(b)) => match a.checked_sub(*b) {
                Option::Some(c) => Result::Ok(Literal::Number(c)),
                Option::None => Result::Err(overflow_error(op)),
            },
            _ => Result::Err(type_error(op)),
        },
        TokenType::Plus => match (&l, &r) {
            (Literal::Number(a), Literal::Number(b)) => match a.checked_add(*b) {
                Option::Some(c) => Result::Ok(Literal::Number(c)),
                Option::None => Result::Err(overflow_error(op)),
            },
            (Literal::Text(a), Literal::Text(b)) => {
                let mut s = crate::value::clone_bytes(a);
                let mut tail = crate::value::clone_bytes(b);
                s.append(&mut tail);
                Result::Ok(Literal::Text(s))
            },
            _ => Result::Err(type_error(op)),
        },
        TokenType::Star => match (&l, &r) {
            (Literal::Number(a), Literal::Number(b)) => match a.checked_mul(*b) {
                Option::Some(c) => Result::Ok(Literal::Number(c)),
                Option::None => Result::Err(overflow_error(op)),
            },
            _ => Result::Err(type_error(op)),
        },
        TokenType::Slash => match (&l, &r) {
            (Literal::Number(a), Literal::Number(b)) => {
                if *b == 0 {
                    Result::Err(div_zero_error(op))
                } else if *a == i64::MIN && *b == -1 {
                    Result::Err(overflow_error(op))
                } else {
                    Result::Ok(Literal::Number(div_trunc(*a, *b)))
                }
            },
            _ => Result::Err(type_error(op)),
        },
        TokenType::Greater => match (&l, &r) {
            (Literal::Number(a), Literal::Number(b)) => Result::Ok(Literal::Bool(*a > *b)),
            (Literal::Bool(a), Literal::Bool(b)) => Result::Ok(Literal::Bool(*a && !*b)),
            _ => Result::Ok(Literal::Bool(l.is_truthy() && !r.is_truthy())),
        },
        TokenType::GreaterEqual => match (&l, &r) {
            (Literal::Number(a), Literal::Number(b)) => Result::Ok(Literal::Bool(*a >= *b)),
            (Literal::Bool(a), Literal::Bool(b)) => Result::Ok(Literal::Bool(*a || !*b)),
            _ => Result::Ok(Literal::Bool(l.is_truthy() || !r.is_truthy())),
        },
        TokenType::Less => match (&l, &r) {
            (Literal::Number(a), Literal::Number(b)) => Result::Ok(Literal::Bool(*a < *b)),
            (Literal::Bool(a), Literal::Bool(b)) => Result::Ok(Literal::Bool(!*a && *b)),
            _ => Result::Ok(Literal::Bool(!l.is_truthy() && r.is_truthy())),
        },
        TokenType::LessEqual => match (&l, &r) {
            (Literal::Number(a), Literal::Number(b)) => Result::Ok(Literal::Bool(*a <= *b)),
            (Literal::Bool(a), Literal::Bool(b)) => Result::Ok(Literal::Bool(!*a || *b)),
            _ => Result::Ok(Literal::Bool(!l.is_truthy() || r.is_truthy())),
        },
        TokenType::BangEqual => Result::Ok(Literal::Bool(!lits_equal(&l, &r))),
        TokenType::EqualEqual => Result::Ok(Literal::Bool(lits_equal(&l, &r))),
        _ => Result::Err(type_error(op)),
    }
}

/// The result of a unary operator on an evaluated operand.
fn apply_unary(op: &Token, v: Literal) -> (res: Result<Literal, LoxError>)
    ensures
        match res {
            Result::Ok(r) => eval_unary(op@, v@) == Result::<SpecLit, crate::error::SpecErr>::Ok(r@),
            Result::Err(e) => eval_unary(op@, v@) == Result::<SpecLit, crate::error::SpecErr>::Err(e@),
        },
{
    match op.token_type() {
        TokenType::Bang => Result::Ok(Literal::Bool(!v.is_truthy())),
        TokenType::Minus => match &v {
            Literal::Number(n) => {
                if *n == i64::MIN {
                    Result::Err(overflow_error(op))
                } else {
                    Result::Ok(Literal::Number(-(*n)))
                }
            },
            _ => Result::Err(type_error(op)),
        },
        _ => Result::Err(type_error(op)),
    }
}

/// Image of an evaluated argument list.
pub open spec fn lit_views(vs: Seq<Literal>) -> Seq<SpecLit> {
    Seq::new(vs.len(), |i: int| vs[i]@)
}

/// Whether an executable evaluation result together with the final scope
/// chain and output realizes a semantic outcome.
pub open spec fn eval_matches(
    r: Result<Literal, LoxError>,
    o: EvalOut,
    env: Seq<Seq<SpecBinding>>,
    out: Seq<u8>,
) -> bool {
    match r {
        Result::Ok(v) => o == (EvalOut::Val { v: v@, st: SpecState { env, out } }),
        Result::Err(e) => o == (EvalOut::Fail { e: e@, st: SpecState { env, out } }),
    }
}

/// Control flow out of a statement: normal completion with the statement's
/// value, or an early return unwinding outward.
pub enum Flow {
    Normal(Literal),
    Ret(Literal),
}

/// Whether an executable statement result together with the final scope
/// chain and output realizes a semantic flow outcome.
pub open spec fn flow_matches(
    r: Result<Flow, LoxError>,
    o: FlowOut,
    env: Seq<Seq<SpecBinding>>,
    out: Seq<u8>,
) -> bool {
    match r {
        Result::Ok(Flow::Normal(v)) => o == (FlowOut::Normal {
            v: v@,
            st: SpecState { env, out },
        }),
        Result::Ok(Flow::Ret(v)) => o == (FlowOut::Ret { v: v@, st: SpecState { env, out } }),
        Result::Err(e) => o == (FlowOut::Fail { e: e@, st: SpecState { env, out } }),
    }
}

/// The scope chain a fresh run starts from: one empty scope.
pub open spec fn initial_env() -> Seq<Seq<SpecBinding>> {
    seq![Seq::empty()]
}

/// The evaluation budget the entry points allow: the largest a machine word
/// holds, spent one unit per loop iteration or call.
pub const EVAL_BUDGET: u64 = u64::MAX;

/// The tree-walking evaluator. It owns the output text printed so far;
/// the scope chain is passed alongside, so one session can span many runs.
pub struct Interpreter {
    pub out: Vec<u8>,
}

impl Interpreter {
    /// A fresh interpreter with no output.
    pub fn new() -> (it: Interpreter)
        ensures
            it.out@ == Seq::<u8>::empty(),
    {
        let it = Interpreter { out: Vec::new() };
        proof {
            assert(it.out@ =~= Seq::<u8>::empty());
        }
        it
    }

    /// Evaluates an expression: yields exactly the value or error of the
    /// semantics, leaving the scope chain and output in the state the
    /// semantics names.
    #[verifier::rlimit(100)]
    #[verifier::spinoff_prover]
    pub fn evaluate(&mut self, e: &Expr, env: &mut Environment, fuel: u64) -> (r: Result<
        Literal,
        LoxError,
    >)
        requires
            old(env)@.len() >= 1,
        ensures
            eval_matches(
                r,
                eval_expr(
                    e@,
                    SpecState { env: old(env)@, out: old(self).out@ },
                    fuel as nat,
                ),
                final(env)@,
                final(self).out@,
            ),
        decreases fuel, *e, 0int,
    {
        let ghost st0 = SpecState { env: env@, out: self.out@ };
        proof {
            lemma_eval_expr_unfold(e@, st0, fuel as nat);
        }
        match e {
            Expr::Literal { value } => Result::Ok(clone_lit(value)),
            Expr::Variable { name } => env.get_var(name),
            Expr::Assign { name, value } => {
                match self.evaluate(&**value, env, fuel) {
                    Result::Err(er) => Result::Err(er),
                    Result::Ok(v) => env.assign(name, v),
                }
            },
            Expr::Logical { left, operator, right } => {
                match self.evaluate(&**left, env, fuel) {
                Result::Err(er) => Result::Err(er),
                Result::Ok(l) => {
                    proof {
                        lemma_eval_expr_depth(left@, st0, fuel as nat);
                    }
                    match operator.token_type() {
                        TokenType::Or => {
                            if l.is_truthy() {
                                Result::Ok(l)
                            } else {
                                self.evaluate(&**right, env, fuel)
                            }
                        },
                        TokenType::And => {
                            if !l.is_truthy() {
                                Result::Ok(l)
                            } else {
                                self.evaluate(&**right, env, fuel)
                            }
                        },
                        _ => Result::Err(type_error(operator)),
                    }
                },
                }
            },
            Expr::Unary { operator, right } => {
                match self.evaluate(&**right, env, fuel) {
                    Result::Err(er) => Result::Err(er),
                    Result::Ok(v) => apply_unary(operator, v),
                }
            },
            Expr::Binary { left, operator, right } => {
                match self.evaluate(&**left, env, fuel) {
                Result::Err(er) => Result::Err(er),
                Result::Ok(l) => {
                    proof {
                        lemma_eval_expr_depth(left@, st0, fuel as nat);
                    }
                    match self.evaluate(&**right, env, fuel) {
                        Result::Err(er) => Result::Err(er),
                        Result::Ok(r) => apply_binary(operator, l, r),
                    }
                },
                }
            },
            Expr::Call { callee, paren, arguments } => {
                match self.evaluate(&**callee, env, fuel) {
                    Result::Err(er) => Result::Err(er),
                    Result::Ok(c) => {
                        proof {
                            lemma_eval_expr_depth(callee@, st0, fuel as nat);
                        }
                        let ghost cv = c@;
                        let ghost st1 = SpecState { env: env@, out: self.out@ };
                        proof {
                            assert(eval_expr(callee@, st0, fuel as nat) == (EvalOut::Val {
                                v: cv,
                                st: st1,
                            }));
                            lemma_exprs_view(arguments@);
                            assert(arguments@.subrange(0, arguments@.len() as int) =~= arguments@);
                            assert(decreases_to!(*e => arguments@));
                        }
                        match self.eval_arguments(arguments, 0, env, fuel) {
                            Result::Err(er) => {
                                proof {
                                    assert(exprs_view(arguments@).subrange(
                                        0,
                                        arguments@.len() as int,
                                    ) =~= exprs_view(arguments@));
                                }
                                Result::Err(er)
                            },
                            Result::Ok(args) => {
                                let ghost st2 = SpecState { env: env@, out: self.out@ };
                                proof {
                                    assert(exprs_view(arguments@).subrange(
                                        0,
                                        arguments@.len() as int,
                                    ) =~= exprs_view(arguments@));
                                    assert(eval_args(exprs_view(arguments@), st1, fuel as nat)
                                        == (ArgsOut::Vals { vs: lit_views(args@), st: st2 }));
                                    lemma_eval_args_depth(exprs_view(arguments@), st1, fuel as nat);
                                }
                                match c {
                                    Literal::Fun(f) => {
                                        if args.len() != f.params.len() {
                                            proof {
                                                assert(lit_views(args@).len() == args@.len());
                                            }
                                            Result::Err(
                                                arity_error(paren, f.params.len(), args.len()),
                                            )
                                        } else if fuel == 0 {
                                            Result::Err(budget_error())
                                        } else {
                                            self.call_function(&*f, args, env, fuel - 1)
                                        }
                                    },
                                    _ => Result::Err(not_callable_error(paren)),
                                }
                            },
                        }
                    },
                }
            },
            Expr::Grouping { expression } => self.evaluate(&**expression, env, fuel),
        }
    }

    /// Evaluates the arguments of a call from position `i` on, left to
    /// right.
    fn eval_arguments(&mut self, es: &Vec<Expr>, i: usize, env: &mut Environment, fuel: u64) -> (r:
        Result<Vec<Literal>, LoxError>)
        requires
            old(env)@.len() >= 1,
            i <= es@.len(),
        ensures
            ({
                let o = eval_args(
                    exprs_view(es@).subrange(i as int, es@.len() as int),
                    SpecState { env: old(env)@, out: old(self).out@ },
                    fuel as nat,
                );
                match r {
                    Result::Ok(vs) => o == (ArgsOut::Vals {
                        vs: lit_views(vs@),
                        st: SpecState { env: final(env)@, out: final(self).out@ },
                    }),
                    Result::Err(e) => o == (ArgsOut::Fail {
                        e: e@,
                        st: SpecState { env: final(env)@, out: final(self).out@ },
                    }),
                }
            }),
        decreases fuel, es@.subrange(i as int, es@.len() as int), 0int,
    {
        let ghost st0 = SpecState { env: env@, out: self.out@ };
        let ghost esub = es@.subrange(i as int, es@.len() as int);
        proof {
            lemma_exprs_view(es@);
        }
        let ghost sub = exprs_view(es@).subrange(i as int, es@.len() as int);
        proof {
            lemma_eval_args_unfold(sub, st0, fuel as nat);
        }
        if i == es.len() {
            proof {
                assert(sub =~= Seq::<crate::ast::SpecExpr>::empty());
            }
            let vs: Vec<Literal> = Vec::new();
            proof {
                assert(lit_views(vs@) =~= Seq::<SpecLit>::empty());
            }
            Result::Ok(vs)
        } else {
            proof {
                assert(sub[0] == es@[i as int]@);
                assert(esub[0] == es@[i as int]);
                assert(decreases_to!(esub => esub[0]));
            }
            match self.evaluate(&es[i], env, fuel) {
                Result::Err(er) => Result::Err(er),
                Result::Ok(v) => {
                    proof {
                        lemma_eval_expr_depth(es@[i as int]@, st0, fuel as nat);
                        assert(sub.drop_first() =~= exprs_view(es@).subrange(
                            i + 1,
                            es@.len() as int,
                        ));
                        assert(es@.subrange(i + 1, es@.len() as int) =~= esub.subrange(
                            1,
                            esub.len() as int,
                        ));
                        assert(decreases_to!(esub => esub.subrange(1, esub.len() as int)));
                    }
                    match self.eval_arguments(es, i + 1, env, fuel) {
                        Result::Err(er) => Result::Err(er),
                        Result::Ok(mut vs) => {
                            let ghost tail = vs@;
                            vs.insert(0, v);
                            proof {
                                assert(lit_views(vs@) =~= seq![v@] + lit_views(tail));
                            }
                            Result::Ok(vs)
                        },
                    }
                },
            }
        }
    }

    /// Calls a function value: one fresh scope of the call-site chain binds
    /// each parameter to its argument, the body runs as a block under it,
    /// and absent an early return the call's value is nil.
    #[verifier::rlimit(100)]
    fn call_function(
        &mut self,
        f: &Function,
        args: Vec<Literal>,
        env: &mut Environment,
        fuel: u64,
    ) -> (r: Result<Literal, LoxError>)
        requires
            old(env)@.len() >= 1,
            args@.len() == f.params@.len(),
        ensures
            eval_matches(
                r,
                call_fun(
                    f@,
                    lit_views(args@),
                    SpecState { env: old(env)@, out: old(self).out@ },
                    fuel as nat,
                ),
                final(env)@,
                final(self).out@,
            ),
        decreases fuel, *f, 0int,
    {
        let ghost st0 = SpecState { env: env@, out: self.out@ };
        proof {
            lemma_call_fun_unfold(f@, lit_views(args@), st0, fuel as nat);
        }
        env.push_scope();
        proof {
            assert(param_scope(
                names_view(f.params@).subrange(0, 0),
                lit_views(args@).subrange(0, 0),
            ) =~= Seq::<SpecBinding>::empty());
        }
        let mut i: usize = 0;
        while i < f.params.len()
            invariant
                i <= f.params@.len(),
                args@.len() == f.params@.len(),
                env@ == st0.env.push(
                    param_scope(
                        names_view(f.params@).subrange(0, i as int),
                        lit_views(args@).subrange(0, i as int),
                    ),
                ),
                self.out@ == st0.out,
            decreases f.params@.len() - i,
        {
            let ghost prev = env@;
            env.define(crate::value::clone_bytes(&f.params[i]), clone_lit(&args[i]));
            proof {
                assert(param_scope(
                    names_view(f.params@).subrange(0, i + 1),
                    lit_views(args@).subrange(0, i + 1),
                ) =~= param_scope(
                    names_view(f.params@).subrange(0, i as int),
                    lit_views(args@).subrange(0, i as int),
                ).push(SpecBinding { name: f.params@[i as int]@, value: args@[i as int]@ }));
                assert(env@ =~= st0.env.push(
                    param_scope(
                        names_view(f.params@).subrange(0, i + 1),
                        lit_views(args@).subrange(0, i + 1),
                    ),
                ));
            }
            i = i + 1;
        }
        proof {
            assert(names_view(f.params@).subrange(0, f.params@.len() as int) =~= names_view(
                f.params@,
            ));
            assert(lit_views(args@).subrange(0, args@.len() as int) =~= lit_views(args@));
            assert(env@ =~= st0.env.push(param_scope(names_view(f.params@), lit_views(args@))));
        }
        let ghost entry = SpecState { env: env@, out: self.out@ };
        proof {
            assert(decreases_to!(*f => f.body@));
        }
        let flow = self.execute_block(&f.body, env, fuel);
        proof {
            lemma_exec_block_depth(stmts_view(f.body@), entry, fuel as nat);
        }
        env.pop_scope();
        match flow {
            Result::Ok(Flow::Normal(_)) => Result::Ok(Literal::Nil),
            Result::Ok(Flow::Ret(v)) => Result::Ok(v),
            Result::Err(e) => Result::Err(e),
        }
    }

    /// Runs a statement list in a fresh scope that is discarded afterwards,
    /// whatever the outcome: shadowed bindings never leak outward.
    pub fn execute_block(&mut self, ss: &Vec<Stmt>, env: &mut Environment, fuel: u64) -> (r:
        Result<Flow, LoxError>)
        requires
            old(env)@.len() >= 1,
        ensures
            flow_matches(
                r,
                exec_block(
                    stmts_view(ss@),
                    SpecState { env: old(env)@, out: old(self).out@ },
                    fuel as nat,
                ),
                final(env)@,
                final(self).out@,
            ),
        decreases fuel, ss@, 1int,
    {
        let ghost st0 = SpecState { env: env@, out: self.out@ };
        proof {
            lemma_exec_block_unfold(stmts_view(ss@), st0, fuel as nat);
        }
        env.push_scope();
        let ghost entry = SpecState { env: env@, out: self.out@ };
        proof {
            lemma_stmts_view(ss@);
            assert(ss@.subrange(0, ss@.len() as int) =~= ss@);
            assert(stmts_view(ss@).subrange(0, ss@.len() as int) =~= stmts_view(ss@));
        }
        let flow = self.execute_stmts_from(ss, 0, env, fuel);
        proof {
            lemma_exec_stmts_depth(stmts_view(ss@), entry, fuel as nat);
        }
        env.pop_scope();
        match flow {
            Result::Ok(Flow::Normal(_)) => Result::Ok(Flow::Normal(Literal::Nil)),
            Result::Ok(Flow::Ret(v)) => Result::Ok(Flow::Ret(v)),
            Result::Err(e) => Result::Err(e),
        }
    }

    /// Runs the statements from position `i` on, in order, yielding the
    /// value of the last one; an early return or an error cuts the rest
    /// off.
    fn execute_stmts_from(&mut self, ss: &Vec<Stmt>, i: usize, env: &mut Environment, fuel: u64)
        -> (r: Result<Flow, LoxError>)
        requires
            old(env)@.len() >= 1,
            i <= ss@.len(),
        ensures
            flow_matches(
                r,
                exec_stmts(
                    stmts_view(ss@).subrange(i as int, ss@.len() as int),
                    SpecState { env: old(env)@, out: old(self).out@ },
                    fuel as nat,
                ),
                final(env)@,
                final(self).out@,
            ),
        decreases fuel, ss@.subrange(i as int, ss@.len() as int), 0int,
    {
        let ghost st0 = SpecState { env: env@, out: self.out@ };
        let ghost ssub = ss@.subrange(i as int, ss@.len() as int);
        proof {
            lemma_stmts_view(ss@);
        }
        let ghost sub = stmts_view(ss@).subrange(i as int, ss@.len() as int);
        proof {
            lemma_exec_stmts_unfold(sub, st0, fuel as nat);
        }
        if i == ss.len() {
            proof {
                assert(sub =~= Seq::<crate::ast::SpecStmt>::empty());
            }
            Result::Ok(Flow::Normal(Literal::Nil))
        } else {
            proof {
                assert(sub[0] == ss@[i as int]@);
                assert(ssub[0] == ss@[i as int]);
                assert(decreases_to!(ssub => ssub[0]));
            }
            match self.execute(&ss[i], env, fuel) {
                Result::Err(e) => Result::Err(e),
                Result::Ok(Flow::Ret(v)) => Result::Ok(Flow::Ret(v)),
                Result::Ok(Flow::Normal(v)) => {
                    if i + 1 == ss.len() {
                        Result::Ok(Flow::Normal(v))
                    } else {
                        proof {
                            lemma_exec_stmt_depth(ss@[i as int]@, st0, fuel as nat);
                            assert(sub.drop_first() =~= stmts_view(ss@).subrange(
                                i + 1,
                                ss@.len() as int,
                            ));
                            assert(ss@.subrange(i + 1, ss@.len() as int) =~= ssub.subrange(
                                1,
                                ssub.len() as int,
                            ));
                            assert(decreases_to!(ssub => ssub.subrange(1, ssub.len() as int)));
                        }
                        self.execute_stmts_from(ss, i + 1, env, fuel)
                    }
                },
            }
        }
    }

    /// Executes one statement: yields exactly the flow outcome of the
    /// semantics.
    pub fn execute(&mut self, s: &Stmt, env: &mut Environment, fuel: u64) -> (r: Result<
        Flow,
        LoxError,
    >)
        requires
            old(env)@.len() >= 1,
        ensures
            flow_matches(
                r,
                exec_stmt(
                    s@,
                    SpecState { env: old(env)@, out: old(self).out@ },
                    fuel as nat,
                ),
                final(env)@,
                final(self).out@,
            ),
        decreases fuel, *s, 0int,
    {
        let ghost st0 = SpecState { env: env@, out: self.out@ };
        proof {
            lemma_exec_stmt_unfold(s@, st0, fuel as nat);
        }
        match s {
            Stmt::Block { statements } => self.execute_block(statements, env, fuel),
            Stmt::Expression { expression } => match self.evaluate(expression, env, fuel) {
                Result::Err(e) => Result::Err(e),
                Result::Ok(v) => Result::Ok(Flow::Normal(v)),
            },
            Stmt::Function { name, params, body } => {
                let fun = Function {
                    name: clone_token(name),
                    params: clone_names(params),
                    body: clone_stmts(body),
                };
                proof {
                    assert(fun@ =~= (SpecFun {
                        name: name@,
                        params: names_view(params@),
                        body: stmts_view(body@),
                    }));
                }
                env.define(crate::value::clone_bytes(&name.lexeme), Literal::Fun(Box::new(fun)));
                Result::Ok(Flow::Normal(Literal::Nil))
            },
            Stmt::If { condition, then_branch, else_branch } => match self.evaluate(
                condition,
                env,
                fuel,
            ) {
                Result::Err(e) => Result::Err(e),
                Result::Ok(c) => {
                    proof {
                        lemma_eval_expr_depth(condition@, st0, fuel as nat);
                    }
                    if c.is_truthy() {
                        self.execute(&**then_branch, env, fuel)
                    } else {
                        match else_branch {
                            Option::Some(b) => self.execute(&**b, env, fuel),
                            Option::None => Result::Ok(Flow::Normal(Literal::Nil)),
                        }
                    }
                },
            },
            Stmt::Print { expression } => match self.evaluate(expression, env, fuel) {
                Result::Err(e) => Result::Err(e),
                Result::Ok(v) => {
                    let ghost mid = self.out@;
                    let mut text = v.render();
                    self.out.append(&mut text);
                    self.out.push(10);
                    proof {
                        assert(self.out@ =~= mid + crate::value::spec_render_lit(v@) + seq![
                            10u8,
                        ]);
                    }
                    Result::Ok(Flow::Normal(Literal::Nil))
                },
            },
            Stmt::Return { keyword: _, value } => match value {
                Option::Some(ex) => match self.evaluate(ex, env, fuel) {
                    Result::Err(e) => Result::Err(e),
                    Result::Ok(v) => Result::Ok(Flow::Ret(v)),
                },
                Option::None => Result::Ok(Flow::Ret(Literal::Nil)),
            },
            Stmt::Var { name, initializer } => match initializer {
                Option::Some(ex) => match self.evaluate(ex, env, fuel) {
                    Result::Err(e) => Result::Err(e),
                    Result::Ok(v) => {
                        proof {
                            lemma_eval_expr_depth(ex@, st0, fuel as nat);
                        }
                        env.define(crate::value::clone_bytes(&name.lexeme), v);
                        Result::Ok(Flow::Normal(Literal::Nil))
                    },
                },
                Option::None => {
                    env.define(crate::value::clone_bytes(&name.lexeme), Literal::Nil);
                    Result::Ok(Flow::Normal(Literal::Nil))
                },
            },
            Stmt::While { condition, body } => match self.evaluate(condition, env, fuel) {
                Result::Err(e) => Result::Err(e),
                Result::Ok(c) => {
                    if !c.is_truthy() {
                        Result::Ok(Flow::Normal(Literal::Nil))
                    } else {
                        proof {
                            lemma_eval_expr_depth(condition@, st0, fuel as nat);
                        }
                        let ghost st1 = SpecState { env: env@, out: self.out@ };
                        match self.execute(&**body, env, fuel) {
                            Result::Err(e) => Result::Err(e),
                            Result::Ok(Flow::Ret(v)) => Result::Ok(Flow::Ret(v)),
                            Result::Ok(Flow::Normal(_)) => {
                                if fuel == 0 {
                                    Result::Err(budget_error())
                                } else {
                                    proof {
                                        lemma_exec_stmt_depth(body@, st1, fuel as nat);
                                    }
                                    self.execute(s, env, fuel - 1)
                                }
                            },
                        }
                    }
                },
            },
        }
    }

    /// Runs a whole statement list against a caller-owned scope chain; the
    /// value of the last statement comes back, a top-level `return` ends
    /// the run with its value, and printed output accumulates in the
    /// interpreter.
    pub fn interpret_with_env(
        &mut self,
        statements: &Vec<Stmt>,
        env: &mut Environment,
        fuel: u64,
    ) -> (r: Result<Literal, LoxError>)
        requires
            old(env)@.len() >= 1,
        ensures
            ({
                let o = exec_stmts(
                    stmts_view(statements@),
                    SpecState { env: old(env)@, out: old(self).out@ },
                    fuel as nat,
                );
                match r {
                    Result::Ok(v) => o == (FlowOut::Normal {
                        v: v@,
                        st: SpecState { env: final(env)@, out: final(self).out@ },
                    }) || o == (FlowOut::Ret {
                        v: v@,
                        st: SpecState { env: final(env)@, out: final(self).out@ },
                    }),
                    Result::Err(e) => o == (FlowOut::Fail {
                        e: e@,
                        st: SpecState { env: final(env)@, out: final(self).out@ },
                    }),
                }
            }),
    {
        proof {
            lemma_stmts_view(statements@);
            assert(stmts_view(statements@).subrange(0, statements@.len() as int) =~= stmts_view(
                statements@,
            ));
        }
        match self.execute_stmts_from(statements, 0, env, fuel) {
            Result::Ok(Flow::Normal(v)) => Result::Ok(v),
            Result::Ok(Flow::Ret(v)) => Result::Ok(v),
            Result::Err(e) => Result::Err(e),
        }
    }

    /// Runs a whole statement list against a fresh scope chain with the
    /// full evaluation budget.
    pub fn interpret(&mut self, statements: &Vec<Stmt>) -> (r: Result<Literal, LoxError>)
        ensures
            ({
                let o = exec_stmts(
                    stmts_view(statements@),
                    SpecState { env: initial_env(), out: old(self).out@ },
                    EVAL_BUDGET as nat,
                );
                match r {
                    Result::Ok(v) => (o matches FlowOut::Normal { v: vv, st } && vv == v@ && st.out
                        == final(self).out@) || (o matches FlowOut::Ret { v: vv, st } && vv == v@
                        && st.out == final(self).out@),
                    Result::Err(e) => o matches FlowOut::Fail { e: ee, st } && ee == e@ && st.out
                        == final(self).out@,
                }
            }),
    {
        let mut env = Environment::new();
        proof {
            assert(env@ =~= initial_env());
        }
        self.interpret_with_env(statements, &mut env, EVAL_BUDGET)
    }
}

} // verus!

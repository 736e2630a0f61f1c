use rlox::ast::{Expr, Literal, Stmt};
use rlox::environment::Environment;
use rlox::error::LoxError;
use rlox::interpreter::Interpreter;
use rlox::token::{Token, TokenType};

fn ident(name: &str) -> Token {
    Token::new(TokenType::Identifier, name.as_bytes().to_vec(), None, 1, 1)
}

fn num(n: i64) -> Expr {
    Expr::Literal { value: Literal::Number(n) }
}

#[test]
fn nil_and_false_are_falsy() {
    assert!(!Literal::Nil.is_truthy());
    assert!(!Literal::Bool(false).is_truthy());
}

#[test]
fn zero_and_empty_text_are_truthy() {
    assert!(Literal::Number(0).is_truthy());
    assert!(Literal::Text(Vec::new()).is_truthy());
}

#[test]
fn renders_numbers() {
    assert_eq!(Literal::Number(-42).render(), b"-42".to_vec());
    assert_eq!(Literal::Number(0).render(), b"0".to_vec());
}

#[test]
fn error_text_format() {
    let e = LoxError::with_place(3, 7, b"at 'x'".to_vec(), b"Oops.".to_vec());
    assert_eq!(e.render(), b"[line 3, col 7] Error at 'x': Oops.".to_vec());
}

#[test]
fn inner_shadow_does_not_leak() {
    let mut env = Environment::new();
    env.define(b"x".to_vec(), Literal::Number(1));
    env.push_scope();
    env.define(b"x".to_vec(), Literal::Number(2));
    env.pop_scope();
    match env.get_var(&ident("x")) {
        Ok(Literal::Number(n)) => assert_eq!(n, 1),
        _ => panic!("expected the outer binding"),
    }
}

#[test]
fn assign_mutates_enclosing_scope() {
    let mut env = Environment::new();
    env.define(b"x".to_vec(), Literal::Number(1));
    env.push_scope();
    assert!(env.assign(&ident("x"), Literal::Number(5)).is_ok());
    env.pop_scope();
    match env.get_var(&ident("x")) {
        Ok(Literal::Number(n)) => assert_eq!(n, 5),
        _ => panic!("expected the assigned value"),
    }
}

#[test]
fn assign_to_undeclared_name_is_error() {
    let mut env = Environment::new();
    let r = env.assign(&ident("y"), Literal::Nil);
    match r {
        Err(e) => assert_eq!(e.message, b"Undefined variable 'y'.".to_vec()),
        Ok(_) => panic!("expected an undefined-variable error"),
    }
}

#[test]
fn and_short_circuits_on_falsy_left() {
    let and_tok = Token::new(TokenType::And, b"and".to_vec(), None, 1, 1);
    let slash = Token::new(TokenType::Slash, b"/".to_vec(), None, 1, 1);
    let div = Expr::Binary {
        left: Box::new(num(1)),
        operator: slash,
        right: Box::new(num(0)),
    };
    let e = Expr::Logical {
        left: Box::new(Expr::Literal { value: Literal::Bool(false) }),
        operator: and_tok,
        right: Box::new(div),
    };
    let mut it = Interpreter::new();
    let mut env = Environment::new();
    match it.evaluate(&e, &mut env, 1000) {
        Ok(Literal::Bool(b)) => assert!(!b),
        _ => panic!("expected the left operand back, uncoerced"),
    }
}

#[test]
fn division_by_zero_is_error() {
    let slash = Token::new(TokenType::Slash, b"/".to_vec(), None, 1, 1);
    let e = Expr::Binary {
        left: Box::new(num(1)),
        operator: slash,
        right: Box::new(num(0)),
    };
    let mut it = Interpreter::new();
    let mut env = Environment::new();
    match it.evaluate(&e, &mut env, 1000) {
        Err(er) => assert_eq!(er.message, b"Division by zero.".to_vec()),
        Ok(_) => panic!("expected a division error"),
    }
}

#[test]
fn string_concatenation() {
    let plus = Token::new(TokenType::Plus, b"+".to_vec(), None, 1, 1);
    let e = Expr::Binary {
        left: Box::new(Expr::Literal { value: Literal::Text(b"a".to_vec()) }),
        operator: plus,
        right: Box::new(Expr::Literal { value: Literal::Text(b"b".to_vec()) }),
    };
    let mut it = Interpreter::new();
    let mut env = Environment::new();
    match it.evaluate(&e, &mut env, 1000) {
        Ok(Literal::Text(s)) => assert_eq!(s, b"ab".to_vec()),
        _ => panic!("expected concatenation"),
    }
}

#[test]
fn number_plus_string_is_type_error() {
    let plus = Token::new(TokenType::Plus, b"+".to_vec(), None, 1, 1);
    let e = Expr::Binary {
        left: Box::new(num(1)),
        operator: plus,
        right: Box::new(Expr::Literal { value: Literal::Text(b"b".to_vec()) }),
    };
    let mut it = Interpreter::new();
    let mut env = Environment::new();
    match it.evaluate(&e, &mut env, 1000) {
        Err(er) => assert_eq!(er.message, b"Unexpected type of token.".to_vec()),
        Ok(_) => panic!("expected a type error"),
    }
}

#[test]
fn precedence_shaped_tree_evaluates() {
    let plus = Token::new(TokenType::Plus, b"+".to_vec(), None, 1, 1);
    let star = Token::new(TokenType::Star, b"*".to_vec(), None, 1, 1);
    let e = Expr::Binary {
        left: Box::new(num(1)),
        operator: plus,
        right: Box::new(Expr::Binary {
            left: Box::new(num(2)),
            operator: star,
            right: Box::new(num(3)),
        }),
    };
    let mut it = Interpreter::new();
    let mut env = Environment::new();
    match it.evaluate(&e, &mut env, 1000) {
        Ok(Literal::Number(n)) => assert_eq!(n, 7),
        _ => panic!("expected 7"),
    }
}

#[test]
fn print_appends_rendered_value_and_newline() {
    let s = Stmt::Print { expression: num(7) };
    let mut it = Interpreter::new();
    let mut env = Environment::new();
    let r = it.execute(&s, &mut env, 10);
    assert!(r.is_ok());
    assert_eq!(it.out, b"7\n".to_vec());
}

#[test]
fn block_shadowing_scenario() {
    // { var x = 1; { var x = 2; } print x; } prints 1.
    let inner = Stmt::Block {
        statements: vec![Stmt::Var { name: ident("x"), initializer: Some(num(2)) }],
    };
    let prog = Stmt::Block {
        statements: vec![
            Stmt::Var { name: ident("x"), initializer: Some(num(1)) },
            inner,
            Stmt::Print { expression: Expr::Variable { name: ident("x") } },
        ],
    };
    let mut it = Interpreter::new();
    let mut env = Environment::new();
    let statements = vec![prog];
    assert!(it.interpret_with_env(&statements, &mut env, 1000).is_ok());
    assert_eq!(it.out, b"1\n".to_vec());
}

#[test]
fn session_keeps_bindings_between_runs() {
    // var x = 1; on one run, then x; on the next returns 1.
    let mut it = Interpreter::new();
    let mut env = Environment::new();
    let first = vec![Stmt::Var { name: ident("x"), initializer: Some(num(1)) }];
    assert!(it.interpret_with_env(&first, &mut env, 1000).is_ok());
    let second = vec![Stmt::Expression { expression: Expr::Variable { name: ident("x") } }];
    match it.interpret_with_env(&second, &mut env, 1000) {
        Ok(Literal::Number(n)) => assert_eq!(n, 1),
        _ => panic!("expected the session binding"),
    }
}

//! Environments, the resolver, declaration and shadowing behavior.

use lox_ast::environment::EnvChain;
use lox_ast::environment::Environment;
use lox_ast::error::LoxResult;
use lox_ast::expr::Expr;
use lox_ast::expr::LiteralExpr;
use lox_ast::expr::VariableExpr;
use lox_ast::interpreter::Interpreter;
use lox_ast::object::Object;
use lox_ast::resolver::Resolver;
use lox_ast::stmt::BlockStmt;
use lox_ast::stmt::PrintStmt;
use lox_ast::stmt::Stmt;
use lox_ast::stmt::VarStmt;
use lox_ast::token::Literal;
use lox_ast::token::Token;
use lox_ast::token::TokenType;

fn ident(name: &str) -> Token {
    Token::new(TokenType::Identifier, name.to_string(), None, 1)
}

fn num(x: f64) -> Object {
    Object::Num(x.to_bits())
}

fn lit_num(x: f64) -> Expr {
    Expr::Literal(LiteralExpr { value: Some(Literal::Num(x.to_bits())) })
}

fn variable(name: &str, id: usize) -> Expr {
    Expr::Variable(VariableExpr { name: ident(name), id })
}

fn var_stmt(name: &str, init: Expr) -> Stmt {
    Stmt::Var(VarStmt { name: ident(name), initializer: Some(Box::new(init)) })
}

fn print_stmt(e: Expr) -> Stmt {
    Stmt::Print(PrintStmt { expression: Box::new(e) })
}

fn block(statements: Vec<Stmt>) -> Stmt {
    Stmt::Block(BlockStmt { statements })
}

fn run(stmts: &Vec<Stmt>) -> (bool, Vec<String>, Vec<String>) {
    let mut resolver = Resolver::new();
    resolver.resolve(stmts).expect("resolution failed");
    let mut interp = Interpreter::new();
    interp.set_locals(resolver.into_locals());
    let ok = interp.interpret(stmts);
    (ok, interp.output_lines().clone(), interp.report_lines().clone())
}

#[test]
fn define_then_get() {
    let mut env = EnvChain::new();
    env.define(0, "a".to_string(), num(3.0));
    assert_eq!(env.get(0, &ident("a")), Ok(num(3.0)));
}

#[test]
fn get_of_undefined_name() {
    let env = EnvChain::new();
    match env.get(0, &ident("ghost")) {
        Err(LoxResult::RuntimeError { message, .. }) => {
            assert_eq!(message, "Undefined variable 'ghost'.")
        },
        other => panic!("expected an undefined-variable error, got {:?}", other),
    }
}

#[test]
fn redefinition_overwrites() {
    let mut env = EnvChain::new();
    env.define(0, "a".to_string(), num(1.0));
    env.define(0, "a".to_string(), num(2.0));
    assert_eq!(env.get(0, &ident("a")), Ok(num(2.0)));
}

#[test]
fn assign_rebinds_existing_name_only() {
    let mut env = EnvChain::new();
    env.define(0, "a".to_string(), num(1.0));
    assert_eq!(env.assign(0, &ident("a"), num(9.0)), Ok(()));
    assert_eq!(env.get(0, &ident("a")), Ok(num(9.0)));
    match env.assign(0, &ident("b"), num(1.0)) {
        Err(LoxResult::RuntimeError { message, .. }) => {
            assert_eq!(message, "Undefined Variable 'b'.")
        },
        other => panic!("expected an undefined-variable error, got {:?}", other),
    }
}

#[test]
fn dynamic_get_walks_the_chain() {
    let mut env = EnvChain::new();
    env.define(0, "a".to_string(), num(10.0));
    let inner = env.new_frame(0);
    assert_eq!(env.get(inner, &ident("a")), Ok(num(10.0)));
    env.define(inner, "a".to_string(), num(20.0));
    assert_eq!(env.get(inner, &ident("a")), Ok(num(20.0)));
    assert_eq!(env.get(0, &ident("a")), Ok(num(10.0)));
}

#[test]
fn resolved_access_skips_intervening_frames() {
    let mut env = EnvChain::new();
    env.define(0, "a".to_string(), num(1.0));
    let mid = env.new_frame(0);
    env.define(mid, "a".to_string(), num(2.0));
    let inner = env.new_frame(mid);
    // Distance 2 reads the global binding even though `mid` shadows it.
    assert_eq!(env.get_at(inner, 2, &ident("a")), Ok(num(1.0)));
    assert_eq!(env.get_at(inner, 1, &ident("a")), Ok(num(2.0)));
    assert_eq!(env.assign_at(inner, 2, &ident("a"), num(7.0)), Ok(()));
    assert_eq!(env.get(0, &ident("a")), Ok(num(7.0)));
    assert_eq!(env.get_at(inner, 1, &ident("a")), Ok(num(2.0)));
}

#[test]
fn resolved_access_fails_safely_when_out_of_range() {
    let env = EnvChain::new();
    match env.get_at(0, 3, &ident("a")) {
        Err(LoxResult::RuntimeError { message, .. }) => {
            assert_eq!(message, "Undefined variable 'a'.")
        },
        other => panic!("expected an undefined-variable error, got {:?}", other),
    }
}

#[test]
fn frame_local_operations() {
    let mut frame = Environment::new();
    assert_eq!(frame.get_local(&"a".to_string()), None);
    frame.define("a".to_string(), num(1.0));
    assert_eq!(frame.get_local(&"a".to_string()), Some(num(1.0)));
    assert!(frame.assign_local(&"a".to_string(), num(5.0)));
    assert_eq!(frame.get_local(&"a".to_string()), Some(num(5.0)));
    assert!(!frame.assign_local(&"b".to_string(), num(5.0)));
}

#[test]
fn redeclaration_in_same_scope_prints_newest() {
    let prog = vec![
        var_stmt("a", lit_num(1.0)),
        var_stmt("a", lit_num(2.0)),
        print_stmt(variable("a", 1)),
    ];
    let (ok, out, _) = run(&prog);
    assert!(ok);
    assert_eq!(out, vec!["2".to_string()]);
}

#[test]
fn shadowing_inside_a_block() {
    let prog = vec![
        var_stmt("x", lit_num(10.0)),
        block(vec![var_stmt("x", lit_num(20.0)), print_stmt(variable("x", 1))]),
        print_stmt(variable("x", 2)),
    ];
    let (ok, out, _) = run(&prog);
    assert!(ok);
    assert_eq!(out, vec!["20".to_string(), "10".to_string()]);
}

#[test]
fn self_reference_in_initializer_is_rejected_at_resolution() {
    // { var a = a; } with no usable `a` further out: the resolver
    // reports it and the program never runs.
    let prog = vec![block(vec![var_stmt("a", variable("a", 1))])];
    let mut resolver = Resolver::new();
    match resolver.resolve(&prog) {
        Err(LoxResult::RuntimeError { message, token }) => {
            assert_eq!(message, "Can't read local variable in its own initializer");
            assert_eq!(token.lexeme, "a");
        },
        other => panic!("expected a resolution error, got {:?}", other),
    }
}

#[test]
fn resolver_records_lexical_distances() {
    // { var a = 1; { print a; } } : the reference sits one scope below
    // the declaration.
    let prog = vec![
        block(vec![var_stmt("a", lit_num(1.0)), block(vec![print_stmt(variable("a", 42))])]),
    ];
    let mut resolver = Resolver::new();
    resolver.resolve(&prog).expect("resolution failed");
    assert_eq!(resolver.into_locals(), vec![(42usize, 1usize)]);
}

#[test]
fn top_level_declarations_resolve_dynamically() {
    // Top-level names are not tracked by the scope stack at all.
    let prog = vec![var_stmt("a", lit_num(1.0)), print_stmt(variable("a", 5))];
    let mut resolver = Resolver::new();
    resolver.resolve(&prog).expect("resolution failed");
    assert_eq!(resolver.into_locals(), vec![]);
}

#[test]
fn installed_table_drives_variable_reads() {
    let mut interp = Interpreter::new();
    interp.resolve(11, 0);
    assert_eq!(interp.locals, vec![(11usize, 0usize)]);
    interp.set_locals(vec![]);
    assert_eq!(interp.locals, vec![]);
}

#[test]
fn fresh_interpreter_binds_only_the_clock() {
    let interp = Interpreter::new();
    assert_eq!(interp.env.frames.len(), 1);
    assert_eq!(interp.env.frames[0].values.len(), 1);
    assert_eq!(interp.env.frames[0].values[0].0, "clock");
    assert!(matches!(interp.env.frames[0].values[0].1, Object::Native(_)));
}

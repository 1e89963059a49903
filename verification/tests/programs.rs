//! End-to-end programs through the resolver and the interpreter, and the
//! expression parser.

use lox_ast::expr::AssignExpr;
use lox_ast::expr::BinaryExpr;
use lox_ast::expr::CallExpr;
use lox_ast::expr::Expr;
use lox_ast::expr::LiteralExpr;
use lox_ast::expr::LogicalExpr;
use lox_ast::expr::UnaryExpr;
use lox_ast::expr::VariableExpr;
use lox_ast::interpreter::Interpreter;
use lox_ast::lox_class::LoxClass;
use lox_ast::object::Object;
use lox_ast::parser::Parser;
use lox_ast::resolver::Resolver;
use lox_ast::stmt::BlockStmt;
use lox_ast::stmt::BreakStmt;
use lox_ast::stmt::ExpressionStmt;
use lox_ast::stmt::FunctionStmt;
use lox_ast::stmt::IfStmt;
use lox_ast::stmt::PrintStmt;
use lox_ast::stmt::ReturnStmt;
use lox_ast::stmt::Stmt;
use lox_ast::stmt::VarStmt;
use lox_ast::stmt::WhileStmt;
use lox_ast::token::Literal;
use lox_ast::token::Token;
use lox_ast::token::TokenType;
use std::rc::Rc;

fn tok(t: TokenType, lex: &str) -> Token {
    Token::new(t, lex.to_string(), None, 1)
}

fn ident(name: &str) -> Token {
    tok(TokenType::Identifier, name)
}

fn lit_num(x: f64) -> Expr {
    Expr::Literal(LiteralExpr { value: Some(Literal::Num(x.to_bits())) })
}

fn lit_str(s: &str) -> Expr {
    Expr::Literal(LiteralExpr { value: Some(Literal::Str(s.to_string())) })
}

fn lit_bool(b: bool) -> Expr {
    Expr::Literal(LiteralExpr { value: Some(Literal::Bool(b)) })
}

fn variable(name: &str, id: usize) -> Expr {
    Expr::Variable(VariableExpr { name: ident(name), id })
}

fn assign(name: &str, id: usize, value: Expr) -> Expr {
    Expr::Assign(AssignExpr { name: ident(name), value: Box::new(value), id })
}

fn binary(l: Expr, t: TokenType, lex: &str, r: Expr) -> Expr {
    Expr::Binary(BinaryExpr { left: Box::new(l), operator: tok(t, lex), right: Box::new(r) })
}

fn logical(l: Expr, t: TokenType, lex: &str, r: Expr) -> Expr {
    Expr::Logical(LogicalExpr { left: Box::new(l), operator: tok(t, lex), right: Box::new(r) })
}

fn unary(t: TokenType, lex: &str, r: Expr) -> Expr {
    Expr::Unary(UnaryExpr { operator: tok(t, lex), right: Box::new(r) })
}

fn call(callee: Expr, args: Vec<Expr>) -> Expr {
    Expr::Call(CallExpr { callee: Box::new(callee), paren: tok(TokenType::RightParen, ")"), arguments: args })
}

fn var_stmt(name: &str, init: Expr) -> Stmt {
    Stmt::Var(VarStmt { name: ident(name), initializer: Some(Box::new(init)) })
}

fn var_uninit(name: &str) -> Stmt {
    Stmt::Var(VarStmt { name: ident(name), initializer: None })
}

fn print_stmt(e: Expr) -> Stmt {
    Stmt::Print(PrintStmt { expression: Box::new(e) })
}

fn expr_stmt(e: Expr) -> Stmt {
    Stmt::Expression(ExpressionStmt { expression: Box::new(e) })
}

fn block(statements: Vec<Stmt>) -> Stmt {
    Stmt::Block(BlockStmt { statements })
}

fn if_stmt(cond: Expr, then_branch: Stmt) -> Stmt {
    Stmt::If(IfStmt { condition: Box::new(cond), then_branch: Box::new(then_branch), else_branch: None })
}

fn if_else(cond: Expr, then_branch: Stmt, else_branch: Stmt) -> Stmt {
    Stmt::If(IfStmt {
        condition: Box::new(cond),
        then_branch: Box::new(then_branch),
        else_branch: Some(Box::new(else_branch)),
    })
}

fn while_stmt(cond: Expr, body: Stmt) -> Stmt {
    Stmt::While(WhileStmt { condition: Box::new(cond), body: Box::new(body) })
}

fn break_stmt() -> Stmt {
    Stmt::Break(BreakStmt { token: tok(TokenType::Break, "break") })
}

fn return_stmt(value: Expr) -> Stmt {
    Stmt::Return(ReturnStmt { keyword: tok(TokenType::Return, "return"), value: Some(Box::new(value)) })
}

fn return_nil() -> Stmt {
    Stmt::Return(ReturnStmt { keyword: tok(TokenType::Return, "return"), value: None })
}

fn fun_stmt(name: &str, params: Vec<&str>, body: Vec<Stmt>) -> Stmt {
    Stmt::Function(FunctionStmt {
        name: ident(name),
        params: Rc::new(params.into_iter().map(ident).collect()),
        body: Rc::new(body),
    })
}

fn run(stmts: &Vec<Stmt>) -> (bool, Vec<String>, Vec<String>) {
    let mut resolver = Resolver::new();
    resolver.resolve(stmts).expect("resolution failed");
    let mut interp = Interpreter::new();
    interp.set_locals(resolver.into_locals());
    let ok = interp.interpret(stmts);
    (ok, interp.output_lines().clone(), interp.report_lines().clone())
}

#[test]
fn function_call_adds_and_prints() {
    // fun add(a, b) { return a + b; } print add(2, 3);
    let prog = vec![
        fun_stmt("add", vec!["a", "b"], vec![
            return_stmt(binary(variable("a", 1), TokenType::Plus, "+", variable("b", 2))),
        ]),
        print_stmt(call(variable("add", 3), vec![lit_num(2.0), lit_num(3.0)])),
    ];
    let (ok, out, _) = run(&prog);
    assert!(ok);
    assert_eq!(out, vec!["5".to_string()]);
}

#[test]
fn while_loop_with_break_counts_to_three() {
    // var i = 0; while (true) { i = i + 1; if (i == 3) break; } print i;
    let prog = vec![
        var_stmt("i", lit_num(0.0)),
        while_stmt(
            lit_bool(true),
            block(vec![
                expr_stmt(assign("i", 1, binary(variable("i", 2), TokenType::Plus, "+", lit_num(1.0)))),
                if_stmt(binary(variable("i", 3), TokenType::Equals, "==", lit_num(3.0)), break_stmt()),
            ]),
        ),
        print_stmt(variable("i", 4)),
    ];
    let (ok, out, _) = run(&prog);
    assert!(ok);
    assert_eq!(out, vec!["3".to_string()]);
}

#[test]
fn break_terminates_only_the_nearest_loop() {
    // var i = 0;
    // while (i < 3) { while (true) { break; } i = i + 1; }
    // print i;
    let prog = vec![
        var_stmt("i", lit_num(0.0)),
        while_stmt(
            binary(variable("i", 1), TokenType::Less, "<", lit_num(3.0)),
            block(vec![
                while_stmt(lit_bool(true), block(vec![break_stmt()])),
                expr_stmt(assign("i", 2, binary(variable("i", 3), TokenType::Plus, "+", lit_num(1.0)))),
            ]),
        ),
        print_stmt(variable("i", 4)),
    ];
    let (ok, out, _) = run(&prog);
    assert!(ok);
    assert_eq!(out, vec!["3".to_string()]);
}

#[test]
fn break_outside_a_loop_is_a_runtime_error() {
    let prog = vec![break_stmt()];
    let (ok, out, reports) = run(&prog);
    assert!(!ok);
    assert!(out.is_empty());
    assert_eq!(reports, vec!["line 1 at 'break' Break outside of while/for loop.".to_string()]);
}

#[test]
fn closures_retain_locals_after_the_outer_call_returns() {
    // fun counter() {
    //   var n = 0;
    //   fun inc() { n = n + 1; return n; }
    //   return inc;
    // }
    // var c = counter(); print c(); print c();
    let prog = vec![
        fun_stmt("counter", vec![], vec![
            var_stmt("n", lit_num(0.0)),
            fun_stmt("inc", vec![], vec![
                expr_stmt(assign("n", 1, binary(variable("n", 2), TokenType::Plus, "+", lit_num(1.0)))),
                return_stmt(variable("n", 3)),
            ]),
            return_stmt(variable("inc", 4)),
        ]),
        var_stmt("c", call(variable("counter", 5), vec![])),
        print_stmt(call(variable("c", 6), vec![])),
        print_stmt(call(variable("c", 7), vec![])),
    ];
    let (ok, out, _) = run(&prog);
    assert!(ok);
    assert_eq!(out, vec!["1".to_string(), "2".to_string()]);
}

#[test]
fn calling_a_non_callable_value_is_a_runtime_error() {
    let prog = vec![expr_stmt(call(lit_num(42.0), vec![]))];
    let (ok, _, reports) = run(&prog);
    assert!(!ok);
    assert_eq!(reports, vec!["line 1 at ')' Can only call functions and classes.".to_string()]);
}

#[test]
fn arity_mismatch_names_expected_and_actual_counts() {
    // fun f(a) { return a; } f(1, 2);
    let prog = vec![
        fun_stmt("f", vec!["a"], vec![return_stmt(variable("a", 1))]),
        expr_stmt(call(variable("f", 2), vec![lit_num(1.0), lit_num(2.0)])),
    ];
    let (ok, _, reports) = run(&prog);
    assert!(!ok);
    assert_eq!(reports, vec!["line 1 at ')' Expected 1 arguments but got 2.".to_string()]);
}

#[test]
fn string_plus_number_prints_concatenation() {
    let prog = vec![
        print_stmt(binary(lit_str("x"), TokenType::Plus, "+", lit_num(1.0))),
        print_stmt(binary(lit_num(1.0), TokenType::Plus, "+", lit_str("x"))),
    ];
    let (ok, out, _) = run(&prog);
    assert!(ok);
    assert_eq!(out, vec!["x1".to_string(), "1x".to_string()]);
}

#[test]
fn division_by_zero_prints_infinity_and_succeeds() {
    let prog = vec![print_stmt(binary(lit_num(1.0), TokenType::Slash, "/", lit_num(0.0)))];
    let (ok, out, _) = run(&prog);
    assert!(ok);
    assert_eq!(out, vec!["+Inf".to_string()]);
}

#[test]
fn illegal_expression_stops_the_run() {
    let prog = vec![
        print_stmt(binary(lit_bool(true), TokenType::Plus, "+", lit_num(1.0))),
        print_stmt(lit_num(1.0)),
    ];
    let (ok, out, reports) = run(&prog);
    assert!(!ok);
    assert!(out.is_empty());
    assert_eq!(reports, vec!["line 1 at '+' Illegal expression".to_string()]);
}

#[test]
fn undefined_variable_read_is_reported() {
    let prog = vec![print_stmt(variable("ghost", 1))];
    let (ok, _, reports) = run(&prog);
    assert!(!ok);
    assert_eq!(reports, vec!["line 1 at 'ghost' Undefined variable 'ghost'.".to_string()]);
}

#[test]
fn uninitialized_variable_is_nil() {
    let prog = vec![var_uninit("a"), print_stmt(variable("a", 1))];
    let (ok, out, _) = run(&prog);
    assert!(ok);
    assert_eq!(out, vec!["nil".to_string()]);
}

#[test]
fn logical_operators_short_circuit() {
    // print false and 1; print true and 1; print nil or "fallback";
    let prog = vec![
        print_stmt(logical(lit_bool(false), TokenType::And, "and", lit_num(1.0))),
        print_stmt(logical(lit_bool(true), TokenType::And, "and", lit_num(1.0))),
        print_stmt(logical(
            Expr::Literal(LiteralExpr { value: Some(Literal::Nil) }),
            TokenType::Or,
            "or",
            lit_str("fallback"),
        )),
        print_stmt(logical(lit_num(7.0), TokenType::Or, "or", lit_str("unused"))),
    ];
    let (ok, out, _) = run(&prog);
    assert!(ok);
    assert_eq!(out, vec!["false", "1", "fallback", "7"]);
}

#[test]
fn if_else_takes_exactly_one_branch() {
    let prog = vec![
        if_else(lit_bool(true), print_stmt(lit_str("then")), print_stmt(lit_str("else"))),
        if_else(lit_bool(false), print_stmt(lit_str("then")), print_stmt(lit_str("else"))),
        if_stmt(lit_bool(false), print_stmt(lit_str("skipped"))),
    ];
    let (ok, out, _) = run(&prog);
    assert!(ok);
    assert_eq!(out, vec!["then", "else"]);
}

#[test]
fn function_without_return_yields_nil() {
    let prog = vec![
        fun_stmt("noop", vec![], vec![expr_stmt(lit_num(1.0))]),
        print_stmt(call(variable("noop", 1), vec![])),
        fun_stmt("bare", vec![], vec![return_nil()]),
        print_stmt(call(variable("bare", 2), vec![])),
    ];
    let (ok, out, _) = run(&prog);
    assert!(ok);
    assert_eq!(out, vec!["nil", "nil"]);
}

#[test]
fn recursion_through_the_function_name() {
    // fun fib(n) { if (n < 2) return n; return fib(n - 1) + fib(n - 2); }
    // print fib(10);
    let prog = vec![
        fun_stmt("fib", vec!["n"], vec![
            if_stmt(
                binary(variable("n", 1), TokenType::Less, "<", lit_num(2.0)),
                return_stmt(variable("n", 2)),
            ),
            return_stmt(binary(
                call(variable("fib", 3), vec![binary(variable("n", 4), TokenType::Minus, "-", lit_num(1.0))]),
                TokenType::Plus,
                "+",
                call(variable("fib", 5), vec![binary(variable("n", 6), TokenType::Minus, "-", lit_num(2.0))]),
            )),
        ]),
        print_stmt(call(variable("fib", 7), vec![lit_num(10.0)])),
    ];
    let (ok, out, _) = run(&prog);
    assert!(ok);
    assert_eq!(out, vec!["55".to_string()]);
}

#[test]
fn calling_a_class_produces_an_instance() {
    let prog = vec![print_stmt(call(variable("Widget", 1), vec![]))];
    let mut resolver = Resolver::new();
    resolver.resolve(&prog).expect("resolution failed");
    let mut interp = Interpreter::new();
    interp.set_locals(resolver.into_locals());
    let class = Rc::new(LoxClass::new(&"Widget".to_string()));
    interp.env.define(0, "Widget".to_string(), Object::Class(class));
    let ok = interp.interpret(&prog);
    assert!(ok);
    assert_eq!(interp.output_lines().clone(), vec!["Widget instance".to_string()]);
}

#[test]
fn calling_a_class_with_arguments_is_an_arity_error() {
    let prog = vec![expr_stmt(call(variable("Widget", 1), vec![lit_num(1.0)]))];
    let mut interp = Interpreter::new();
    let class = Rc::new(LoxClass::new(&"Widget".to_string()));
    interp.env.define(0, "Widget".to_string(), Object::Class(class));
    let ok = interp.interpret(&prog);
    assert!(!ok);
    assert_eq!(
        interp.report_lines().clone(),
        vec!["line 1 at ')' Expected 0 arguments but got 1.".to_string()]
    );
}

#[test]
fn clock_is_a_number_valued_native() {
    // var t = clock(); print t >= 0;
    let prog = vec![
        var_stmt("t", call(variable("clock", 1), vec![])),
        print_stmt(binary(variable("t", 2), TokenType::GreaterEqual, ">=", lit_num(0.0))),
    ];
    let (ok, out, _) = run(&prog);
    assert!(ok);
    assert_eq!(out, vec!["true".to_string()]);
}

#[test]
fn return_escaping_to_top_level_fails_safely() {
    let prog = vec![return_nil(), print_stmt(lit_num(1.0))];
    let (ok, out, reports) = run(&prog);
    assert!(!ok);
    assert!(out.is_empty());
    // Control-flow signals print no diagnostic line of their own.
    assert_eq!(reports, vec!["".to_string()]);
}

fn num_tok(x: f64, lex: &str) -> Token {
    Token::new(TokenType::Number, lex.to_string(), Some(Literal::Num(x.to_bits())), 1)
}

fn eof() -> Token {
    Token::new(TokenType::Eof, "".to_string(), None, 1)
}

fn eval_parsed(tokens: Vec<Token>) -> Object {
    let mut parser = Parser::new(tokens);
    let expr = parser.expression().expect("parse failed");
    let mut interp = Interpreter::new();
    interp.evaluate(&expr, 1_000_000).expect("evaluation failed")
}

#[test]
fn parser_respects_precedence() {
    // 1 + 2 * 3 == 7
    let tokens = vec![
        num_tok(1.0, "1"),
        tok(TokenType::Plus, "+"),
        num_tok(2.0, "2"),
        tok(TokenType::Star, "*"),
        num_tok(3.0, "3"),
        eof(),
    ];
    assert_eq!(eval_parsed(tokens), Object::Num(7.0f64.to_bits()));
}

#[test]
fn parser_grouping_overrides_precedence() {
    // (1 + 2) * 3 == 9
    let tokens = vec![
        tok(TokenType::LeftParen, "("),
        num_tok(1.0, "1"),
        tok(TokenType::Plus, "+"),
        num_tok(2.0, "2"),
        tok(TokenType::RightParen, ")"),
        tok(TokenType::Star, "*"),
        num_tok(3.0, "3"),
        eof(),
    ];
    assert_eq!(eval_parsed(tokens), Object::Num(9.0f64.to_bits()));
}

#[test]
fn parser_unary_and_comparison() {
    // -5 < 4 == true
    let tokens = vec![
        tok(TokenType::Minus, "-"),
        num_tok(5.0, "5"),
        tok(TokenType::Less, "<"),
        num_tok(4.0, "4"),
        eof(),
    ];
    assert_eq!(eval_parsed(tokens), Object::Bool(true));
}

#[test]
fn parser_reports_a_missing_closing_paren() {
    let tokens = vec![tok(TokenType::LeftParen, "("), num_tok(1.0, "1"), eof()];
    let mut parser = Parser::new(tokens);
    match parser.expression() {
        Err(e) => assert_eq!(e.report_text(), "[line 1] Error: Expect ')' after expression"),
        Ok(e) => panic!("expected a parse error, got {:?}", e),
    }
}

#[test]
fn parser_rejects_a_lone_operator() {
    let tokens = vec![tok(TokenType::Plus, "+"), eof()];
    let mut parser = Parser::new(tokens);
    match parser.expression() {
        Err(e) => assert_eq!(e.report_text(), "[line 0] Error: failed primary parser"),
        Ok(e) => panic!("expected a parse error, got {:?}", e),
    }
}

#[test]
fn empty_program_succeeds_quietly() {
    let prog: Vec<Stmt> = vec![];
    let (ok, out, reports) = run(&prog);
    assert!(ok);
    assert!(out.is_empty());
    assert!(reports.is_empty());
}

#[test]
fn assignment_is_an_expression_yielding_the_value() {
    // var a = 1; print a = 5; print a;
    let prog = vec![
        var_stmt("a", lit_num(1.0)),
        print_stmt(assign("a", 1, lit_num(5.0))),
        print_stmt(variable("a", 2)),
    ];
    let (ok, out, _) = run(&prog);
    assert!(ok);
    assert_eq!(out, vec!["5".to_string(), "5".to_string()]);
}

#[test]
fn assignment_to_an_undefined_name_is_an_error() {
    let prog = vec![expr_stmt(assign("ghost", 1, lit_num(5.0)))];
    let (ok, _, reports) = run(&prog);
    assert!(!ok);
    assert_eq!(reports, vec!["line 1 at 'ghost' Undefined Variable 'ghost'.".to_string()]);
}

#[test]
fn while_with_a_false_condition_never_runs_its_body() {
    let prog = vec![
        while_stmt(lit_bool(false), print_stmt(lit_str("never"))),
        print_stmt(lit_str("after")),
    ];
    let (ok, out, _) = run(&prog);
    assert!(ok);
    assert_eq!(out, vec!["after".to_string()]);
}

#[test]
fn arity_mismatch_with_too_few_arguments() {
    let prog = vec![
        fun_stmt("f", vec!["a", "b"], vec![return_stmt(variable("a", 1))]),
        expr_stmt(call(variable("f", 2), vec![lit_num(1.0)])),
    ];
    let (ok, _, reports) = run(&prog);
    assert!(!ok);
    assert_eq!(reports, vec!["line 1 at ')' Expected 2 arguments but got 1.".to_string()]);
}

#[test]
fn calling_the_clock_with_arguments_is_an_arity_error() {
    let prog = vec![expr_stmt(call(variable("clock", 1), vec![lit_num(1.0)]))];
    let (ok, _, reports) = run(&prog);
    assert!(!ok);
    assert_eq!(reports, vec!["line 1 at ')' Expected 0 arguments but got 1.".to_string()]);
}

#[test]
fn string_equality_inside_a_program() {
    let prog = vec![
        print_stmt(binary(lit_str("a"), TokenType::Equals, "==", lit_str("a"))),
        print_stmt(binary(lit_str("a"), TokenType::BangEqual, "!=", lit_str("b"))),
    ];
    let (ok, out, _) = run(&prog);
    assert!(ok);
    assert_eq!(out, vec!["true".to_string(), "true".to_string()]);
}

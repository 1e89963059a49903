//! Value-model semantics: IEEE-754 arithmetic against the host's own
//! doubles, the binary/unary operator table, rendering, and diagnostics.

use lox_ast::error::usize_text;
use lox_ast::error::LoxResult;
use lox_ast::interpreter::eval_binary;
use lox_ast::interpreter::eval_unary;
use lox_ast::lox_class::LoxClass;
use lox_ast::lox_function::LoxFunction;
use lox_ast::lox_instance::LoxInstance;
use lox_ast::native_functions::NativeClock;
use lox_ast::number::bits_add;
use lox_ast::number::bits_div;
use lox_ast::number::bits_mul;
use lox_ast::number::bits_negate;
use lox_ast::number::bits_of_u64;
use lox_ast::number::bits_sub;
use lox_ast::number::bits_to_text;
use lox_ast::object::Object;
use lox_ast::stmt::FunctionStmt;
use lox_ast::token::Token;
use lox_ast::token::TokenType;
use std::rc::Rc;

fn tok(t: TokenType, lex: &str) -> Token {
    Token::new(t, lex.to_string(), None, 1)
}

fn num(x: f64) -> Object {
    Object::Num(x.to_bits())
}

fn s(text: &str) -> Object {
    Object::Str(text.to_string())
}

fn binop(t: TokenType, lex: &str, l: Object, r: Object) -> Result<Object, LoxResult> {
    eval_binary(&tok(t, lex), l, r)
}

#[test]
fn arithmetic_matches_host_doubles() {
    let pairs: [(f64, f64); 5] = [(2.0, 3.0), (2.5, 0.5), (0.1, 0.2), (-1.5, 4.0), (1e308, 1e308)];
    for (a, b) in pairs {
        assert_eq!(bits_add(a.to_bits(), b.to_bits()), (a + b).to_bits());
        assert_eq!(bits_sub(a.to_bits(), b.to_bits()), (a - b).to_bits());
        assert_eq!(bits_mul(a.to_bits(), b.to_bits()), (a * b).to_bits());
        assert_eq!(bits_div(a.to_bits(), b.to_bits()), (a / b).to_bits());
    }
}

#[test]
fn division_by_zero_gives_infinity() {
    assert_eq!(bits_div(1.0f64.to_bits(), 0.0f64.to_bits()), f64::INFINITY.to_bits());
    assert_eq!(bits_div((-1.0f64).to_bits(), 0.0f64.to_bits()), f64::NEG_INFINITY.to_bits());
    let r = binop(TokenType::Slash, "/", num(1.0), num(0.0));
    assert_eq!(r, Ok(num(f64::INFINITY)));
}

#[test]
fn zero_over_zero_is_nan_not_an_error() {
    match binop(TokenType::Slash, "/", num(0.0), num(0.0)) {
        Ok(Object::Num(bits)) => assert!(f64::from_bits(bits).is_nan()),
        other => panic!("expected a NaN number, got {:?}", other),
    }
}

#[test]
fn numeric_comparisons() {
    assert_eq!(binop(TokenType::Greater, ">", num(3.0), num(2.0)), Ok(Object::Bool(true)));
    assert_eq!(binop(TokenType::GreaterEqual, ">=", num(2.0), num(2.0)), Ok(Object::Bool(true)));
    assert_eq!(binop(TokenType::Less, "<", num(3.0), num(2.0)), Ok(Object::Bool(false)));
    assert_eq!(binop(TokenType::LessEqual, "<=", num(-1.0), num(0.0)), Ok(Object::Bool(true)));
    assert_eq!(binop(TokenType::Less, "<", num(-2.0), num(-1.0)), Ok(Object::Bool(true)));
}

#[test]
fn nan_compares_false_and_unequal() {
    let nan = num(f64::NAN);
    assert_eq!(binop(TokenType::Less, "<", nan.clone(), num(1.0)), Ok(Object::Bool(false)));
    assert_eq!(binop(TokenType::Greater, ">", nan.clone(), num(1.0)), Ok(Object::Bool(false)));
    assert_eq!(binop(TokenType::Equals, "==", nan.clone(), nan.clone()), Ok(Object::Bool(false)));
    assert_eq!(binop(TokenType::BangEqual, "!=", nan.clone(), nan), Ok(Object::Bool(true)));
}

#[test]
fn negative_zero_equals_zero() {
    assert_eq!(binop(TokenType::Equals, "==", num(-0.0), num(0.0)), Ok(Object::Bool(true)));
    assert_eq!(binop(TokenType::Less, "<", num(-0.0), num(0.0)), Ok(Object::Bool(false)));
}

#[test]
fn string_number_concatenation_both_orders() {
    assert_eq!(binop(TokenType::Plus, "+", s("x"), num(1.0)), Ok(s("x1")));
    assert_eq!(binop(TokenType::Plus, "+", num(1.0), s("x")), Ok(s("1x")));
}

#[test]
fn string_concatenation_and_equality() {
    assert_eq!(binop(TokenType::Plus, "+", s("ab"), s("cd")), Ok(s("abcd")));
    assert_eq!(binop(TokenType::Equals, "==", s("ab"), s("ab")), Ok(Object::Bool(true)));
    assert_eq!(binop(TokenType::Equals, "==", s("ab"), s("ac")), Ok(Object::Bool(false)));
    assert_eq!(binop(TokenType::BangEqual, "!=", s("ab"), s("ac")), Ok(Object::Bool(true)));
}

#[test]
fn boolean_equality_only() {
    assert_eq!(binop(TokenType::Equals, "==", Object::Bool(true), Object::Bool(true)), Ok(Object::Bool(true)));
    assert_eq!(binop(TokenType::BangEqual, "!=", Object::Bool(true), Object::Bool(false)), Ok(Object::Bool(true)));
    let r = binop(TokenType::Plus, "+", Object::Bool(true), Object::Bool(false));
    match r {
        Err(LoxResult::RuntimeError { message, .. }) => assert_eq!(message, "Illegal expression"),
        other => panic!("expected Illegal expression, got {:?}", other),
    }
}

#[test]
fn nil_equality_rules() {
    assert_eq!(binop(TokenType::Equals, "==", Object::Nil, Object::Nil), Ok(Object::Bool(true)));
    assert_eq!(binop(TokenType::BangEqual, "!=", Object::Nil, Object::Nil), Ok(Object::Bool(false)));
    assert_eq!(binop(TokenType::Equals, "==", Object::Nil, num(1.0)), Ok(Object::Bool(false)));
    assert_eq!(binop(TokenType::Equals, "==", num(1.0), Object::Nil), Ok(Object::Bool(false)));
    assert_eq!(binop(TokenType::BangEqual, "!=", s("a"), Object::Nil), Ok(Object::Bool(true)));
}

#[test]
fn incompatible_operands_are_illegal_expressions() {
    let cases = vec![
        binop(TokenType::Minus, "-", s("a"), num(1.0)),
        binop(TokenType::Star, "*", num(1.0), s("a")),
        binop(TokenType::Less, "<", s("a"), s("b")),
        binop(TokenType::Equals, "==", s("a"), num(1.0)),
        binop(TokenType::Plus, "+", Object::Bool(true), num(1.0)),
        binop(TokenType::Minus, "-", Object::Nil, Object::Nil),
    ];
    for r in cases {
        match r {
            Err(LoxResult::RuntimeError { message, .. }) => {
                assert_eq!(message, "Illegal expression")
            },
            other => panic!("expected Illegal expression, got {:?}", other),
        }
    }
}

#[test]
fn unary_minus_and_bang() {
    assert_eq!(eval_unary(&tok(TokenType::Minus, "-"), num(5.0)), Ok(num(-5.0)));
    assert_eq!(bits_negate(f64::NAN.to_bits()), (-f64::NAN).to_bits());
    // Unary minus on a non-number is leniently nil, not an error.
    assert_eq!(eval_unary(&tok(TokenType::Minus, "-"), s("a")), Ok(Object::Nil));
    assert_eq!(eval_unary(&tok(TokenType::Bang, "!"), Object::Nil), Ok(Object::Bool(true)));
    assert_eq!(eval_unary(&tok(TokenType::Bang, "!"), num(0.0)), Ok(Object::Bool(false)));
    assert_eq!(eval_unary(&tok(TokenType::Bang, "!"), Object::Bool(false)), Ok(Object::Bool(true)));
}

#[test]
fn number_rendering() {
    assert_eq!(bits_to_text(5.0f64.to_bits()), "5");
    assert_eq!(bits_to_text(2.5f64.to_bits()), "2.5");
    assert_eq!(bits_to_text(0.0f64.to_bits()), "0");
    assert_eq!(bits_to_text((-3.0f64).to_bits()), "-3");
    assert_eq!(bits_to_text(f64::INFINITY.to_bits()), "+Inf");
    assert_eq!(bits_to_text(f64::NAN.to_bits()), "NaN");
}

#[test]
fn integer_to_double_bits() {
    assert_eq!(bits_of_u64(0), 0.0f64.to_bits());
    assert_eq!(bits_of_u64(5), 5.0f64.to_bits());
    assert_eq!(bits_of_u64(123456789), 123456789.0f64.to_bits());
}

#[test]
fn decimal_rendering_of_counts() {
    assert_eq!(usize_text(0), "0");
    assert_eq!(usize_text(7), "7");
    assert_eq!(usize_text(10), "10");
    assert_eq!(usize_text(12345), "12345");
}

#[test]
fn object_rendering() {
    assert_eq!(num(5.0).to_text(), "5");
    assert_eq!(s("hi").to_text(), "hi");
    assert_eq!(Object::Bool(true).to_text(), "true");
    assert_eq!(Object::Bool(false).to_text(), "false");
    assert_eq!(Object::Nil.to_text(), "nil");
    assert_eq!(Object::Native(NativeClock).to_text(), "<NativeClock>");
    let decl = FunctionStmt {
        name: tok(TokenType::Identifier, "f"),
        params: Rc::new(vec![]),
        body: Rc::new(vec![]),
    };
    let f = LoxFunction::new(&decl, 0);
    assert_eq!(Object::Func(Rc::new(f)).to_text(), "f");
    let class = Rc::new(LoxClass::new(&"Widget".to_string()));
    assert_eq!(Object::Class(Rc::clone(&class)).to_text(), "Widget");
    let inst = LoxInstance::new(Rc::clone(&class));
    assert_eq!(Object::Instance(Rc::new(inst)).to_text(), "Widget instance");
}

#[test]
fn class_instantiation_and_arity() {
    let class = Rc::new(LoxClass::new(&"Widget".to_string()));
    assert_eq!(class.arity(), 0);
    match class.instantiate(&class) {
        Ok(Object::Instance(inst)) => assert_eq!(inst.klass.name, "Widget"),
        other => panic!("expected an instance, got {:?}", other),
    }
}

#[test]
fn native_clock_yields_a_number() {
    match NativeClock.call() {
        Ok(Object::Num(_)) => {},
        other => panic!("expected a number, got {:?}", other),
    }
    assert_eq!(NativeClock.arity(), 0);
}

#[test]
fn diagnostic_line_formats() {
    let e = LoxResult::error(3, "bad input");
    assert_eq!(e.report_text(), "[line 3] Error: bad input");
    let t = Token::new(TokenType::Identifier, "x".to_string(), None, 7);
    let e = LoxResult::runtime_error(&t, "went wrong");
    assert_eq!(e.report_text(), "line 7 at 'x' went wrong");
    let eof = Token::new(TokenType::Eof, "".to_string(), None, 9);
    let e = LoxResult::parse_error(&eof, "unexpected end");
    assert_eq!(e.report_text(), "9 at end unexpected end");
    let e = LoxResult::system_error("broke");
    assert_eq!(e.report_text(), "System Error: broke");
    assert_eq!(LoxResult::Break.report_text(), "");
    assert_eq!(LoxResult::return_value(Object::Nil).report_text(), "");
}

#[test]
fn truthiness() {
    assert!(!Object::Bool(false).is_truthy());
    assert!(!Object::Nil.is_truthy());
    assert!(Object::Bool(true).is_truthy());
    assert!(num(0.0).is_truthy());
    assert!(s("").is_truthy());
}

//! Error and control-flow outcomes.
//!
//! Every non-normal outcome of resolution or evaluation travels as a
//! `LoxResult`: genuine errors (parse, runtime, lexical, system) and the
//! two control-flow signals, `Break` and `ReturnValue`, which are not
//! errors and are intercepted at their owning boundary (the nearest
//! enclosing loop, the nearest call frame). Constructing an error does not
//! print anything; `report_text` renders the diagnostic line and the
//! driver decides where to write it.

use crate::object::Object;
use crate::token::Token;
use crate::token::TokenType;
use vstd::prelude::*;

verus! {

#[derive(Debug, PartialEq)]
pub enum LoxResult {
    ParseError { token: Token, message: String },
    RuntimeError { token: Token, message: String },
    LoxError { line: usize, message: String },
    SystemError { message: String },
    Break,
    ReturnValue { value: Object },
}

/// The decimal digit character for `d`.
pub open spec fn digit_char(d: int) -> char {
    if d == 0 {
        '0'
    } else if d == 1 {
        '1'
    } else if d == 2 {
        '2'
    } else if d == 3 {
        '3'
    } else if d == 4 {
        '4'
    } else if d == 5 {
        '5'
    } else if d == 6 {
        '6'
    } else if d == 7 {
        '7'
    } else if d == 8 {
        '8'
    } else {
        '9'
    }
}

/// The decimal rendering of a non-negative integer.
pub open spec fn decimal_text(n: int) -> Seq<char>
    decreases n,
{
    if n < 10 {
        seq![digit_char(n)]
    } else {
        decimal_text(n / 10).push(digit_char(n % 10))
    }
}

/// A one-character string for a single decimal digit.
fn digit_string(d: usize) -> (r: String)
    requires
        d < 10,
    ensures
        r@ == seq![digit_char(d as int)],
{
    let r = match d {
        0 => String::from_str("0"),
        1 => String::from_str("1"),
        2 => String::from_str("2"),
        3 => String::from_str("3"),
        4 => String::from_str("4"),
        5 => String::from_str("5"),
        6 => String::from_str("6"),
        7 => String::from_str("7"),
        8 => String::from_str("8"),
        _ => String::from_str("9"),
    };
    proof {
        reveal_strlit("0");
        reveal_strlit("1");
        reveal_strlit("2");
        reveal_strlit("3");
        reveal_strlit("4");
        reveal_strlit("5");
        reveal_strlit("6");
        reveal_strlit("7");
        reveal_strlit("8");
        reveal_strlit("9");
        assert(r@ =~= seq![digit_char(d as int)]);
    }
    r
}

/// Renders a non-negative integer in decimal.
pub fn usize_text(n: usize) -> (r: String)
    ensures
        r@ == decimal_text(n as int),
    decreases n,
{
    if n < 10 {
        digit_string(n)
    } else {
        let rest = usize_text(n / 10);
        let digit = digit_string(n % 10);
        let r = rest.concat(digit.as_str());
        proof {
            assert(r@ =~= decimal_text(n as int));
        }
        r
    }
}

/// The diagnostic line for an error carrying a token.
pub open spec fn token_report(token: Token, message: String) -> Seq<char> {
    if token.ttype == TokenType::Eof {
        decimal_text(token.line as int) + " at end "@ + message@
    } else {
        "line "@ + decimal_text(token.line as int) + " at '"@ + token.lexeme@ + "' "@ + message@
    }
}

/// The diagnostic line an outcome prints as; control-flow signals have
/// none.
pub open spec fn report_text_spec(r: LoxResult) -> Seq<char> {
    match r {
        LoxResult::ParseError { token, message } => token_report(token, message),
        LoxResult::RuntimeError { token, message } => token_report(token, message),
        LoxResult::LoxError { line, message } => "[line "@ + decimal_text(line as int)
            + "] Error: "@ + message@,
        LoxResult::SystemError { message } => "System Error: "@ + message@,
        LoxResult::Break => Seq::<char>::empty(),
        LoxResult::ReturnValue { .. } => Seq::<char>::empty(),
    }
}

impl LoxResult {
    /// A lexical or generic error at a source line.
    pub fn error(line: usize, message: &str) -> (r: LoxResult)
        ensures
            r matches LoxResult::LoxError { line: l, message: m } && l == line && m@ == message@,
    {
        LoxResult::LoxError { line, message: message.to_owned() }
    }

    /// A parse error at a token.
    pub fn parse_error(token: &Token, message: &str) -> (r: LoxResult)
        ensures
            r matches LoxResult::ParseError { token: t, message: m } && t == *token && m@
                == message@,
    {
        LoxResult::ParseError { token: token.dup(), message: message.to_owned() }
    }

    /// A runtime error at a token.
    pub fn runtime_error(token: &Token, message: &str) -> (r: LoxResult)
        ensures
            r matches LoxResult::RuntimeError { token: t, message: m } && t == *token && m@
                == message@,
    {
        LoxResult::RuntimeError { token: token.dup(), message: message.to_owned() }
    }

    /// A host-level error with no source position.
    pub fn system_error(message: &str) -> (r: LoxResult)
        ensures
            r matches LoxResult::SystemError { message: m } && m@ == message@,
    {
        LoxResult::SystemError { message: message.to_owned() }
    }

    /// The `return` control-flow signal carrying the returned value.
    pub fn return_value(value: Object) -> (r: LoxResult)
        ensures
            r == (LoxResult::ReturnValue { value }),
    {
        LoxResult::ReturnValue { value }
    }

    /// The diagnostic line this outcome prints as.
    pub fn report_text(&self) -> (r: String)
        ensures
            r@ == report_text_spec(*self),
    {
        match self {
            LoxResult::ParseError { token, message } => Self::token_report_text(token, message),
            LoxResult::RuntimeError { token, message } => Self::token_report_text(token, message),
            LoxResult::LoxError { line, message } => String::from_str("[line ").concat(
                usize_text(*line).as_str(),
            ).concat("] Error: ").concat(message.as_str()),
            LoxResult::SystemError { message } => String::from_str("System Error: ").concat(
                message.as_str(),
            ),
            LoxResult::Break => String::new(),
            LoxResult::ReturnValue { .. } => String::new(),
        }
    }

    /// The diagnostic line for an error carrying a token.
    fn token_report_text(token: &Token, message: &String) -> (r: String)
        ensures
            r@ == token_report(*token, *message),
    {
        if token.is(TokenType::Eof) {
            usize_text(token.line).concat(" at end ").concat(message.as_str())
        } else {
            String::from_str("line ").concat(usize_text(token.line).as_str()).concat(" at '")
                .concat(token.lexeme.as_str()).concat("' ").concat(message.as_str())
        }
    }
}

} // verus!

//! The reference semantics of execution.
//!
//! Each relation here states, for one evaluation step, exactly which
//! (post-state, outcome) pairs the language allows from a given pre-state
//! — a fuel-indexed big-step semantics mirroring the interpreter function
//! for function: the same budget checks at the same points, the same
//! evaluation order, the same state changes. The interpreter's functions
//! each carry an `ensures` that their result and final state stand in the
//! corresponding relation, so the execution semantics is a proved
//! contract, not just code.
//!
//! Relations rather than functions, for two reasons: the one native
//! function (the clock) is genuinely nondeterministic, and a freshly
//! built `String` has no spec-level constructor, so results carrying text
//! are pinned by their views.

use crate::environment::ancestor_frame;
use crate::environment::chain_defining_frame;
use crate::environment::chain_lookup;
use crate::environment::frame_lookup;
use crate::error::decimal_text;
use crate::error::LoxResult;
use crate::expr::AssignExpr;
use crate::expr::BinaryExpr;
use crate::expr::CallExpr;
use crate::expr::Expr;
use crate::expr::GroupingExpr;
use crate::expr::LogicalExpr;
use crate::expr::UnaryExpr;
use crate::interpreter::literal_value;
use crate::interpreter::locals_distance;
use crate::interpreter::variable_value;
use crate::interpreter::Interpreter;
use crate::lox_function::LoxFunction;
use crate::number::diff_bits;
use crate::number::negated_bits;
use crate::number::num_eq;
use crate::number::num_le;
use crate::number::num_lt;
use crate::number::prod_bits;
use crate::number::quot_bits;
use crate::number::sum_bits;
use crate::number::text_of_bits;
use crate::object::object_text;
use crate::object::truthy;
use crate::object::Object;
use crate::stmt::FunctionStmt;
use crate::stmt::Stmt;
use crate::stmt::VarStmt;
use crate::stmt::WhileStmt;
use crate::token::Token;
use crate::token::TokenType;
use std::rc::Rc;
use vstd::prelude::*;

verus! {

/// Always true. Applications of this function serve as instantiation
/// markers: each existential below triggers on `chosen` over its bound
/// variables, so a proof introduces a witness by asserting one ground
/// `chosen` application.
pub open spec fn chosen<T>(t: T) -> bool {
    true
}

/// The outcome of running out of step budget.
pub open spec fn is_budget_err(e: LoxResult) -> bool {
    e matches LoxResult::SystemError { message } && message@
        == "Interpreter step budget exhausted"@
}

/// Budget exhaustion leaves the state untouched.
pub open spec fn budget_stop<T>(pre: Interpreter, post: Interpreter, r: Result<T, LoxResult>) -> bool {
    &&& post == pre
    &&& r matches Err(e) && is_budget_err(e)
}

/// The "undefined variable" error a failed read reports.
pub open spec fn undefined_read_err(e: LoxResult, name: Token) -> bool {
    e matches LoxResult::RuntimeError { token, message } && token == name && message@
        == "Undefined variable '"@ + name.lexeme@ + "'."@
}

/// The "Undefined Variable" error a failed assignment reports.
pub open spec fn undefined_assign_err(e: LoxResult, name: Token) -> bool {
    e matches LoxResult::RuntimeError { token, message } && token == name && message@
        == "Undefined Variable '"@ + name.lexeme@ + "'."@
}

/// The arity-mismatch error of the call protocol.
pub open spec fn arity_err(e: LoxResult, paren: Token, want: int, got: int) -> bool {
    e matches LoxResult::RuntimeError { token, message } && token == paren && message@
        == "Expected "@ + decimal_text(want) + " arguments but got "@ + decimal_text(got) + "."@
}

/// The error of calling a value that is not callable.
pub open spec fn not_callable_err(e: LoxResult, paren: Token) -> bool {
    e matches LoxResult::RuntimeError { token, message } && token == paren && message@
        == "Can only call functions and classes."@
}

/// The fields no evaluation step may change except where a relation says
/// otherwise: current frame, nest, globals, table, reports.
pub open spec fn same_misc(pre: Interpreter, post: Interpreter) -> bool {
    &&& post.environment == pre.environment
    &&& post.nest == pre.nest
    &&& post.globals == pre.globals
    &&& post.locals@ == pre.locals@
    &&& post.reports@ == pre.reports@
}

/// The same observable state: frames, current frame, nest, table,
/// output and reports all agree (frame stores compared by contents).
pub open spec fn state_like(pre: Interpreter, post: Interpreter) -> bool {
    &&& post.env.frames@ == pre.env.frames@
    &&& same_misc(pre, post)
    &&& post.output@ == pre.output@
}

/// The same interpreter with another current frame.
pub open spec fn with_env(it: Interpreter, environment: usize) -> Interpreter {
    Interpreter { environment, ..it }
}

/// The same interpreter with another nesting counter.
pub open spec fn with_nest(it: Interpreter, nest: u64) -> Interpreter {
    Interpreter { nest, ..it }
}

/// The effect of binding `name` to `value` in frame `frame` alone:
/// everything else, output included, is untouched.
pub open spec fn define_effect(
    pre: Interpreter,
    post: Interpreter,
    frame: usize,
    name: String,
    value: Object,
) -> bool {
    &&& (frame as int) < pre.env.frames@.len()
    &&& post.env.frames@.len() == pre.env.frames@.len()
    &&& forall|k: int|
        0 <= k < pre.env.frames@.len() && k != frame ==> #[trigger] post.env.frames@[k]
            == pre.env.frames@[k]
    &&& post.env.frames@[frame as int].enclosing == pre.env.frames@[frame as int].enclosing
    &&& post.env.frames@[frame as int].values@ == pre.env.frames@[frame as int].values@.push(
        (name, value),
    )
    &&& same_misc(pre, post)
    &&& post.output@ == pre.output@
}

/// The effect of appending one fresh empty frame enclosed by `enclosing`.
pub open spec fn new_frame_effect(pre: Interpreter, post: Interpreter, enclosing: usize) -> bool {
    &&& post.env.frames@.len() == pre.env.frames@.len() + 1
    &&& forall|k: int|
        0 <= k < pre.env.frames@.len() ==> #[trigger] post.env.frames@[k] == pre.env.frames@[k]
    &&& post.env.frames@.last().values@.len() == 0
    &&& post.env.frames@.last().enclosing == Some(enclosing)
    &&& same_misc(pre, post)
    &&& post.output@ == pre.output@
}

/// The effect of rebinding `name` where the dynamic walk from the current
/// frame finds it (the walk's defining frame `j`): frame `j`'s binding
/// now reads `value`, other names and frames are untouched.
pub open spec fn dynamic_assign_effect(
    pre: Interpreter,
    post: Interpreter,
    name: Seq<char>,
    value: Object,
) -> bool {
    let j = chain_defining_frame(pre.env.frames@, pre.environment as int, name);
    &&& j >= 0
    &&& post.env.frames@.len() == pre.env.frames@.len()
    &&& forall|k: int|
        0 <= k < pre.env.frames@.len() && k != j ==> #[trigger] post.env.frames@[k]
            == pre.env.frames@[k]
    &&& post.env.frames@[j].enclosing == pre.env.frames@[j].enclosing
    &&& post.env.frames@[j].values@.len() == pre.env.frames@[j].values@.len()
    &&& chain_lookup(post.env.frames@, pre.environment as int, name) == Some(value)
    &&& forall|other: Seq<char>|
        other != name ==> chain_lookup(post.env.frames@, pre.environment as int, other)
            == chain_lookup(pre.env.frames@, pre.environment as int, other)
    &&& same_misc(pre, post)
    &&& post.output@ == pre.output@
}

/// The effect of rebinding `name` in the frame `distance` hops above the
/// current frame, with no search in between.
pub open spec fn resolved_assign_effect(
    pre: Interpreter,
    post: Interpreter,
    distance: usize,
    name: Seq<char>,
    value: Object,
) -> bool {
    let a = ancestor_frame(pre.env.frames@, pre.environment as int, distance as nat);
    &&& a >= 0
    &&& post.env.frames@.len() == pre.env.frames@.len()
    &&& forall|k: int|
        0 <= k < pre.env.frames@.len() && k != a ==> #[trigger] post.env.frames@[k]
            == pre.env.frames@[k]
    &&& post.env.frames@[a].enclosing == pre.env.frames@[a].enclosing
    &&& frame_lookup(post.env.frames@[a].values@, name) == Some(value)
    &&& forall|other: Seq<char>|
        other != name ==> frame_lookup(post.env.frames@[a].values@, other) == frame_lookup(
            pre.env.frames@[a].values@,
            other,
        )
    &&& same_misc(pre, post)
    &&& post.output@ == pre.output@
}

/// Unary operator semantics on a value: `-` negates a number and is
/// leniently nil on anything else; `!` negates truthiness; other operator
/// kinds report a generic error at the operator's line.
pub open spec fn unary_rel(op: Token, right: Object, r: Result<Object, LoxResult>) -> bool {
    &&& op.ttype == TokenType::Minus ==> match right {
        Object::Num(n) => r == Ok::<Object, LoxResult>(Object::Num(negated_bits(n))),
        _ => r == Ok::<Object, LoxResult>(Object::Nil),
    }
    &&& op.ttype == TokenType::Bang ==> r == Ok::<Object, LoxResult>(Object::Bool(!truthy(right)))
    &&& !(op.ttype == TokenType::Minus || op.ttype == TokenType::Bang) ==> (r matches Err(
        LoxResult::LoxError { line, message },
    ) && line == op.line && message@ == "Unreachable"@)
}

/// The "Illegal expression" error at the operator token.
pub open spec fn illegal_expression(r: Result<Object, LoxResult>, op: Token) -> bool {
    r matches Err(LoxResult::RuntimeError { token, message }) && token == op && message@
        == "Illegal expression"@
}

/// Binary operator semantics on two values, decided by their runtime
/// types alone: IEEE-754 arithmetic, ordering and equality on numbers;
/// textual concatenation of a string and a number in either order;
/// structural string concatenation and equality; boolean equality; nil
/// equal only to nil; every other pairing, and every operator a pairing
/// does not support, is the "Illegal expression" runtime error.
pub open spec fn binary_rel(op: Token, left: Object, right: Object, r: Result<
    Object,
    LoxResult,
>) -> bool {
    &&& left matches Object::Num(a) ==> (right matches Object::Num(b) ==> match op.ttype {
        TokenType::Minus => r == Ok::<Object, LoxResult>(Object::Num(diff_bits(a, b))),
        TokenType::Slash => r == Ok::<Object, LoxResult>(Object::Num(quot_bits(a, b))),
        TokenType::Star => r == Ok::<Object, LoxResult>(Object::Num(prod_bits(a, b))),
        TokenType::Plus => r == Ok::<Object, LoxResult>(Object::Num(sum_bits(a, b))),
        TokenType::Greater => r == Ok::<Object, LoxResult>(Object::Bool(num_lt(b, a))),
        TokenType::GreaterEqual => r == Ok::<Object, LoxResult>(Object::Bool(num_le(b, a))),
        TokenType::Less => r == Ok::<Object, LoxResult>(Object::Bool(num_lt(a, b))),
        TokenType::LessEqual => r == Ok::<Object, LoxResult>(Object::Bool(num_le(a, b))),
        TokenType::BangEqual => r == Ok::<Object, LoxResult>(Object::Bool(!num_eq(a, b))),
        TokenType::Equals => r == Ok::<Object, LoxResult>(Object::Bool(num_eq(a, b))),
        _ => illegal_expression(r, op),
    })
    &&& left matches Object::Str(s) ==> (right matches Object::Num(b) ==> match op.ttype {
        TokenType::Plus => r matches Ok(o) && o matches Object::Str(t) && t@ == s@ + text_of_bits(
            b,
        ),
        _ => illegal_expression(r, op),
    })
    &&& left matches Object::Num(a) ==> (right matches Object::Str(s) ==> match op.ttype {
        TokenType::Plus => r matches Ok(o) && o matches Object::Str(t) && t@ == text_of_bits(a)
            + s@,
        _ => illegal_expression(r, op),
    })
    &&& left matches Object::Str(s1) ==> (right matches Object::Str(s2) ==> match op.ttype {
        TokenType::Plus => r matches Ok(o) && o matches Object::Str(t) && t@ == s1@ + s2@,
        TokenType::BangEqual => r == Ok::<Object, LoxResult>(Object::Bool(s1@ != s2@)),
        TokenType::Equals => r == Ok::<Object, LoxResult>(Object::Bool(s1@ == s2@)),
        _ => illegal_expression(r, op),
    })
    &&& left matches Object::Bool(b1) ==> (right matches Object::Bool(b2) ==> match op.ttype {
        TokenType::BangEqual => r == Ok::<Object, LoxResult>(Object::Bool(b1 != b2)),
        TokenType::Equals => r == Ok::<Object, LoxResult>(Object::Bool(b1 == b2)),
        _ => illegal_expression(r, op),
    })
    &&& left is Nil && right is Nil ==> match op.ttype {
        TokenType::BangEqual => r == Ok::<Object, LoxResult>(Object::Bool(false)),
        TokenType::Equals => r == Ok::<Object, LoxResult>(Object::Bool(true)),
        _ => illegal_expression(r, op),
    }
    &&& left is Nil && !(right is Nil) ==> match op.ttype {
        TokenType::BangEqual => r == Ok::<Object, LoxResult>(Object::Bool(true)),
        TokenType::Equals => r == Ok::<Object, LoxResult>(Object::Bool(false)),
        _ => illegal_expression(r, op),
    }
    &&& !(left is Nil) && right is Nil && !(left is Num && right is Num) && !(left is Str && right
        is Num) && !(left is Num && right is Str) && !(left is Str && right is Str) && !(left
        is Bool && right is Bool) ==> match op.ttype {
        TokenType::BangEqual => r == Ok::<Object, LoxResult>(Object::Bool(true)),
        TokenType::Equals => r == Ok::<Object, LoxResult>(Object::Bool(false)),
        _ => illegal_expression(r, op),
    }
    &&& !(left is Num && right is Num) && !(left is Str && right is Num) && !(left is Num && right
        is Str) && !(left is Str && right is Str) && !(left is Bool && right is Bool) && !(left
        is Nil) && !(right is Nil) ==> illegal_expression(r, op)
}

/// One expression evaluated with the given budget: the dispatch level of
/// the semantics. Fuel 0 stops with the budget error; literals and
/// variable reads complete directly; every other node hands its visitor
/// one unit less.
pub open spec fn eval_r(
    pre: Interpreter,
    expr: Expr,
    fuel: nat,
    post: Interpreter,
    r: Result<Object, LoxResult>,
) -> bool
    decreases fuel, 0int, 0int,
{
    if fuel == 0 {
        budget_stop(pre, post, r)
    } else {
        match expr {
            Expr::Assign(e) => assign_step_r(pre, e, (fuel - 1) as nat, post, r),
            Expr::Binary(e) => binary_step_r(pre, e, (fuel - 1) as nat, post, r),
            Expr::Call(e) => call_step_r(pre, e, (fuel - 1) as nat, post, r),
            Expr::Grouping(e) => grouping_step_r(pre, e, (fuel - 1) as nat, post, r),
            Expr::Literal(e) => post == pre && r == Ok::<Object, LoxResult>(
                literal_value(e.value),
            ),
            Expr::Logical(e) => logical_step_r(pre, e, (fuel - 1) as nat, post, r),
            Expr::Unary(e) => unary_step_r(pre, e, (fuel - 1) as nat, post, r),
            Expr::Variable(e) => post == pre && match r {
                Ok(v) => variable_value(pre, e.id, e.name.lexeme@) == Some(v),
                Err(err) => variable_value(pre, e.id, e.name.lexeme@) is None
                    && undefined_read_err(err, e.name),
            },
        }
    }
}

/// One statement executed with the given budget: the dispatch level.
pub open spec fn exec_r(
    pre: Interpreter,
    stmt: Stmt,
    fuel: nat,
    post: Interpreter,
    r: Result<(), LoxResult>,
) -> bool
    decreases fuel, 0int, 0int,
{
    if fuel == 0 {
        budget_stop(pre, post, r)
    } else {
        match stmt {
            Stmt::Block(s) => block_step_r(pre, s.statements@, (fuel - 1) as nat, post, r),
            Stmt::Break(s) => {
                &&& post == pre
                &&& pre.nest == 0 ==> (r matches Err(LoxResult::RuntimeError { token, message })
                    && token == s.token && message@ == "Break outside of while/for loop."@)
                &&& pre.nest > 0 ==> r == Err::<(), LoxResult>(LoxResult::Break)
            },
            Stmt::Expression(s) => expression_step_r(pre, *s.expression, (fuel - 1) as nat, post, r),
            Stmt::Function(s) => function_step_r(pre, s, post, r),
            Stmt::If(s) => if_step_r(pre, s, (fuel - 1) as nat, post, r),
            Stmt::Print(s) => print_step_r(pre, *s.expression, (fuel - 1) as nat, post, r),
            Stmt::Return(s) => return_step_r(pre, s, (fuel - 1) as nat, post, r),
            Stmt::Var(s) => var_step_r(pre, s, (fuel - 1) as nat, post, r),
            Stmt::While(s) => while_step_r(pre, s, (fuel - 1) as nat, post, r),
        }
    }
}

/// Grouping evaluates its inner expression.
pub open spec fn grouping_step_r(
    pre: Interpreter,
    e: GroupingExpr,
    fuel: nat,
    post: Interpreter,
    r: Result<Object, LoxResult>,
) -> bool
    decreases fuel, 3int, 0int,
{
    if fuel == 0 {
        budget_stop(pre, post, r)
    } else {
        eval_r(pre, *e.expression, (fuel - 1) as nat, post, r)
    }
}

/// Unary evaluates its operand, then applies the operator semantics.
pub open spec fn unary_step_r(
    pre: Interpreter,
    e: UnaryExpr,
    fuel: nat,
    post: Interpreter,
    r: Result<Object, LoxResult>,
) -> bool
    decreases fuel, 3int, 0int,
{
    if fuel == 0 {
        budget_stop(pre, post, r)
    } else {
        exists|mid: Interpreter, r1: Result<Object, LoxResult>|
            #![trigger chosen((mid, r1))]
            {
                &&& chosen((mid, r1))
                &&& chosen((mid, r1))
                &&& chosen((mid, r1))
                &&& chosen((mid, r1))
                &&& chosen((mid, r1))
                &&& chosen((mid, r1))
                &&& eval_r(pre, *e.right, (fuel - 1) as nat, mid, r1)
                &&& match r1 {
                    Err(_) => post == mid && r == r1,
                    Ok(v) => post == mid && unary_rel(e.operator, v, r),
                }
            }
    }
}

/// Binary evaluates left then right, then applies the operator table.
pub open spec fn binary_step_r(
    pre: Interpreter,
    e: BinaryExpr,
    fuel: nat,
    post: Interpreter,
    r: Result<Object, LoxResult>,
) -> bool
    decreases fuel, 3int, 0int,
{
    if fuel == 0 {
        budget_stop(pre, post, r)
    } else {
        exists|mid1: Interpreter, r1: Result<Object, LoxResult>|
            #![trigger chosen((mid1, r1))]
            {
                &&& chosen((mid1, r1))
                &&& chosen((mid1, r1))
                &&& eval_r(pre, *e.left, (fuel - 1) as nat, mid1, r1)
                &&& match r1 {
                    Err(_) => post == mid1 && r == r1,
                    Ok(lv) => exists|mid2: Interpreter, r2: Result<Object, LoxResult>|
                        #![trigger chosen((mid2, r2))]
                        {
                            &&& chosen((mid2, r2))
                            &&& eval_r(mid1, *e.right, (fuel - 1) as nat, mid2, r2)
                            &&& match r2 {
                                Err(_) => post == mid2 && r == r2,
                                Ok(rv) => post == mid2 && binary_rel(e.operator, lv, rv, r),
                            }
                        },
                }
            }
    }
}

/// Logical evaluates the left operand, short-circuits on its truthiness
/// — `or` stops on truthy, anything else (`and`) stops on falsy —
/// yielding that operand's own value, else yields the right operand's
/// evaluation.
pub open spec fn logical_step_r(
    pre: Interpreter,
    e: LogicalExpr,
    fuel: nat,
    post: Interpreter,
    r: Result<Object, LoxResult>,
) -> bool
    decreases fuel, 3int, 0int,
{
    if fuel == 0 {
        budget_stop(pre, post, r)
    } else {
        exists|mid: Interpreter, r1: Result<Object, LoxResult>|
            #![trigger chosen((mid, r1))]
            {
                &&& eval_r(pre, *e.left, (fuel - 1) as nat, mid, r1)
                &&& match r1 {
                    Err(_) => post == mid && r == r1,
                    Ok(lv) => if (e.operator.ttype == TokenType::Or && truthy(lv)) || (
                    e.operator.ttype != TokenType::Or && !truthy(lv)) {
                        post == mid && r == Ok::<Object, LoxResult>(lv)
                    } else {
                        eval_r(mid, *e.right, (fuel - 1) as nat, post, r)
                    },
                }
            }
    }
}

/// Assignment evaluates the value, rebinds the target — through the
/// resolution table when this node is recorded there, dynamically
/// otherwise — and yields the assigned value.
pub open spec fn assign_step_r(
    pre: Interpreter,
    e: AssignExpr,
    fuel: nat,
    post: Interpreter,
    r: Result<Object, LoxResult>,
) -> bool
    decreases fuel, 3int, 0int,
{
    if fuel == 0 {
        budget_stop(pre, post, r)
    } else {
        exists|mid: Interpreter, r1: Result<Object, LoxResult>|
            #![trigger chosen((mid, r1))]
            {
                &&& eval_r(pre, *e.value, (fuel - 1) as nat, mid, r1)
                &&& match r1 {
                    Err(_) => post == mid && r == r1,
                    Ok(v) => match locals_distance(mid.locals@, e.id) {
                        Some(d) => {
                            let a = ancestor_frame(
                                mid.env.frames@,
                                mid.environment as int,
                                d as nat,
                            );
                            if a >= 0 && frame_lookup(
                                mid.env.frames@[a].values@,
                                e.name.lexeme@,
                            ) is Some {
                                &&& resolved_assign_effect(mid, post, d, e.name.lexeme@, v)
                                &&& r == Ok::<Object, LoxResult>(v)
                            } else {
                                &&& state_like(mid, post)
                                &&& r matches Err(err) && undefined_read_err(err, e.name)
                            }
                        },
                        None => {
                            if chain_defining_frame(
                                mid.env.frames@,
                                mid.environment as int,
                                e.name.lexeme@,
                            ) >= 0 {
                                &&& dynamic_assign_effect(mid, post, e.name.lexeme@, v)
                                &&& r == Ok::<Object, LoxResult>(v)
                            } else {
                                &&& state_like(mid, post)
                                &&& r matches Err(err) && undefined_assign_err(err, e.name)
                            }
                        },
                    },
                }
            }
    }
}

/// The first `i` arguments evaluated left to right, all successfully,
/// yielding the value sequence `vals`.
pub open spec fn args_fwd(
    pre: Interpreter,
    exprs: Seq<Expr>,
    i: int,
    fuel: nat,
    post: Interpreter,
    vals: Seq<Object>,
) -> bool
    decreases fuel, 1int, i,
{
    if i < 0 {
        false
    } else if i == 0 {
        post == pre && vals == Seq::<Object>::empty()
    } else {
        &&& vals.len() == i
        &&& exists|mid: Interpreter|
            #![trigger chosen((mid,))]
            {
                &&& chosen((mid,))
                &&& chosen((mid,))
                &&& args_fwd(pre, exprs, i - 1, fuel, mid, vals.drop_last())
                &&& eval_r(mid, exprs[i - 1], fuel, post, Ok(vals.last()))
            }
    }
}

/// A call evaluates the callee, then the arguments left to right —
/// stopping at the first failing argument — then dispatches on the
/// callee.
pub open spec fn call_step_r(
    pre: Interpreter,
    e: CallExpr,
    fuel: nat,
    post: Interpreter,
    r: Result<Object, LoxResult>,
) -> bool
    decreases fuel, 3int, 0int,
{
    if fuel == 0 {
        budget_stop(pre, post, r)
    } else {
        exists|mid1: Interpreter, r1: Result<Object, LoxResult>|
            #![trigger chosen((mid1, r1))]
            {
                &&& eval_r(pre, *e.callee, (fuel - 1) as nat, mid1, r1)
                &&& match r1 {
                    Err(_) => post == mid1 && r == r1,
                    Ok(callee) => {
                        ||| exists|mid2: Interpreter, vals: Seq<Object>|
                            #![trigger chosen((mid2, vals))]
                            {
                                &&& chosen((mid2, vals))
                                &&& args_fwd(
                                    mid1,
                                    e.arguments@,
                                    e.arguments@.len() as int,
                                    (fuel - 1) as nat,
                                    mid2,
                                    vals,
                                )
                                &&& call_obj_r(
                                    mid2,
                                    callee,
                                    vals,
                                    e.paren,
                                    (fuel - 1) as nat,
                                    post,
                                    r,
                                )
                            }
                        ||| exists|i: int, mid2: Interpreter, vals: Seq<Object>, err: LoxResult|
                            #![trigger chosen((i, mid2, vals, err))]
                            {
                                &&& chosen((i, mid2, vals, err))
                                &&& 0 <= i < e.arguments@.len()
                                &&& args_fwd(mid1, e.arguments@, i, (fuel - 1) as nat, mid2, vals)
                                &&& eval_r(
                                    mid2,
                                    e.arguments@[i],
                                    (fuel - 1) as nat,
                                    post,
                                    Err(err),
                                )
                                &&& r == Err::<Object, LoxResult>(err)
                            }
                    },
                }
            }
    }
}

/// Introduction form for `call_step_r`'s failing-argument case: from the
/// callee's evaluation, a successful argument prefix, and one failing
/// argument, the call relation follows.
pub proof fn lemma_call_step_arg_err(
    pre: Interpreter,
    e: CallExpr,
    fuel: nat,
    mid1: Interpreter,
    callee: Object,
    i: int,
    mid2: Interpreter,
    vals: Seq<Object>,
    err: LoxResult,
    post: Interpreter,
    r: Result<Object, LoxResult>,
)
    requires
        fuel > 0,
        eval_r(pre, *e.callee, (fuel - 1) as nat, mid1, Ok(callee)),
        0 <= i < e.arguments@.len(),
        args_fwd(mid1, e.arguments@, i, (fuel - 1) as nat, mid2, vals),
        eval_r(mid2, e.arguments@[i], (fuel - 1) as nat, post, Err(err)),
        r == Err::<Object, LoxResult>(err),
    ensures
        call_step_r(pre, e, fuel, post, r),
{
    assert(chosen((i, mid2, vals, err)));
    assert(chosen((mid1, Ok::<Object, LoxResult>(callee))));
}

/// Introduction form for `call_step_r`'s completed-arguments case.
pub proof fn lemma_call_step_done(
    pre: Interpreter,
    e: CallExpr,
    fuel: nat,
    mid1: Interpreter,
    callee: Object,
    mid2: Interpreter,
    vals: Seq<Object>,
    post: Interpreter,
    r: Result<Object, LoxResult>,
)
    requires
        fuel > 0,
        eval_r(pre, *e.callee, (fuel - 1) as nat, mid1, Ok(callee)),
        args_fwd(mid1, e.arguments@, e.arguments@.len() as int, (fuel - 1) as nat, mid2, vals),
        call_obj_r(mid2, callee, vals, e.paren, (fuel - 1) as nat, post, r),
    ensures
        call_step_r(pre, e, fuel, post, r),
{
    assert(chosen((mid2, vals)));
    assert(chosen((mid1, Ok::<Object, LoxResult>(callee))));
}

/// The call protocol on an evaluated callee and argument values: only
/// functions, classes and the native clock are callable; the argument
/// count must equal the arity; a class call yields a fresh instance; the
/// clock yields some number.
pub open spec fn call_obj_r(
    pre: Interpreter,
    callee: Object,
    args: Seq<Object>,
    paren: Token,
    fuel: nat,
    post: Interpreter,
    r: Result<Object, LoxResult>,
) -> bool
    decreases fuel, 3int, 0int,
{
    match callee {
        Object::Func(f) => {
            if args.len() != f.params@.len() {
                &&& post == pre
                &&& r matches Err(e) && arity_err(
                    e,
                    paren,
                    f.params@.len() as int,
                    args.len() as int,
                )
            } else if fuel == 0 {
                budget_stop(pre, post, r)
            } else {
                call_fun_r(pre, f, args, (fuel - 1) as nat, post, r)
            }
        },
        Object::Class(c) => {
            if args.len() != 0 {
                &&& post == pre
                &&& r matches Err(e) && arity_err(e, paren, 0, args.len() as int)
            } else {
                &&& post == pre
                &&& r matches Ok(o) && o matches Object::Instance(inst) && inst.klass == c
            }
        },
        Object::Native(_) => {
            if args.len() != 0 {
                &&& post == pre
                &&& r matches Err(e) && arity_err(e, paren, 0, args.len() as int)
            } else {
                &&& post == pre
                &&& r matches Ok(o) && o is Num
                &&& r matches Ok(o) && exists|m: u64| o == Object::Num(
                    #[trigger] crate::number::double_of_int(m),
                )
            }
        },
        _ => {
            &&& post == pre
            &&& r matches Err(e) && not_callable_err(e, paren)
        },
    }
}

/// Introduction form for `call_obj_r`'s user-function case with matching
/// arity and budget left.
pub proof fn lemma_call_obj_fun(
    pre: Interpreter,
    f: Rc<LoxFunction>,
    args: Seq<Object>,
    paren: Token,
    fuel: nat,
    post: Interpreter,
    r: Result<Object, LoxResult>,
)
    requires
        args.len() == f.params@.len(),
        fuel > 0,
        call_fun_r(pre, f, args, (fuel - 1) as nat, post, r),
    ensures
        call_obj_r(pre, Object::Func(f), args, paren, fuel, post, r),
{
}

/// The fresh call frame: one new frame enclosed by the function's
/// captured closure frame — never the caller's — with each parameter
/// bound positionally to its argument.
pub open spec fn params_bound(
    pre: Interpreter,
    post: Interpreter,
    f: Rc<LoxFunction>,
    args: Seq<Object>,
) -> bool {
    let n = pre.env.frames@.len() as int;
    &&& post.env.frames@.len() == n + 1
    &&& forall|k: int| 0 <= k < n ==> #[trigger] post.env.frames@[k] == pre.env.frames@[k]
    &&& post.env.frames@[n].enclosing == Some(f.closure)
    &&& post.env.frames@[n].values@.len() == f.params@.len()
    &&& forall|i: int|
        0 <= i < f.params@.len() ==> #[trigger] post.env.frames@[n].values@[i] == (
        f.params@[i].lexeme,
        args[i],
        )
    &&& same_misc(pre, post)
    &&& post.output@ == pre.output@
}

/// Invoking a user function: the fresh parameter frame, the body run
/// there as a block, an intercepted `ReturnValue` yielding its payload,
/// nil on falling off the end; any other failure passes through.
pub open spec fn call_fun_r(
    pre: Interpreter,
    f: Rc<LoxFunction>,
    args: Seq<Object>,
    fuel: nat,
    post: Interpreter,
    r: Result<Object, LoxResult>,
) -> bool
    decreases fuel, 3int, 0int,
{
    if fuel == 0 {
        budget_stop(pre, post, r)
    } else if f.closure >= pre.env.frames@.len() {
        &&& post == pre
        &&& r matches Err(LoxResult::SystemError { message }) && message@
            == "Function closed over an unknown frame"@
    } else {
        exists|mid: Interpreter, frame: usize, br: Result<(), LoxResult>|
            #![trigger chosen((mid, frame, br))]
            {
                &&& chosen((mid, frame, br))
                &&& frame == pre.env.frames@.len()
                &&& params_bound(pre, mid, f, args)
                &&& block_r(mid, f.body@, frame, (fuel - 1) as nat, post, br)
                &&& match br {
                    Ok(_) => r == Ok::<Object, LoxResult>(Object::Nil),
                    Err(LoxResult::ReturnValue { value }) => r == Ok::<Object, LoxResult>(value),
                    Err(e) => r == Err::<Object, LoxResult>(e),
                }
            }
    }
}

/// The first `i` statements of a sequence executed in order, all
/// successfully.
pub open spec fn ran_prefix(
    pre: Interpreter,
    stmts: Seq<Stmt>,
    i: int,
    fuel: nat,
    post: Interpreter,
) -> bool
    decreases fuel, 1int, i,
{
    if i < 0 {
        false
    } else if i == 0 {
        post == pre
    } else {
        exists|mid: Interpreter|
            #![trigger chosen((mid,))]
            {
                &&& ran_prefix(pre, stmts, i - 1, fuel, mid)
                &&& exec_r(mid, stmts[i - 1], fuel, post, Ok(()))
            }
    }
}

/// A statement sequence run to completion or to its first failure, each
/// statement at the same budget.
pub open spec fn block_items_r(
    pre: Interpreter,
    stmts: Seq<Stmt>,
    fuel: nat,
    post: Interpreter,
    r: Result<(), LoxResult>,
) -> bool
    decreases fuel, 2int, 0int,
{
    match r {
        Ok(_) => ran_prefix(pre, stmts, stmts.len() as int, fuel, post),
        Err(e) => exists|i: int, mid: Interpreter|
            #![trigger chosen((i, mid))]
            {
                &&& chosen((i, mid))
                &&& 0 <= i < stmts.len()
                &&& ran_prefix(pre, stmts, i, fuel, mid)
                &&& exec_r(mid, stmts[i], fuel, post, Err(e))
            },
    }
}

/// A statement sequence run with `frame` as the current frame, the
/// previous current frame restored on every exit path.
pub open spec fn block_r(
    pre: Interpreter,
    stmts: Seq<Stmt>,
    frame: usize,
    fuel: nat,
    post: Interpreter,
    r: Result<(), LoxResult>,
) -> bool
    decreases fuel, 3int, 0int,
{
    if fuel == 0 {
        budget_stop(pre, post, r)
    } else {
        exists|inner: Interpreter|
            #![trigger chosen((inner,))]
            {
                &&& chosen((inner,))
                &&& block_items_r(with_env(pre, frame), stmts, (fuel - 1) as nat, inner, r)
                &&& post == with_env(inner, pre.environment)
            }
    }
}

/// A block statement: a fresh frame enclosed by the current one, the
/// body run there.
pub open spec fn block_step_r(
    pre: Interpreter,
    stmts: Seq<Stmt>,
    fuel: nat,
    post: Interpreter,
    r: Result<(), LoxResult>,
) -> bool
    decreases fuel, 4int, 0int,
{
    if fuel == 0 {
        budget_stop(pre, post, r)
    } else {
        exists|mid: Interpreter, frame: usize|
            #![trigger chosen((mid, frame))]
            {
                &&& chosen((mid, frame))
                &&& frame == pre.env.frames@.len()
                &&& new_frame_effect(pre, mid, pre.environment)
                &&& block_r(mid, stmts, frame, (fuel - 1) as nat, post, r)
            }
    }
}

/// An expression statement evaluates and discards.
pub open spec fn expression_step_r(
    pre: Interpreter,
    e: Expr,
    fuel: nat,
    post: Interpreter,
    r: Result<(), LoxResult>,
) -> bool
    decreases fuel, 3int, 0int,
{
    if fuel == 0 {
        budget_stop(pre, post, r)
    } else {
        exists|r1: Result<Object, LoxResult>|
            #![trigger chosen((r1,))]
            {
                &&& chosen((r1,))
                &&& chosen((r1,))
                &&& eval_r(pre, e, (fuel - 1) as nat, post, r1)
                &&& match r1 {
                    Ok(_) => r == Ok::<(), LoxResult>(()),
                    Err(err) => r == Err::<(), LoxResult>(err),
                }
            }
    }
}

/// A function declaration binds, under the function's name in the
/// current frame, a function value sharing the declaration's parameters
/// and body and capturing the current frame as its closure.
pub open spec fn function_step_r(
    pre: Interpreter,
    s: FunctionStmt,
    post: Interpreter,
    r: Result<(), LoxResult>,
) -> bool {
    &&& r == Ok::<(), LoxResult>(())
    &&& exists|g: Rc<LoxFunction>|
        #![trigger chosen((g,))]
        {
            &&& chosen((g,))
            &&& g.name == s.name
            &&& g.params == s.params
            &&& g.body == s.body
            &&& g.closure == pre.environment
            &&& define_effect(pre, post, pre.environment, s.name.lexeme, Object::Func(g))
        }
}

/// `if` evaluates the condition and executes exactly one branch,
/// selected by the condition's truthiness; a missing else branch is a
/// no-op.
pub open spec fn if_step_r(
    pre: Interpreter,
    s: crate::stmt::IfStmt,
    fuel: nat,
    post: Interpreter,
    r: Result<(), LoxResult>,
) -> bool
    decreases fuel, 3int, 0int,
{
    if fuel == 0 {
        budget_stop(pre, post, r)
    } else {
        exists|mid: Interpreter, r1: Result<Object, LoxResult>|
            #![trigger chosen((mid, r1))]
            {
                &&& eval_r(pre, *s.condition, (fuel - 1) as nat, mid, r1)
                &&& match r1 {
                    Err(err) => post == mid && r == Err::<(), LoxResult>(err),
                    Ok(cv) => if truthy(cv) {
                        exec_r(mid, *s.then_branch, (fuel - 1) as nat, post, r)
                    } else {
                        match s.else_branch {
                            Some(eb) => exec_r(mid, *eb, (fuel - 1) as nat, post, r),
                            None => post == mid && r == Ok::<(), LoxResult>(()),
                        }
                    },
                }
            }
    }
}

/// `print` evaluates its operand and appends exactly the value's
/// rendering to the output; the internal sentinel is refused safely.
pub open spec fn print_step_r(
    pre: Interpreter,
    e: Expr,
    fuel: nat,
    post: Interpreter,
    r: Result<(), LoxResult>,
) -> bool
    decreases fuel, 3int, 0int,
{
    if fuel == 0 {
        budget_stop(pre, post, r)
    } else {
        exists|mid: Interpreter, r1: Result<Object, LoxResult>|
            #![trigger chosen((mid, r1))]
            {
                &&& eval_r(pre, e, (fuel - 1) as nat, mid, r1)
                &&& match r1 {
                    Err(err) => post == mid && r == Err::<(), LoxResult>(err),
                    Ok(v) => if v is ArithmeticError {
                        &&& post == mid
                        &&& r matches Err(LoxResult::SystemError { message }) && message@
                            == "Tried to print an internal sentinel"@
                    } else {
                        &&& post.env == mid.env
                        &&& same_misc(mid, post)
                        &&& exists|line: String|
                            #![trigger chosen((line,))]
                            {
                                &&& chosen((line,))
                                &&& post.output@ == mid.output@.push(line)
                                &&& line@ == object_text(v)
                            }
                        &&& r == Ok::<(), LoxResult>(())
                    },
                }
            }
    }
}

/// `return` raises the `ReturnValue` signal carrying the operand's value
/// (nil when the operand is absent); an operand failure passes through.
pub open spec fn return_step_r(
    pre: Interpreter,
    s: crate::stmt::ReturnStmt,
    fuel: nat,
    post: Interpreter,
    r: Result<(), LoxResult>,
) -> bool
    decreases fuel, 3int, 0int,
{
    match s.value {
        None => post == pre && r == Err::<(), LoxResult>(
            LoxResult::ReturnValue { value: Object::Nil },
        ),
        Some(e) => if fuel == 0 {
            budget_stop(pre, post, r)
        } else {
            exists|r1: Result<Object, LoxResult>|
                #![trigger chosen((r1,))]
                {
                    &&& eval_r(pre, *e, (fuel - 1) as nat, post, r1)
                    &&& match r1 {
                        Ok(v) => r == Err::<(), LoxResult>(LoxResult::ReturnValue { value: v }),
                        Err(err) => r == Err::<(), LoxResult>(err),
                    }
                }
        },
    }
}

/// `var` binds the name in the current frame to the initializer's value,
/// nil when the initializer is absent; an initializer failure binds
/// nothing.
pub open spec fn var_step_r(
    pre: Interpreter,
    s: VarStmt,
    fuel: nat,
    post: Interpreter,
    r: Result<(), LoxResult>,
) -> bool
    decreases fuel, 3int, 0int,
{
    if fuel == 0 {
        budget_stop(pre, post, r)
    } else {
        match s.initializer {
            Some(init) => exists|mid: Interpreter, r1: Result<Object, LoxResult>|
                #![trigger chosen((mid, r1))]
                {
                    &&& eval_r(pre, *init, (fuel - 1) as nat, mid, r1)
                    &&& match r1 {
                        Err(err) => post == mid && r == Err::<(), LoxResult>(err),
                        Ok(v) => {
                            &&& define_effect(mid, post, mid.environment, s.name.lexeme, v)
                            &&& r == Ok::<(), LoxResult>(())
                        },
                    }
                },
            None => {
                &&& define_effect(pre, post, pre.environment, s.name.lexeme, Object::Nil)
                &&& r == Ok::<(), LoxResult>(())
            },
        }
    }
}

/// `k` completed loop iterations: for each, the condition evaluated
/// truthy and the body ran without a signal, iteration `j` (1-based)
/// holding budget `r0 - j`.
pub open spec fn while_iters(
    pre: Interpreter,
    s: WhileStmt,
    r0: nat,
    k: nat,
    post: Interpreter,
) -> bool
    decreases r0, 1int, k,
{
    if k == 0 {
        post == pre
    } else if r0 < k {
        false
    } else {
        exists|mid1: Interpreter, midc: Interpreter, cv: Object|
            #![trigger chosen((mid1, midc, cv))]
            {
                &&& chosen((mid1, midc, cv))
                &&& while_iters(pre, s, r0, (k - 1) as nat, mid1)
                &&& eval_r(mid1, *s.condition, (r0 - k) as nat, midc, Ok(cv))
                &&& truthy(cv)
                &&& exec_r(midc, *s.body, (r0 - k) as nat, post, Ok(()))
            }
    }
}

/// The whole loop from a state whose nesting counter is already raised:
/// some number of completed iterations, then one of the five exits —
/// budget out, condition falsy (normal end), condition failure, `Break`
/// from the body (swallowed: the loop ends normally), or any other body
/// failure (propagated).
pub open spec fn while_r(
    pre: Interpreter,
    s: WhileStmt,
    r0: nat,
    post: Interpreter,
    r: Result<(), LoxResult>,
) -> bool
    decreases r0, 2int, 0int,
{
    exists|k: nat, mid: Interpreter|
        #![trigger chosen((k, mid))]
        {
            &&& chosen((k, mid))
            &&& k <= r0
            &&& while_iters(pre, s, r0, k, mid)
            &&& ({
                ||| (k == r0 && budget_stop(mid, post, r))
                ||| (k < r0 && exists|midc: Interpreter, cv: Object|
                    #![trigger chosen((midc, cv))]
                    {
                        &&& chosen((midc, cv))
                        &&& eval_r(mid, *s.condition, (r0 - k - 1) as nat, midc, Ok(cv))
                        &&& !truthy(cv)
                        &&& post == midc
                        &&& r == Ok::<(), LoxResult>(())
                    })
                ||| (k < r0 && exists|midc: Interpreter, err: LoxResult|
                    #![trigger chosen((midc, err))]
                    {
                        &&& chosen((midc, err))
                        &&& eval_r(mid, *s.condition, (r0 - k - 1) as nat, midc, Err(err))
                        &&& post == midc
                        &&& r == Err::<(), LoxResult>(err)
                    })
                ||| (k < r0 && exists|midc: Interpreter, cv: Object, mid2: Interpreter|
                    #![trigger chosen((midc, cv, mid2))]
                    {
                        &&& chosen((midc, cv, mid2))
                        &&& eval_r(mid, *s.condition, (r0 - k - 1) as nat, midc, Ok(cv))
                        &&& truthy(cv)
                        &&& exec_r(
                            midc,
                            *s.body,
                            (r0 - k - 1) as nat,
                            mid2,
                            Err(LoxResult::Break),
                        )
                        &&& post == mid2
                        &&& r == Ok::<(), LoxResult>(())
                    })
                ||| (k < r0 && exists|
                    midc: Interpreter,
                    cv: Object,
                    mid2: Interpreter,
                    err: LoxResult,
                |
                    #![trigger chosen((midc, cv, mid2, err))]
                    {
                        &&& chosen((midc, cv, mid2, err))
                        &&& eval_r(mid, *s.condition, (r0 - k - 1) as nat, midc, Ok(cv))
                        &&& truthy(cv)
                        &&& exec_r(midc, *s.body, (r0 - k - 1) as nat, mid2, Err(err))
                        &&& !(err is Break)
                        &&& post == mid2
                        &&& r == Err::<(), LoxResult>(err)
                    })
            })
        }
}

/// `while` opens one loop level around the whole loop and closes it on
/// every exit path; a counter at its cap is refused safely.
pub open spec fn while_step_r(
    pre: Interpreter,
    s: WhileStmt,
    fuel: nat,
    post: Interpreter,
    r: Result<(), LoxResult>,
) -> bool
    decreases fuel, 3int, 0int,
{
    if pre.nest == u64::MAX {
        &&& post == pre
        &&& r matches Err(LoxResult::SystemError { message }) && message@
            == "Loop nesting counter exhausted"@
    } else {
        exists|wpost: Interpreter|
            #![trigger chosen((wpost,))]
            {
                &&& chosen((wpost,))
                &&& while_r(with_nest(pre, (pre.nest + 1) as u64), s, fuel, wpost, r)
                &&& post == with_nest(wpost, pre.nest)
            }
    }
}

/// A whole top-level run: the nesting counter reset, then the statements
/// in order; success reports nothing; the first uncaught outcome of any
/// kind stops the run, its diagnostic line is recorded, and the run
/// counts as failed.
pub open spec fn interpret_r(
    pre: Interpreter,
    stmts: Seq<Stmt>,
    fuel: nat,
    post: Interpreter,
    success: bool,
) -> bool {
    let start = with_nest(pre, 0);
    if success {
        ran_prefix(start, stmts, stmts.len() as int, fuel, post)
    } else {
        exists|i: int, mid: Interpreter, fin: Interpreter, err: LoxResult, line: String|
            #![trigger chosen((i, mid, fin, err, line))]
            {
                &&& chosen((i, mid, fin, err, line))
                &&& 0 <= i < stmts.len()
                &&& ran_prefix(start, stmts, i, fuel, mid)
                &&& exec_r(mid, stmts[i], fuel, fin, Err(err))
                &&& line@ == crate::error::report_text_spec(err)
                &&& post == (Interpreter { reports: post.reports, ..fin })
                &&& post.reports@ == fin.reports@.push(line)
            }
    }
}

} // verus!

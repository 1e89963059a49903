//! The execution engine.
//!
//! The interpreter owns the frame store, the index of the global frame
//! (always 0) and of the current frame, the loop-nesting counter, the
//! resolution table handed over by the resolver, and the print output
//! collected so far (the driver decides where to write it).
//!
//! Every evaluation function carries a step budget (`fuel`) that bounds
//! the depth and length of the run; `interpret` starts with the largest
//! budget a 64-bit counter can hold, so exhausting it is a host-level
//! failure, not a language-level one. Every evaluation function promises
//! `evolves`: well-formedness is kept, no frame is ever dropped and no
//! enclosing link ever changes (what keeps closures alive), the current
//! frame and the nesting counter are restored, and output only grows.
//!
//! `break` and `return` travel as `Err(LoxResult::Break)` and
//! `Err(LoxResult::ReturnValue ..)` through the same channel as errors
//! and are intercepted at their owning boundary: the nearest enclosing
//! `while` swallows `Break`, and a function call converts `ReturnValue`
//! into its result — `call_object` promises that `ReturnValue` never
//! escapes a call.

use crate::environment::ancestor_frame;
use crate::environment::chain_lookup;
use crate::environment::chain_wf;
use crate::environment::frame_index_of;
use crate::environment::frame_lookup;
use crate::environment::EnvChain;
use crate::error::decimal_text;
use crate::error::usize_text;
use crate::error::LoxResult;
use crate::expr::AssignExpr;
use crate::expr::BinaryExpr;
use crate::expr::CallExpr;
use crate::expr::Expr;
use crate::expr::GroupingExpr;
use crate::expr::LiteralExpr;
use crate::expr::LogicalExpr;
use crate::expr::UnaryExpr;
use crate::expr::VariableExpr;
use crate::lox_function::LoxFunction;
use crate::semantics::assign_step_r;
use crate::semantics::binary_rel;
use crate::semantics::binary_step_r;
use crate::semantics::block_r;
use crate::semantics::block_step_r;
use crate::semantics::call_fun_r;
use crate::semantics::chosen;
use crate::semantics::call_obj_r;
use crate::semantics::call_step_r;
use crate::semantics::eval_r;
use crate::semantics::exec_r;
use crate::semantics::expression_step_r;
use crate::semantics::function_step_r;
use crate::semantics::grouping_step_r;
use crate::semantics::if_step_r;
use crate::semantics::illegal_expression;
use crate::semantics::interpret_r;
use crate::semantics::logical_step_r;
use crate::semantics::print_step_r;
use crate::semantics::return_step_r;
use crate::semantics::unary_rel;
use crate::semantics::unary_step_r;
use crate::semantics::var_step_r;
use crate::semantics::while_step_r;
use crate::number::bits_negate;
use crate::number::bits_add;
use crate::number::bits_div;
use crate::number::bits_eq;
use crate::number::bits_le;
use crate::number::bits_lt;
use crate::number::bits_mul;
use crate::number::bits_sub;
use crate::number::bits_to_text;
use crate::number::diff_bits;
use crate::number::negated_bits;
use crate::number::num_eq;
use crate::number::num_le;
use crate::number::num_lt;
use crate::number::prod_bits;
use crate::number::quot_bits;
use crate::number::sum_bits;
use crate::number::text_of_bits;
use crate::object::truthy;
use crate::object::Object;
use crate::stmt::BlockStmt;
use crate::stmt::BreakStmt;
use crate::stmt::ExpressionStmt;
use crate::stmt::FunctionStmt;
use crate::stmt::IfStmt;
use crate::stmt::PrintStmt;
use crate::stmt::ReturnStmt;
use crate::stmt::Stmt;
use crate::stmt::VarStmt;
use crate::stmt::WhileStmt;
use crate::token::Literal;
use crate::token::Token;
use crate::token::TokenType;
use std::rc::Rc;
use vstd::prelude::*;

verus! {

pub struct Interpreter {
    /// The store of every frame of the run.
    pub env: EnvChain,
    /// Index of the global frame: always 0.
    pub globals: usize,
    /// Index of the current frame, swapped on entering a block or call
    /// and restored on every exit path.
    pub environment: usize,
    /// How many `while` loops are dynamically open.
    pub nest: u64,
    /// The resolution table: node identity to lexical distance.
    pub locals: Vec<(usize, usize)>,
    /// What `print` has produced so far, one line per statement.
    pub output: Vec<String>,
    /// The diagnostic lines of errors that reached the top level.
    pub reports: Vec<String>,
}

/// Well-formedness: the frame store is a valid chain and the distinguished
/// indices point into it.
pub open spec fn interp_wf(it: Interpreter) -> bool {
    &&& chain_wf(it.env.frames@)
    &&& it.globals == 0
    &&& (it.environment as int) < it.env.frames@.len()
}

/// No frame is dropped and no enclosing link changes: a frame captured by
/// a closure stays valid, with the same chain above it, for the rest of
/// the run.
pub open spec fn frames_preserved(pre: Seq<crate::environment::Environment>, post: Seq<
    crate::environment::Environment,
>) -> bool {
    &&& post.len() >= pre.len()
    &&& forall|i: int| 0 <= i < pre.len() ==> (#[trigger] post[i]).enclosing == pre[i].enclosing
}

/// What every evaluation step preserves: well-formedness, the captured
/// frames, the current frame, the nesting counter, the resolution table,
/// and everything already printed.
pub open spec fn evolves(pre: Interpreter, post: Interpreter) -> bool {
    &&& interp_wf(post)
    &&& frames_preserved(pre.env.frames@, post.env.frames@)
    &&& post.environment == pre.environment
    &&& post.globals == pre.globals
    &&& post.nest == pre.nest
    &&& post.locals@ == pre.locals@
    &&& pre.output@.is_prefix_of(post.output@)
    &&& post.reports@ == pre.reports@
}

/// Prefixes chain.
pub proof fn lemma_prefix_trans<A>(a: Seq<A>, b: Seq<A>, c: Seq<A>)
    requires
        a.is_prefix_of(b),
        b.is_prefix_of(c),
    ensures
        a.is_prefix_of(c),
{
    assert(a =~= c.subrange(0, a.len() as int));
}

/// `evolves` composes across sequenced evaluation steps.
pub proof fn lemma_evolves_trans(a: Interpreter, b: Interpreter, c: Interpreter)
    requires
        evolves(a, b),
        evolves(b, c),
    ensures
        evolves(a, c),
{
    lemma_prefix_trans(a.output@, b.output@, c.output@);
}

/// A closure's captured frame outlives the call that created it: across
/// any evaluation step, every frame index valid before stays valid, with
/// the same enclosing link, so the locals a function closed over remain
/// reachable after the defining call returns.
pub proof fn lemma_closure_frames_stable(
    pre: Seq<crate::environment::Environment>,
    post: Seq<crate::environment::Environment>,
    k: int,
)
    requires
        frames_preserved(pre, post),
        0 <= k < pre.len(),
    ensures
        k < post.len(),
        post[k].enclosing == pre[k].enclosing,
{
}

/// The distance recorded for node identity `id`, if any: the earliest
/// entry wins.
pub open spec fn locals_distance(locals: Seq<(usize, usize)>, id: usize) -> Option<usize>
    decreases locals.len(),
{
    if locals.len() == 0 {
        None
    } else if locals.first().0 == id {
        Some(locals.first().1)
    } else {
        locals_distance(locals.drop_first(), id)
    }
}

/// The value a literal node evaluates to; a node with no payload is nil.
pub open spec fn literal_value(l: Option<Literal>) -> Object {
    match l {
        Some(Literal::Num(n)) => Object::Num(n),
        Some(Literal::Str(s)) => Object::Str(s),
        Some(Literal::Bool(b)) => Object::Bool(b),
        Some(Literal::Nil) => Object::Nil,
        None => Object::Nil,
    }
}

/// The value a variable read yields: through the resolution table when
/// the node is recorded there, else by the dynamic walk from the current
/// frame.
pub open spec fn variable_value(it: Interpreter, id: usize, name: Seq<char>) -> Option<Object> {
    match locals_distance(it.locals@, id) {
        Some(d) => {
            let a = ancestor_frame(it.env.frames@, it.environment as int, d as nat);
            if a >= 0 {
                frame_lookup(it.env.frames@[a].values@, name)
            } else {
                None
            }
        },
        None => chain_lookup(it.env.frames@, it.environment as int, name),
    }
}

/// Converts a literal payload to the runtime value it denotes.
pub fn literal_object(l: &Option<Literal>) -> (r: Object)
    ensures
        r == literal_value(*l),
{
    match l {
        Some(Literal::Num(n)) => Object::Num(*n),
        Some(Literal::Str(s)) => Object::Str(s.clone()),
        Some(Literal::Bool(b)) => Object::Bool(*b),
        Some(Literal::Nil) => Object::Nil,
        None => Object::Nil,
    }
}

/// Unary operator semantics: `-` negates a number and is nil on any
/// other operand (leniently, not an error); `!` negates truthiness; any
/// other operator kind cannot be parsed into a unary node and reports a
/// generic error.
pub fn eval_unary(op: &Token, right: Object) -> (r: Result<Object, LoxResult>)
    ensures
        unary_rel(*op, right, r),
{
    match op.token_type() {
        TokenType::Minus => match right {
            Object::Num(n) => Ok(Object::Num(bits_negate(n))),
            _ => Ok(Object::Nil),
        },
        TokenType::Bang => Ok(Object::Bool(!right.is_truthy())),
        _ => Err(LoxResult::error(op.line, "Unreachable")),
    }
}

/// Binary operator semantics for two numbers: IEEE-754 arithmetic,
/// ordering and equality on the encoded values; any other operator kind
/// is the "Illegal expression" runtime error at the operator token.
pub fn eval_binary_nums(op: &Token, a: u64, b: u64) -> (r: Result<Object, LoxResult>)
    ensures
        match op.ttype {
            TokenType::Minus => r == Ok::<Object, LoxResult>(Object::Num(diff_bits(a, b))),
            TokenType::Slash => r == Ok::<Object, LoxResult>(Object::Num(quot_bits(a, b))),
            TokenType::Star => r == Ok::<Object, LoxResult>(Object::Num(prod_bits(a, b))),
            TokenType::Plus => r == Ok::<Object, LoxResult>(Object::Num(sum_bits(a, b))),
            TokenType::Greater => r == Ok::<Object, LoxResult>(Object::Bool(num_lt(b, a))),
            TokenType::GreaterEqual => r == Ok::<Object, LoxResult>(Object::Bool(num_le(b, a))),
            TokenType::Less => r == Ok::<Object, LoxResult>(Object::Bool(num_lt(a, b))),
            TokenType::LessEqual => r == Ok::<Object, LoxResult>(Object::Bool(num_le(a, b))),
            TokenType::BangEqual => r == Ok::<Object, LoxResult>(Object::Bool(!num_eq(a, b))),
            TokenType::Equals => r == Ok::<Object, LoxResult>(Object::Bool(num_eq(a, b))),
            _ => illegal_expression(r, *op),
        },
{
    match op.token_type() {
        TokenType::Minus => Ok(Object::Num(bits_sub(a, b))),
        TokenType::Slash => Ok(Object::Num(bits_div(a, b))),
        TokenType::Star => Ok(Object::Num(bits_mul(a, b))),
        TokenType::Plus => Ok(Object::Num(bits_add(a, b))),
        TokenType::Greater => Ok(Object::Bool(bits_lt(b, a))),
        TokenType::GreaterEqual => Ok(Object::Bool(bits_le(b, a))),
        TokenType::Less => Ok(Object::Bool(bits_lt(a, b))),
        TokenType::LessEqual => Ok(Object::Bool(bits_le(a, b))),
        TokenType::BangEqual => Ok(Object::Bool(!bits_eq(a, b))),
        TokenType::Equals => Ok(Object::Bool(bits_eq(a, b))),
        _ => Err(LoxResult::runtime_error(op, "Illegal expression")),
    }
}

/// Binary operator semantics, decided by the runtime types of both
/// operands, never by any static type: numbers get
/// IEEE-754 arithmetic and ordering; a string and a number concatenate
/// textually under `+` in either order; strings concatenate and compare
/// structurally; booleans compare; nil equals only nil; every other
/// pairing, and every operator a pairing does not support, is the
/// "Illegal expression" runtime error at the operator token.
#[verifier::rlimit(60)]
pub fn eval_binary(op: &Token, left: Object, right: Object) -> (r: Result<Object, LoxResult>)
    ensures
        binary_rel(*op, left, right, r),
{
    match (left, right) {
        (Object::Num(a), Object::Num(b)) => eval_binary_nums(op, a, b),
        (Object::Str(s), Object::Num(b)) => match op.token_type() {
            TokenType::Plus => Ok(Object::Str(s.concat(bits_to_text(b).as_str()))),
            _ => Err(LoxResult::runtime_error(op, "Illegal expression")),
        },
        (Object::Num(a), Object::Str(s)) => match op.token_type() {
            TokenType::Plus => Ok(Object::Str(bits_to_text(a).concat(s.as_str()))),
            _ => Err(LoxResult::runtime_error(op, "Illegal expression")),
        },
        (Object::Str(s1), Object::Str(s2)) => match op.token_type() {
            TokenType::Plus => Ok(Object::Str(s1.concat(s2.as_str()))),
            TokenType::BangEqual => Ok(Object::Bool(!(s1 == s2))),
            TokenType::Equals => Ok(Object::Bool(s1 == s2)),
            _ => Err(LoxResult::runtime_error(op, "Illegal expression")),
        },
        (Object::Bool(b1), Object::Bool(b2)) => match op.token_type() {
            TokenType::BangEqual => Ok(Object::Bool(b1 != b2)),
            TokenType::Equals => Ok(Object::Bool(b1 == b2)),
            _ => Err(LoxResult::runtime_error(op, "Illegal expression")),
        },
        (Object::Nil, Object::Nil) => match op.token_type() {
            TokenType::BangEqual => Ok(Object::Bool(false)),
            TokenType::Equals => Ok(Object::Bool(true)),
            _ => Err(LoxResult::runtime_error(op, "Illegal expression")),
        },
        (Object::Nil, _) => match op.token_type() {
            TokenType::BangEqual => Ok(Object::Bool(true)),
            TokenType::Equals => Ok(Object::Bool(false)),
            _ => Err(LoxResult::runtime_error(op, "Illegal expression")),
        },
        (_, Object::Nil) => match op.token_type() {
            TokenType::BangEqual => Ok(Object::Bool(true)),
            TokenType::Equals => Ok(Object::Bool(false)),
            _ => Err(LoxResult::runtime_error(op, "Illegal expression")),
        },
        _ => Err(LoxResult::runtime_error(op, "Illegal expression")),
    }
}

impl Interpreter {
    /// A fresh interpreter: one global frame holding the native clock
    /// under the name `clock` and nothing else, no open loop, an empty
    /// resolution table.
    pub fn new() -> (r: Interpreter)
        ensures
            interp_wf(r),
            r.env.frames@.len() == 1,
            r.env.frames@[0].values@.len() == 1,
            r.environment == 0,
            r.nest == 0,
            r.locals@.len() == 0,
            r.output@.len() == 0,
            r.reports@.len() == 0,
            chain_lookup(r.env.frames@, 0, "clock"@) matches Some(o) && o is Native,
            forall|other: Seq<char>|
                other != "clock"@ ==> chain_lookup(r.env.frames@, 0, other) is None,
    {
        let mut env = EnvChain::new();
        let clock_name = String::from_str("clock");
        env.define(0, clock_name, Object::Native(crate::native_functions::NativeClock));
        proof {
            assert forall|other: Seq<char>|
                other != "clock"@ implies chain_lookup(env.frames@, 0, other) is None by {
                assert(env.frames@[0].values@.len() == 1);
                assert(env.frames@[0].values@.last().0@ == "clock"@);
                assert(env.frames@[0].values@.drop_last() =~= Seq::<(String, Object)>::empty());
                assert(frame_index_of(Seq::<(String, Object)>::empty(), other) == -1);
                assert(frame_index_of(env.frames@[0].values@, other) == -1);
            }
        }
        Interpreter {
            env,
            globals: 0,
            environment: 0,
            nest: 0,
            locals: Vec::new(),
            output: Vec::new(),
            reports: Vec::new(),
        }
    }

    /// Records one resolved distance under a node identity.
    pub fn resolve(&mut self, id: usize, depth: usize)
        ensures
            final(self).locals@ == old(self).locals@.push((id, depth)),
            final(self).env == old(self).env,
            final(self).environment == old(self).environment,
            final(self).globals == old(self).globals,
            final(self).nest == old(self).nest,
            final(self).output@ == old(self).output@,
            final(self).reports@ == old(self).reports@,
    {
        self.locals.push((id, depth));
    }

    /// Installs a finished resolution table.
    pub fn set_locals(&mut self, locals: Vec<(usize, usize)>)
        ensures
            final(self).locals == locals,
            final(self).env == old(self).env,
            final(self).environment == old(self).environment,
            final(self).globals == old(self).globals,
            final(self).nest == old(self).nest,
            final(self).output@ == old(self).output@,
            final(self).reports@ == old(self).reports@,
    {
        self.locals = locals;
    }

    /// The distance the resolution table records for `id`, if any.
    fn lookup_local(&self, id: usize) -> (r: Option<usize>)
        ensures
            r == locals_distance(self.locals@, id),
    {
        let mut i: usize = 0;
        let ghost all = self.locals@;
        proof {
            assert(all.subrange(0, all.len() as int) =~= all);
        }
        while i < self.locals.len()
            invariant
                all == self.locals@,
                i <= all.len(),
                locals_distance(all, id) == locals_distance(
                    all.subrange(i as int, all.len() as int),
                    id,
                ),
            decreases all.len() - i,
        {
            proof {
                let s = all.subrange(i as int, all.len() as int);
                assert(s.first() == all[i as int]);
                assert(s.drop_first() =~= all.subrange(i + 1, all.len() as int));
            }
            let entry = &self.locals[i];
            if entry.0 == id {
                return Some(entry.1);
            }
            i = i + 1;
        }
        proof {
            assert(all.subrange(all.len() as int, all.len() as int) =~= Seq::<(
                usize,
                usize,
            )>::empty());
        }
        None
    }

    /// Evaluates one expression in the current frame.
    pub fn evaluate(&mut self, expr: &Expr, fuel: u64) -> (r: Result<Object, LoxResult>)
        requires
            interp_wf(*old(self)),
        ensures
            evolves(*old(self), *final(self)),
            fuel > 0 ==> (expr matches Expr::Literal(e) ==> r == Ok::<Object, LoxResult>(
                literal_value(e.value),
            )),
            fuel > 0 ==> (expr matches Expr::Variable(v) ==> match r {
                Ok(value) => variable_value(*old(self), v.id, v.name.lexeme@) == Some(value),
                Err(e) => variable_value(*old(self), v.id, v.name.lexeme@) is None && (
                e matches LoxResult::RuntimeError { token, message } && token == v.name && message@
                    == "Undefined variable '"@ + v.name.lexeme@ + "'."@),
            }),
            eval_r(*old(self), *expr, fuel as nat, *final(self), r),
        decreases fuel,
    {
        if fuel == 0 {
            return Err(LoxResult::system_error("Interpreter step budget exhausted"));
        }
        match expr {
            Expr::Assign(e) => self.visit_assign_expr(e, fuel - 1),
            Expr::Binary(e) => self.visit_binary_expr(e, fuel - 1),
            Expr::Call(e) => self.visit_call_expr(e, fuel - 1),
            Expr::Grouping(e) => self.visit_grouping_expr(e, fuel - 1),
            Expr::Literal(e) => Ok(literal_object(&e.value)),
            Expr::Logical(e) => self.visit_logical_expr(e, fuel - 1),
            Expr::Unary(e) => self.visit_unary_expr(e, fuel - 1),
            Expr::Variable(e) => self.visit_variable_expr(e),
        }
    }

    /// Executes one statement in the current frame.
    pub fn execute(&mut self, stmt: &Stmt, fuel: u64) -> (r: Result<(), LoxResult>)
        requires
            interp_wf(*old(self)),
        ensures
            evolves(*old(self), *final(self)),
            fuel > 0 ==> (stmt matches Stmt::Break(b) ==> ({
                &&& old(self).nest == 0 ==> (r matches Err(LoxResult::RuntimeError {
                    token,
                    message,
                }) && token == b.token && message@ == "Break outside of while/for loop."@)
                &&& old(self).nest > 0 ==> r == Err::<(), LoxResult>(LoxResult::Break)
            })),
            exec_r(*old(self), *stmt, fuel as nat, *final(self), r),
        decreases fuel,
    {
        if fuel == 0 {
            return Err(LoxResult::system_error("Interpreter step budget exhausted"));
        }
        match stmt {
            Stmt::Block(s) => self.visit_block_stmt(s, fuel - 1),
            Stmt::Break(s) => self.visit_break_stmt(s),
            Stmt::Expression(s) => self.visit_expression_stmt(s, fuel - 1),
            Stmt::Function(s) => self.visit_function_stmt(s),
            Stmt::If(s) => self.visit_if_stmt(s, fuel - 1),
            Stmt::Print(s) => self.visit_print_stmt(s, fuel - 1),
            Stmt::Return(s) => self.visit_return_stmt(s, fuel - 1),
            Stmt::Var(s) => self.visit_var_stmt(s, fuel - 1),
            Stmt::While(s) => self.visit_while_stmt(s, fuel - 1),
        }
    }

    /// Executes a statement sequence with `frame` as the current frame,
    /// restoring the previous current frame on every exit path.
    pub fn execute_block(&mut self, statements: &Vec<Stmt>, frame: usize, fuel: u64) -> (r: Result<
        (),
        LoxResult,
    >)
        requires
            interp_wf(*old(self)),
            frame < old(self).env.frames@.len(),
        ensures
            evolves(*old(self), *final(self)),
            block_r(*old(self), statements@, frame, fuel as nat, *final(self), r),
        decreases fuel,
    {
        if fuel == 0 {
            return Err(LoxResult::system_error("Interpreter step budget exhausted"));
        }
        let previous = self.environment;
        self.environment = frame;
        let ghost entered = *self;
        proof {
            assert(entered == crate::semantics::with_env(*old(self), frame));
        }
        let mut i: usize = 0;
        let mut failure: Option<LoxResult> = None;
        while i < statements.len() && failure.is_none()
            invariant
                evolves(entered, *self),
                interp_wf(*self),
                entered.environment == frame,
                entered == crate::semantics::with_env(*old(self), frame),
                entered.env.frames@ == old(self).env.frames@,
                entered.nest == old(self).nest,
                entered.locals@ == old(self).locals@,
                entered.output@ == old(self).output@,
                entered.reports@ == old(self).reports@,
                entered.globals == old(self).globals,
                i <= statements@.len(),
                fuel >= 1,
                match failure {
                    None => crate::semantics::ran_prefix(
                        entered,
                        statements@,
                        i as int,
                        (fuel - 1) as nat,
                        *self,
                    ),
                    Some(e) => crate::semantics::block_items_r(
                        entered,
                        statements@,
                        (fuel - 1) as nat,
                        *self,
                        Err(e),
                    ),
                },
            decreases statements@.len() - i,
        {
            let ghost before = *self;
            let r = self.execute(&statements[i], fuel - 1);
            let ghost rg = r;
            proof {
                lemma_evolves_trans(entered, before, *self);
                assert(chosen((before,)));
                assert(chosen((i as int, before)));
                assert(exec_r(before, statements@[i as int], (fuel - 1) as nat, *self, rg));
            }
            match r {
                Err(e) => {
                    failure = Some(e);
                },
                Ok(u) => {
                    proof {
                        assert(rg == Ok::<(), LoxResult>(u));
                        assert(u == ());
                        assert(crate::semantics::ran_prefix(
                            entered,
                            statements@,
                            i + 1,
                            (fuel - 1) as nat,
                            *self,
                        ));
                    }
                },
            }
            i = i + 1;
        }
        let ghost inner = *self;
        self.environment = previous;
        proof {
            lemma_prefix_trans(old(self).output@, entered.output@, self.output@);
            assert(*self == crate::semantics::with_env(inner, old(self).environment));
            assert(chosen((inner,)));
        }
        match failure {
            Some(e) => Err(e),
            None => Ok(()),
        }
    }

    /// A block runs its body in a fresh frame enclosed by the current
    /// one.
    fn visit_block_stmt(&mut self, stmt: &BlockStmt, fuel: u64) -> (r: Result<(), LoxResult>)
        requires
            interp_wf(*old(self)),
        ensures
            evolves(*old(self), *final(self)),
            block_step_r(*old(self), stmt.statements@, fuel as nat, *final(self), r),
        decreases fuel,
    {
        if fuel == 0 {
            return Err(LoxResult::system_error("Interpreter step budget exhausted"));
        }
        let frame = self.env.new_frame(self.environment);
        let ghost mid = *self;
        proof {
            assert(crate::semantics::new_frame_effect(*old(self), mid, old(self).environment));
            assert(chosen((mid, frame)));
        }
        let r = self.execute_block(&stmt.statements, frame, fuel - 1);
        proof {
            lemma_evolves_trans(*old(self), mid, *self);
        }
        r
    }

    /// `break` outside any loop is a runtime error; inside one it raises
    /// the `Break` signal for the nearest enclosing `while` to intercept.
    fn visit_break_stmt(&mut self, stmt: &BreakStmt) -> (r: Result<(), LoxResult>)
        ensures
            *final(self) == *old(self),
            old(self).nest == 0 ==> (r matches Err(LoxResult::RuntimeError { token, message })
                && token == stmt.token && message@ == "Break outside of while/for loop."@),
            old(self).nest > 0 ==> r == Err::<(), LoxResult>(LoxResult::Break),
    {
        if self.nest == 0 {
            Err(LoxResult::runtime_error(&stmt.token, "Break outside of while/for loop."))
        } else {
            Err(LoxResult::Break)
        }
    }

    fn visit_expression_stmt(&mut self, stmt: &ExpressionStmt, fuel: u64) -> (r: Result<
        (),
        LoxResult,
    >)
        requires
            interp_wf(*old(self)),
        ensures
            evolves(*old(self), *final(self)),
            expression_step_r(*old(self), *stmt.expression, fuel as nat, *final(self), r),
        decreases fuel,
    {
        if fuel == 0 {
            return Err(LoxResult::system_error("Interpreter step budget exhausted"));
        }
        let r0 = self.evaluate(&stmt.expression, fuel - 1);
        let ghost r0g = r0;
        let result: Result<(), LoxResult> = match r0 {
            Ok(_) => Ok(()),
            Err(e) => Err(e),
        };
        let ghost resg = result;
        proof {
            assert(chosen((r0g,)));
            assert(expression_step_r(*old(self), *stmt.expression, fuel as nat, *self, resg));
        }
        result
    }

    /// A function declaration captures the current frame as the new
    /// function's closure and binds the function under its name in the
    /// current frame.
    fn visit_function_stmt(&mut self, stmt: &FunctionStmt) -> (r: Result<(), LoxResult>)
        requires
            interp_wf(*old(self)),
        ensures
            evolves(*old(self), *final(self)),
            r is Ok,
            chain_lookup(
                final(self).env.frames@,
                old(self).environment as int,
                stmt.name.lexeme@,
            ) matches Some(o) && o matches Object::Func(f) && f.closure == old(self).environment
                && f.params == stmt.params && f.body == stmt.body && f.name == stmt.name,
            function_step_r(*old(self), *stmt, *final(self), r),
    {
        let function = LoxFunction::new(stmt, self.environment);
        let shared = Rc::new(function);
        let ghost g = shared;
        self.env.define(self.environment, stmt.name.lexeme.clone(), Object::Func(shared));
        proof {
            assert(chosen((g,)));
            assert(crate::semantics::define_effect(
                *old(self),
                *self,
                old(self).environment,
                stmt.name.lexeme,
                Object::Func(g),
            ));
        }
        Ok(())
    }

    fn visit_if_stmt(&mut self, stmt: &IfStmt, fuel: u64) -> (r: Result<(), LoxResult>)
        requires
            interp_wf(*old(self)),
        ensures
            evolves(*old(self), *final(self)),
            if_step_r(*old(self), *stmt, fuel as nat, *final(self), r),
        decreases fuel,
    {
        if fuel == 0 {
            return Err(LoxResult::system_error("Interpreter step budget exhausted"));
        }
        let ghost entry = *old(self);
        let r0 = self.evaluate(&stmt.condition, fuel - 1);
        let ghost r0g = r0;
        proof {
            assert(chosen((*self, r0g)));
        }
        let condition = match r0 {
            Ok(v) => v,
            Err(e) => {
                return Err(e);
            },
        };
        let ghost mid = *self;
        let r = if condition.is_truthy() {
            self.execute(&stmt.then_branch, fuel - 1)
        } else {
            match &stmt.else_branch {
                Some(else_branch) => self.execute(else_branch, fuel - 1),
                None => Ok(()),
            }
        };
        proof {
            lemma_evolves_trans(entry, mid, *self);
        }
        r
    }

    /// `print` evaluates its operand and appends the value's rendering to
    /// the output; on success at least one line is appended.
    fn visit_print_stmt(&mut self, stmt: &PrintStmt, fuel: u64) -> (r: Result<(), LoxResult>)
        requires
            interp_wf(*old(self)),
        ensures
            evolves(*old(self), *final(self)),
            r is Ok ==> final(self).output@.len() > old(self).output@.len(),
            print_step_r(*old(self), *stmt.expression, fuel as nat, *final(self), r),
        decreases fuel,
    {
        if fuel == 0 {
            return Err(LoxResult::system_error("Interpreter step budget exhausted"));
        }
        let r0 = self.evaluate(&stmt.expression, fuel - 1);
        let ghost r0g = r0;
        proof {
            assert(chosen((*self, r0g)));
        }
        let value = match r0 {
            Ok(v) => v,
            Err(e) => {
                return Err(e);
            },
        };
        let ghost mid = *self;
        match value {
            Object::ArithmeticError => Err(
                LoxResult::system_error("Tried to print an internal sentinel"),
            ),
            _ => {
                let line = value.to_text();
                let ghost lineg = line;
                self.output.push(line);
                proof {
                    assert(chosen((lineg,)));
                    assert(self.output@ == mid.output@.push(lineg));
                    assert(mid.output@.is_prefix_of(self.output@));
                    lemma_prefix_trans(old(self).output@, mid.output@, self.output@);
                }
                Ok(())
            },
        }
    }

    /// `return` evaluates its operand (nil when absent) and raises the
    /// `ReturnValue` signal for the nearest call boundary to intercept.
    fn visit_return_stmt(&mut self, stmt: &ReturnStmt, fuel: u64) -> (r: Result<(), LoxResult>)
        requires
            interp_wf(*old(self)),
        ensures
            evolves(*old(self), *final(self)),
            r is Err,
            stmt.value is None ==> r == Err::<(), LoxResult>(
                LoxResult::ReturnValue { value: Object::Nil },
            ),
            return_step_r(*old(self), *stmt, fuel as nat, *final(self), r),
        decreases fuel,
    {
        match &stmt.value {
            Some(value_expr) => {
                if fuel == 0 {
                    return Err(LoxResult::system_error("Interpreter step budget exhausted"));
                }
                let r0 = self.evaluate(value_expr, fuel - 1);
                let ghost r0g = r0;
                proof {
                    assert(chosen((r0g,)));
                }
                match r0 {
                    Ok(v) => Err(LoxResult::return_value(v)),
                    Err(e) => Err(e),
                }
            },
            None => Err(LoxResult::return_value(Object::Nil)),
        }
    }

    /// `var` evaluates the initializer (nil when absent) and defines the
    /// name in the current frame; re-declaration overwrites.
    fn visit_var_stmt(&mut self, stmt: &VarStmt, fuel: u64) -> (r: Result<(), LoxResult>)
        requires
            interp_wf(*old(self)),
        ensures
            evolves(*old(self), *final(self)),
            r is Ok ==> chain_lookup(
                final(self).env.frames@,
                old(self).environment as int,
                stmt.name.lexeme@,
            ) is Some,
            var_step_r(*old(self), *stmt, fuel as nat, *final(self), r),
        decreases fuel,
    {
        if fuel == 0 {
            return Err(LoxResult::system_error("Interpreter step budget exhausted"));
        }
        let value = match &stmt.initializer {
            Some(initializer) => {
                let r0 = self.evaluate(initializer, fuel - 1);
                let ghost r0g = r0;
                proof {
                    assert(chosen((*self, r0g)));
                }
                match r0 {
                    Ok(v) => v,
                    Err(e) => {
                        return Err(e);
                    },
                }
            },
            None => Object::Nil,
        };
        let ghost mid = *self;
        self.env.define(self.environment, stmt.name.lexeme.clone(), value);
        proof {
            assert(crate::semantics::define_effect(
                mid,
                *self,
                mid.environment,
                stmt.name.lexeme,
                value,
            ));
        }
        Ok(())
    }

    /// `while` opens one loop level, runs body iterations while the
    /// condition is truthy, intercepts the `Break` signal from its body,
    /// and closes the loop level again on every exit path.
    fn visit_while_stmt(&mut self, stmt: &WhileStmt, fuel: u64) -> (r: Result<(), LoxResult>)
        requires
            interp_wf(*old(self)),
        ensures
            evolves(*old(self), *final(self)),
            while_step_r(*old(self), *stmt, fuel as nat, *final(self), r),
        decreases fuel,
    {
        if self.nest == u64::MAX {
            return Err(LoxResult::system_error("Loop nesting counter exhausted"));
        }
        self.nest = self.nest + 1;
        let ghost entered = *self;
        proof {
            assert(entered == crate::semantics::with_nest(
                *old(self),
                (old(self).nest + 1) as u64,
            ));
        }
        let mut remaining = fuel;
        let mut outcome: Result<(), LoxResult> = Ok(());
        let mut done = false;
        let ghost mut k: nat = 0;
        while !done
            invariant
                evolves(entered, *self),
                interp_wf(*self),
                entered.nest == old(self).nest + 1,
                entered == crate::semantics::with_nest(*old(self), (old(self).nest + 1) as u64),
                entered.env.frames@ == old(self).env.frames@,
                entered.environment == old(self).environment,
                entered.globals == old(self).globals,
                entered.locals@ == old(self).locals@,
                entered.output@ == old(self).output@,
                entered.reports@ == old(self).reports@,
                remaining <= fuel,
                !done ==> ({
                    &&& crate::semantics::while_iters(entered, *stmt, fuel as nat, k, *self)
                    &&& k <= fuel
                    &&& remaining == fuel - k
                    &&& outcome == Ok::<(), LoxResult>(())
                }),
                done ==> crate::semantics::while_r(entered, *stmt, fuel as nat, *self, outcome),
            decreases remaining, (if done { 0int } else { 1int }),
        {
            if remaining == 0 {
                outcome = Err(LoxResult::system_error("Interpreter step budget exhausted"));
                done = true;
                proof {
                    assert(chosen((k, *self)));
                }
            } else {
                remaining = remaining - 1;
                let ghost before = *self;
                let condition = self.evaluate(&stmt.condition, remaining);
                proof {
                    lemma_evolves_trans(entered, before, *self);
                }
                match condition {
                    Ok(v) => {
                        if v.is_truthy() {
                            let ghost before_body = *self;
                            let body_result = self.execute(&stmt.body, remaining);
                            proof {
                                lemma_evolves_trans(entered, before_body, *self);
                            }
                            match body_result {
                                Ok(u) => {
                                    proof {
                                        assert(u == ());
                                        assert(chosen((before, before_body, v)));
                                        k = k + 1;
                                        assert(crate::semantics::while_iters(
                                            entered,
                                            *stmt,
                                            fuel as nat,
                                            k,
                                            *self,
                                        ));
                                    }
                                },
                                Err(LoxResult::Break) => {
                                    done = true;
                                    proof {
                                        assert(chosen((before_body, v, *self)));
                                        assert(chosen((k, before)));
                                    }
                                },
                                Err(e) => {
                                    let ghost eg = e;
                                    outcome = Err(e);
                                    done = true;
                                    proof {
                                        assert(chosen((before_body, v, *self, eg)));
                                        assert(chosen((k, before)));
                                    }
                                },
                            }
                        } else {
                            done = true;
                            proof {
                                assert(chosen((*self, v)));
                                assert(chosen((k, before)));
                            }
                        }
                    },
                    Err(e) => {
                        let ghost eg = e;
                        outcome = Err(e);
                        done = true;
                        proof {
                            assert(chosen((*self, eg)));
                            assert(chosen((k, before)));
                        }
                    },
                }
            }
        }
        let ghost wpost = *self;
        self.nest = self.nest - 1;
        proof {
            lemma_prefix_trans(old(self).output@, entered.output@, self.output@);
            assert(*self == crate::semantics::with_nest(wpost, old(self).nest));
            assert(chosen((wpost,)));
        }
        outcome
    }

    /// An assignment evaluates the value, rebinds the target — through
    /// the resolution table when the node is recorded, dynamically
    /// otherwise — and yields the value.
    fn visit_assign_expr(&mut self, expr: &AssignExpr, fuel: u64) -> (r: Result<Object, LoxResult>)
        requires
            interp_wf(*old(self)),
        ensures
            evolves(*old(self), *final(self)),
            assign_step_r(*old(self), *expr, fuel as nat, *final(self), r),
        decreases fuel,
    {
        if fuel == 0 {
            return Err(LoxResult::system_error("Interpreter step budget exhausted"));
        }
        let r0 = self.evaluate(&expr.value, fuel - 1);
        let ghost r0g = r0;
        proof {
            assert(chosen((*self, r0g)));
        }
        let value = match r0 {
            Ok(v) => v,
            Err(e) => {
                return Err(e);
            },
        };
        let ghost mid = *self;
        let assigned = match self.lookup_local(expr.id) {
            Some(distance) => self.env.assign_at(
                self.environment,
                distance,
                &expr.name,
                value.clone(),
            ),
            None => self.env.assign(self.environment, &expr.name, value.clone()),
        };
        proof {
            lemma_prefix_trans(old(self).output@, mid.output@, self.output@);
        }
        match assigned {
            Ok(_) => Ok(value),
            Err(e) => Err(e),
        }
    }

    fn visit_binary_expr(&mut self, expr: &BinaryExpr, fuel: u64) -> (r: Result<Object, LoxResult>)
        requires
            interp_wf(*old(self)),
        ensures
            evolves(*old(self), *final(self)),
            binary_step_r(*old(self), *expr, fuel as nat, *final(self), r),
        decreases fuel,
    {
        if fuel == 0 {
            return Err(LoxResult::system_error("Interpreter step budget exhausted"));
        }
        let rl = self.evaluate(&expr.left, fuel - 1);
        let ghost rlg = rl;
        proof {
            assert(chosen((*self, rlg)));
        }
        let left = match rl {
            Ok(v) => v,
            Err(e) => {
                return Err(e);
            },
        };
        let ghost mid = *self;
        let rr = self.evaluate(&expr.right, fuel - 1);
        let ghost rrg = rr;
        proof {
            assert(chosen((*self, rrg)));
        }
        let right = match rr {
            Ok(v) => v,
            Err(e) => {
                proof {
                    lemma_evolves_trans(*old(self), mid, *self);
                }
                return Err(e);
            },
        };
        proof {
            lemma_evolves_trans(*old(self), mid, *self);
        }
        eval_binary(&expr.operator, left, right)
    }

    /// A call evaluates the callee, then the arguments left to right,
    /// then dispatches on the callee's runtime type.
    #[verifier::rlimit(50)]
    fn visit_call_expr(&mut self, expr: &CallExpr, fuel: u64) -> (r: Result<Object, LoxResult>)
        requires
            interp_wf(*old(self)),
        ensures
            evolves(*old(self), *final(self)),
            call_step_r(*old(self), *expr, fuel as nat, *final(self), r),
        decreases fuel,
    {
        if fuel == 0 {
            return Err(LoxResult::system_error("Interpreter step budget exhausted"));
        }
        let rc = self.evaluate(&expr.callee, fuel - 1);
        let ghost rcg = rc;
        proof {
            assert(chosen((*self, rcg)));
        }
        let callee = match rc {
            Ok(v) => v,
            Err(e) => {
                return Err(e);
            },
        };
        let ghost calleeg = callee;
        let ghost after_callee = *self;
        let mut arguments: Vec<Object> = Vec::new();
        let mut i: usize = 0;
        while i < expr.arguments.len()
            invariant
                evolves(after_callee, *self),
                interp_wf(*self),
                evolves(*old(self), after_callee),
                i <= expr.arguments@.len(),
                fuel >= 1,
                arguments@.len() == i,
                rcg == Ok::<Object, LoxResult>(calleeg),
                eval_r(*old(self), *expr.callee, (fuel - 1) as nat, after_callee, rcg),
                crate::semantics::args_fwd(
                    after_callee,
                    expr.arguments@,
                    i as int,
                    (fuel - 1) as nat,
                    *self,
                    arguments@,
                ),
            decreases expr.arguments@.len() - i,
        {
            let ghost before = *self;
            let ghost vals_before = arguments@;
            let ra = self.evaluate(&expr.arguments[i], fuel - 1);
            let ghost rag = ra;
            match ra {
                Ok(v) => {
                    let ghost vg = v;
                    arguments.push(v);
                    proof {
                        lemma_evolves_trans(after_callee, before, *self);
                        assert(rag == Ok::<Object, LoxResult>(vg));
                        assert(arguments@.drop_last() =~= vals_before);
                        assert(chosen((before,)));
                        assert(crate::semantics::args_fwd(
                            after_callee,
                            expr.arguments@,
                            i + 1,
                            (fuel - 1) as nat,
                            *self,
                            arguments@,
                        ));
                    }
                },
                Err(e) => {
                    let ghost eg = e;
                    proof {
                        lemma_evolves_trans(after_callee, before, *self);
                        lemma_evolves_trans(*old(self), after_callee, *self);
                        assert(rag == Err::<Object, LoxResult>(eg));
                        assert(rcg == Ok::<Object, LoxResult>(calleeg));
                        crate::semantics::lemma_call_step_arg_err(
                            *old(self),
                            *expr,
                            fuel as nat,
                            after_callee,
                            calleeg,
                            i as int,
                            before,
                            vals_before,
                            eg,
                            *self,
                            Err(eg),
                        );
                    }
                    return Err(e);
                },
            }
            i = i + 1;
        }
        let ghost before_call = *self;
        let ghost argsg = arguments@;
        let r = self.call_object(callee, arguments, &expr.paren, fuel - 1);
        let ghost rg2 = r;
        proof {
            lemma_evolves_trans(after_callee, before_call, *self);
            lemma_evolves_trans(*old(self), after_callee, *self);
            assert(rcg == Ok::<Object, LoxResult>(calleeg));
            crate::semantics::lemma_call_step_done(
                *old(self),
                *expr,
                fuel as nat,
                after_callee,
                calleeg,
                before_call,
                argsg,
                *self,
                rg2,
            );
        }
        r
    }

    /// The call protocol: only functions, classes and the native clock
    /// are callable; the argument count must equal the callee's arity;
    /// the `ReturnValue` signal never escapes a call.
    #[verifier::rlimit(50)]
    fn call_object(
        &mut self,
        callee: Object,
        arguments: Vec<Object>,
        paren: &Token,
        fuel: u64,
    ) -> (r: Result<Object, LoxResult>)
        requires
            interp_wf(*old(self)),
        ensures
            evolves(*old(self), *final(self)),
            !(r matches Err(LoxResult::ReturnValue { .. })),
            !(callee is Func || callee is Class || callee is Native) ==> (*final(self) == *old(
                self,
            ) && (r matches Err(LoxResult::RuntimeError { token, message }) && token == *paren
                && message@ == "Can only call functions and classes."@)),
            callee matches Object::Func(f) ==> (arguments@.len() != f.params@.len() ==> (*final(self)
                == *old(self) && (r matches Err(LoxResult::RuntimeError { token, message }) && token
                == *paren && message@ == "Expected "@ + decimal_text(f.params@.len() as int)
                + " arguments but got "@ + decimal_text(arguments@.len() as int) + "."@))),
            callee matches Object::Class(c) ==> (arguments@.len() == 0 ==> (r matches Ok(o)
                && o matches Object::Instance(inst) && inst.klass == c)),
            callee matches Object::Class(c) ==> (arguments@.len() != 0 ==> (r matches Err(e)
                && crate::semantics::arity_err(e, *paren, 0, arguments@.len() as int))),
            callee is Native ==> (arguments@.len() == 0 ==> (r matches Ok(o) && o is Num)),
            call_obj_r(*old(self), callee, arguments@, *paren, fuel as nat, *final(self), r),
        decreases fuel,
    {
        let ghost calleeg = callee;
        let ghost argsg = arguments@;
        match callee {
            Object::Func(f) => {
                if arguments.len() != f.arity() {
                    let message = String::from_str("Expected ").concat(
                        usize_text(f.arity()).as_str(),
                    ).concat(" arguments but got ").concat(usize_text(arguments.len()).as_str())
                        .concat(".");
                    Err(LoxResult::runtime_error(paren, message.as_str()))
                } else if fuel == 0 {
                    Err(LoxResult::system_error("Interpreter step budget exhausted"))
                } else {
                    let fr = self.call_function(&f, arguments, fuel - 1);
                    let ghost frg = fr;
                    proof {
                        assert(calleeg == Object::Func(f));
                        crate::semantics::lemma_call_obj_fun(
                            *old(self),
                            f,
                            argsg,
                            *paren,
                            fuel as nat,
                            *self,
                            frg,
                        );
                    }
                    fr
                }
            },
            Object::Class(c) => {
                if arguments.len() != 0 {
                    let message = String::from_str("Expected ").concat(usize_text(0).as_str())
                        .concat(" arguments but got ").concat(usize_text(arguments.len()).as_str())
                        .concat(".");
                    Err(LoxResult::runtime_error(paren, message.as_str()))
                } else {
                    c.instantiate(&c)
                }
            },
            Object::Native(n) => {
                if arguments.len() != 0 {
                    let message = String::from_str("Expected ").concat(usize_text(0).as_str())
                        .concat(" arguments but got ").concat(usize_text(arguments.len()).as_str())
                        .concat(".");
                    Err(LoxResult::runtime_error(paren, message.as_str()))
                } else {
                    n.call()
                }
            },
            _ => Err(LoxResult::runtime_error(paren, "Can only call functions and classes.")),
        }
    }

    /// Invokes a user function: a fresh frame enclosed by the function's
    /// captured closure frame — not the caller's frame — binds each
    /// parameter to its argument; the body runs as a block there; an
    /// intercepted `ReturnValue` signal yields its payload, falling off
    /// the end yields nil.
    fn call_function(&mut self, f: &Rc<LoxFunction>, arguments: Vec<Object>, fuel: u64) -> (r:
        Result<Object, LoxResult>)
        requires
            interp_wf(*old(self)),
            arguments@.len() == f.params@.len(),
        ensures
            evolves(*old(self), *final(self)),
            !(r matches Err(LoxResult::ReturnValue { .. })),
            call_fun_r(*old(self), *f, arguments@, fuel as nat, *final(self), r),
        decreases fuel,
    {
        if fuel == 0 {
            return Err(LoxResult::system_error("Interpreter step budget exhausted"));
        }
        if f.closure >= self.env.frames.len() {
            // Cannot happen for function values this interpreter created:
            // frames are never dropped. Fail safely all the same.
            return Err(LoxResult::system_error("Function closed over an unknown frame"));
        }
        let frame = self.env.new_frame(f.closure);
        let ghost with_frame = *self;
        let mut i: usize = 0;
        while i < f.params.len()
            invariant
                evolves(with_frame, *self),
                interp_wf(*self),
                evolves(*old(self), with_frame),
                frame < self.env.frames@.len(),
                i <= f.params@.len(),
                arguments@.len() == f.params@.len(),
                frame == old(self).env.frames@.len(),
                self.env.frames@.len() == old(self).env.frames@.len() + 1,
                forall|j: int|
                    0 <= j < old(self).env.frames@.len() ==> #[trigger] self.env.frames@[j] == old(
                        self,
                    ).env.frames@[j],
                self.env.frames@[frame as int].enclosing == Some(f.closure),
                self.env.frames@[frame as int].values@.len() == i,
                forall|j: int|
                    0 <= j < i ==> #[trigger] self.env.frames@[frame as int].values@[j] == (
                    f.params@[j].lexeme,
                    arguments@[j],
                    ),
                self.environment == old(self).environment,
                self.nest == old(self).nest,
                self.locals@ == old(self).locals@,
                self.output@ == old(self).output@,
                self.reports@ == old(self).reports@,
                self.globals == old(self).globals,
            decreases f.params@.len() - i,
        {
            let ghost before = *self;
            let name = f.params[i].lexeme.clone();
            let value = arguments[i].clone();
            self.env.define(frame, name, value);
            proof {
                lemma_evolves_trans(with_frame, before, *self);
            }
            i = i + 1;
        }
        proof {
            assert(crate::semantics::params_bound(*old(self), *self, *f, arguments@));
        }
        let ghost mid_params = *self;
        let result = self.execute_block(&*f.body, frame, fuel - 1);
        let ghost brg = result;
        proof {
            lemma_evolves_trans(with_frame, mid_params, *self);
            lemma_evolves_trans(*old(self), with_frame, *self);
            assert(crate::semantics::block_r(
                mid_params,
                f.body@,
                frame,
                (fuel as nat - 1) as nat,
                *self,
                brg,
            ));
            assert(chosen((mid_params, frame, brg)));
        }
        match result {
            Err(LoxResult::ReturnValue { value }) => Ok(value),
            Err(e) => Err(e),
            Ok(_) => Ok(Object::Nil),
        }
    }

    fn visit_grouping_expr(&mut self, expr: &GroupingExpr, fuel: u64) -> (r: Result<
        Object,
        LoxResult,
    >)
        requires
            interp_wf(*old(self)),
        ensures
            evolves(*old(self), *final(self)),
            grouping_step_r(*old(self), *expr, fuel as nat, *final(self), r),
        decreases fuel,
    {
        if fuel == 0 {
            return Err(LoxResult::system_error("Interpreter step budget exhausted"));
        }
        self.evaluate(&expr.expression, fuel - 1)
    }

    /// `and` / `or` evaluate the left operand and short-circuit on its
    /// truthiness, yielding whichever operand decided the outcome.
    fn visit_logical_expr(&mut self, expr: &LogicalExpr, fuel: u64) -> (r: Result<
        Object,
        LoxResult,
    >)
        requires
            interp_wf(*old(self)),
        ensures
            evolves(*old(self), *final(self)),
            logical_step_r(*old(self), *expr, fuel as nat, *final(self), r),
        decreases fuel,
    {
        if fuel == 0 {
            return Err(LoxResult::system_error("Interpreter step budget exhausted"));
        }
        let r0 = self.evaluate(&expr.left, fuel - 1);
        let ghost r0g = r0;
        proof {
            assert(chosen((*self, r0g)));
        }
        let left = match r0 {
            Ok(v) => v,
            Err(e) => {
                return Err(e);
            },
        };
        if expr.operator.is(TokenType::Or) {
            if left.is_truthy() {
                return Ok(left);
            }
        } else {
            if !left.is_truthy() {
                return Ok(left);
            }
        }
        let ghost mid = *self;
        let r = self.evaluate(&expr.right, fuel - 1);
        proof {
            lemma_evolves_trans(*old(self), mid, *self);
        }
        r
    }

    fn visit_unary_expr(&mut self, expr: &UnaryExpr, fuel: u64) -> (r: Result<Object, LoxResult>)
        requires
            interp_wf(*old(self)),
        ensures
            evolves(*old(self), *final(self)),
            unary_step_r(*old(self), *expr, fuel as nat, *final(self), r),
        decreases fuel,
    {
        if fuel == 0 {
            return Err(LoxResult::system_error("Interpreter step budget exhausted"));
        }
        let r0 = self.evaluate(&expr.right, fuel - 1);
        let ghost r0g = r0;
        let ghost midg = *self;
        proof {
            assert(chosen((midg, r0g)));
        }
        let right = match r0 {
            Ok(v) => v,
            Err(e) => {
                return Err(e);
            },
        };
        eval_unary(&expr.operator, right)
    }

    /// A variable read uses the resolved distance when the table has one
    /// for this node, and the dynamic walk from the current frame
    /// otherwise.
    fn visit_variable_expr(&mut self, expr: &VariableExpr) -> (r: Result<Object, LoxResult>)
        requires
            interp_wf(*old(self)),
        ensures
            *final(self) == *old(self),
            match r {
                Ok(v) => variable_value(*old(self), expr.id, expr.name.lexeme@) == Some(v),
                Err(e) => variable_value(*old(self), expr.id, expr.name.lexeme@) is None && (
                e matches LoxResult::RuntimeError { token, message } && token == expr.name
                    && message@ == "Undefined variable '"@ + expr.name.lexeme@ + "'."@),
            },
    {
        match self.lookup_local(expr.id) {
            Some(distance) => self.env.get_at(self.environment, distance, &expr.name),
            None => self.env.get(self.environment, &expr.name),
        }
    }

    /// Runs top-level statements in order, stopping at the first
    /// uncaught outcome of any kind: its diagnostic line is recorded
    /// under `reports` and the run is counted as failed. A well-formed
    /// program never lets `Break` or `ReturnValue` reach this level; if
    /// one does, it fails the run safely the same way.
    pub fn interpret(&mut self, statements: &Vec<Stmt>) -> (success: bool)
        requires
            interp_wf(*old(self)),
        ensures
            interp_wf(*final(self)),
            frames_preserved(old(self).env.frames@, final(self).env.frames@),
            final(self).environment == old(self).environment,
            final(self).globals == old(self).globals,
            final(self).nest == 0,
            final(self).locals@ == old(self).locals@,
            old(self).output@.is_prefix_of(final(self).output@),
            success ==> final(self).reports@ == old(self).reports@,
            !success ==> final(self).reports@.len() == old(self).reports@.len() + 1,
            interpret_r(*old(self), statements@, u64::MAX as nat, *final(self), success),
    {
        self.nest = 0;
        let ghost entered = *self;
        proof {
            assert(entered == crate::semantics::with_nest(*old(self), 0));
        }
        let mut i: usize = 0;
        while i < statements.len()
            invariant
                evolves(entered, *self),
                interp_wf(*self),
                entered == crate::semantics::with_nest(*old(self), 0),
                entered.env.frames@ == old(self).env.frames@,
                entered.environment == old(self).environment,
                entered.globals == old(self).globals,
                entered.nest == 0,
                entered.locals@ == old(self).locals@,
                entered.output@ == old(self).output@,
                entered.reports@ == old(self).reports@,
                i <= statements@.len(),
                crate::semantics::ran_prefix(
                    entered,
                    statements@,
                    i as int,
                    u64::MAX as nat,
                    *self,
                ),
            decreases statements@.len() - i,
        {
            let ghost before = *self;
            let r = self.execute(&statements[i], u64::MAX);
            let ghost rg = r;
            proof {
                lemma_evolves_trans(entered, before, *self);
                assert(chosen((before,)));
            }
            match r {
                Ok(u) => {
                    proof {
                        assert(rg == Ok::<(), LoxResult>(u));
                        assert(u == ());
                        assert(crate::semantics::ran_prefix(
                            entered,
                            statements@,
                            i + 1,
                            u64::MAX as nat,
                            *self,
                        ));
                    }
                },
                Err(e) => {
                    let ghost eg = e;
                    let ghost fin = *self;
                    let line = e.report_text();
                    let ghost lineg = line;
                    self.reports.push(line);
                    proof {
                        assert(chosen((i as int, before, fin, eg, lineg)));
                    }
                    return false;
                },
            }
            i = i + 1;
        }
        true
    }

    /// The lines `print` has produced so far.
    pub fn output_lines(&self) -> (r: &Vec<String>)
        ensures
            r == self.output,
    {
        &self.output
    }

    /// The diagnostic lines of errors that reached the top level.
    pub fn report_lines(&self) -> (r: &Vec<String>)
        ensures
            r == self.reports,
    {
        &self.reports
    }
}

} // verus!

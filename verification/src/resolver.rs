//! The static resolution pass.
//!
//! A single walk over the program maintains a stack of scope maps, one per
//! textually open block, each mapping a name to "declared but not yet
//! usable" (`false`) or "initialized" (`true`). Every variable reference
//! or assignment target found in some scope is recorded in a side table
//! keyed by the node's identity: the number of scopes between the use and
//! the declaration — its lexical distance. Names found in no scope are
//! left unrecorded and resolve dynamically at run time. Top-level
//! declarations are not tracked by the stack at all.
//!
//! Reading a name whose innermost-scope entry is still `false` — a
//! variable used inside its own initializer — is a resolution-time error.

use crate::error::LoxResult;
use crate::expr::AssignExpr;
use crate::expr::BinaryExpr;
use crate::expr::CallExpr;
use crate::expr::Expr;
use crate::expr::GroupingExpr;
use crate::expr::LiteralExpr;
use crate::expr::LogicalExpr;
use crate::expr::UnaryExpr;
use crate::expr::VariableExpr;
use crate::stmt::BlockStmt;
use crate::stmt::BreakStmt;
use crate::stmt::ExpressionStmt;
use crate::stmt::FunctionStmt;
use crate::stmt::IfStmt;
use crate::stmt::PrintStmt;
use crate::stmt::ReturnStmt;
use crate::stmt::Stmt;
use crate::stmt::VarStmt;
use crate::semantics::chosen;
use crate::stmt::WhileStmt;
use crate::token::Token;
use vstd::prelude::*;

verus! {

/// The index of the newest entry for `name` in one scope map, or -1.
pub open spec fn scope_index_of(scope: Seq<(String, bool)>, name: Seq<char>) -> int
    decreases scope.len(),
{
    if scope.len() == 0 {
        -1
    } else if scope.last().0@ == name {
        scope.len() - 1
    } else {
        scope_index_of(scope.drop_last(), name)
    }
}

/// The state a scope map records for `name`: `Some(false)` declared but
/// not yet usable, `Some(true)` initialized, `None` absent.
pub open spec fn scope_state(scope: Seq<(String, bool)>, name: Seq<char>) -> Option<bool> {
    let i = scope_index_of(scope, name);
    if i >= 0 {
        Some(scope[i].1)
    } else {
        None
    }
}

/// The lexical distance at which `name` is found scanning the scope stack
/// innermost-first: 0 is the innermost scope; `None` when no scope holds
/// the name.
pub open spec fn innermost_distance(scopes: Seq<Vec<(String, bool)>>, name: Seq<char>) -> Option<
    int,
>
    decreases scopes.len(),
{
    if scopes.len() == 0 {
        None
    } else if scope_index_of(scopes.last()@, name) >= 0 {
        Some(0)
    } else {
        match innermost_distance(scopes.drop_last(), name) {
            Some(d) => Some(d + 1),
            None => None,
        }
    }
}

/// Whether one scope map binds `name`.
fn scope_contains(scope: &Vec<(String, bool)>, name: &String) -> (r: bool)
    ensures
        r == (scope_index_of(scope@, name@) >= 0),
{
    let mut i = scope.len();
    proof {
        assert(scope@.subrange(0, i as int) =~= scope@);
    }
    while i > 0
        invariant
            i <= scope@.len(),
            scope_index_of(scope@, name@) == scope_index_of(scope@.subrange(0, i as int), name@),
        decreases i,
    {
        i = i - 1;
        proof {
            let s = scope@.subrange(0, i + 1);
            assert(s.last() == scope@[i as int]);
            assert(s.drop_last() =~= scope@.subrange(0, i as int));
        }
        let entry = &scope[i];
        if entry.0 == *name {
            return true;
        }
    }
    proof {
        assert(scope@.subrange(0, 0) =~= Seq::<(String, bool)>::empty());
    }
    false
}

/// The recorded state of `name` in one scope map, if any.
fn scope_state_of(scope: &Vec<(String, bool)>, name: &String) -> (r: Option<bool>)
    ensures
        r == scope_state(scope@, name@),
{
    let mut i = scope.len();
    proof {
        assert(scope@.subrange(0, i as int) =~= scope@);
    }
    while i > 0
        invariant
            i <= scope@.len(),
            scope_index_of(scope@, name@) == scope_index_of(scope@.subrange(0, i as int), name@),
        decreases i,
    {
        i = i - 1;
        proof {
            let s = scope@.subrange(0, i + 1);
            assert(s.last() == scope@[i as int]);
            assert(s.drop_last() =~= scope@.subrange(0, i as int));
        }
        let entry = &scope[i];
        if entry.0 == *name {
            return Some(entry.1);
        }
    }
    proof {
        assert(scope@.subrange(0, 0) =~= Seq::<(String, bool)>::empty());
    }
    None
}


/// The effect of `declare` / `define`: outside any scope nothing is
/// tracked; otherwise the innermost scope gains one entry for the name,
/// marked not-yet-usable (`false`) or initialized (`true`).
pub open spec fn declared(pre: Resolver, post: Resolver, name: Token, initialized: bool) -> bool {
    if pre.scopes@.len() == 0 {
        post.scopes@ == pre.scopes@ && post.locals@ == pre.locals@
    } else {
        &&& post.locals@ == pre.locals@
        &&& post.scopes@.len() == pre.scopes@.len()
        &&& forall|k: int|
            0 <= k < pre.scopes@.len() - 1 ==> #[trigger] post.scopes@[k] == pre.scopes@[k]
        &&& post.scopes@.last()@ == pre.scopes@.last()@.push((name.lexeme, initialized))
    }
}

/// The effect of recording one reference: the scope stack is untouched,
/// and the table gains the innermost distance of the name if any scope
/// holds it, else nothing.
pub open spec fn recorded_local(pre: Resolver, post: Resolver, id: usize, name: Token) -> bool {
    &&& post.scopes@ == pre.scopes@
    &&& match innermost_distance(pre.scopes@, name.lexeme@) {
        Some(d) => post.locals@ == pre.locals@.push((id, d as usize)),
        None => post.locals@ == pre.locals@,
    }
}

/// The effect of opening one scope.
pub open spec fn scope_opened(pre: Resolver, post: Resolver) -> bool {
    &&& post.locals@ == pre.locals@
    &&& post.scopes@.len() == pre.scopes@.len() + 1
    &&& forall|k: int|
        0 <= k < pre.scopes@.len() ==> #[trigger] post.scopes@[k] == pre.scopes@[k]
    &&& post.scopes@.last()@.len() == 0
}

/// The effect of closing the innermost scope.
pub open spec fn scope_closed(pre: Resolver, post: Resolver) -> bool {
    &&& post.locals@ == pre.locals@
    &&& post.scopes@ == pre.scopes@.drop_last()
}

/// The resolution error for a variable read inside its own initializer.
pub open spec fn own_initializer_err(e: LoxResult, name: Token) -> bool {
    e matches LoxResult::RuntimeError { token, message } && token == name && message@
        == "Can't read local variable in its own initializer"@
}

/// The first `i` statements of a sequence resolved in order, all
/// successfully.
pub open spec fn rstmts_prefix(pre: Resolver, stmts: Seq<Stmt>, i: int, post: Resolver) -> bool
    decreases stmts, 0int, i,
{
    if i < 0 || i > stmts.len() {
        false
    } else if i == 0 {
        post == pre
    } else {
        exists|mid: Resolver|
            #![trigger chosen((mid,))]
            {
                &&& chosen((mid,))
                &&& rstmts_prefix(pre, stmts, i - 1, mid)
                &&& rstmt_r(mid, stmts[i - 1], post, Ok(()))
            }
    }
}

/// A statement sequence resolved to completion or to its first failure.
pub open spec fn rstmts_run(pre: Resolver, stmts: Seq<Stmt>, post: Resolver, r: Result<
    (),
    LoxResult,
>) -> bool
    decreases stmts, 1int, 0int,
{
    match r {
        Ok(_) => rstmts_prefix(pre, stmts, stmts.len() as int, post),
        Err(e) => exists|i: int, mid: Resolver|
            #![trigger chosen((i, mid))]
            {
                &&& chosen((i, mid))
                &&& 0 <= i < stmts.len()
                &&& rstmts_prefix(pre, stmts, i, mid)
                &&& rstmt_r(mid, stmts[i], post, Err(e))
            },
    }
}

/// The first `i` expressions of a sequence resolved in order, all
/// successfully.
pub open spec fn rexprs_prefix(pre: Resolver, exprs: Seq<Expr>, i: int, post: Resolver) -> bool
    decreases exprs, 0int, i,
{
    if i < 0 || i > exprs.len() {
        false
    } else if i == 0 {
        post == pre
    } else {
        exists|mid: Resolver|
            #![trigger chosen((mid,))]
            {
                &&& chosen((mid,))
                &&& rexprs_prefix(pre, exprs, i - 1, mid)
                &&& rexpr_r(mid, exprs[i - 1], post, Ok(()))
            }
    }
}

/// An expression sequence resolved to completion or to its first failure.
pub open spec fn rexprs_run(pre: Resolver, exprs: Seq<Expr>, post: Resolver, r: Result<
    (),
    LoxResult,
>) -> bool
    decreases exprs, 1int, 0int,
{
    match r {
        Ok(_) => rexprs_prefix(pre, exprs, exprs.len() as int, post),
        Err(e) => exists|i: int, mid: Resolver|
            #![trigger chosen((i, mid))]
            {
                &&& chosen((i, mid))
                &&& 0 <= i < exprs.len()
                &&& rexprs_prefix(pre, exprs, i, mid)
                &&& rexpr_r(mid, exprs[i], post, Err(e))
            },
    }
}

/// The parameters of a function declaration, each declared and at once
/// defined in the innermost scope, in order.
pub open spec fn params_declared(pre: Resolver, params: Seq<Token>, i: int, post: Resolver) -> bool
    decreases i,
{
    if i < 0 {
        false
    } else if i == 0 {
        post == pre
    } else {
        exists|mid1: Resolver, mid2: Resolver|
            #![trigger chosen((mid1, mid2))]
            {
                &&& chosen((mid1, mid2))
                &&& params_declared(pre, params, i - 1, mid1)
                &&& declared(mid1, mid2, params[i - 1], false)
                &&& declared(mid2, post, params[i - 1], true)
            }
    }
}

/// One statement resolved: the reference semantics of the resolution
/// pass, mirroring the walk case for case — scopes opened and closed
/// around blocks and function bodies on every path, names declared
/// before their initializers resolve and defined after, every reference
/// recorded at its innermost distance.
pub open spec fn rstmt_r(pre: Resolver, s: Stmt, post: Resolver, r: Result<(), LoxResult>) -> bool
    decreases s, 2int, 0int,
{
    match s {
        Stmt::Block(b) => exists|mid0: Resolver, mid1: Resolver|
            #![trigger chosen((mid0, mid1))]
            {
                &&& chosen((mid0, mid1))
                &&& scope_opened(pre, mid0)
                &&& rstmts_run(mid0, b.statements@, mid1, r)
                &&& scope_closed(mid1, post)
            },
        Stmt::Break(_) => post == pre && r == Ok::<(), LoxResult>(()),
        Stmt::Expression(e) => rexpr_r(pre, *e.expression, post, r),
        Stmt::Function(fs) => exists|
            mid1: Resolver,
            mid2: Resolver,
            mid3: Resolver,
            mid4: Resolver,
            mid5: Resolver,
        |
            #![trigger chosen((mid1, mid2, mid3, mid4, mid5))]
            {
                &&& chosen((mid1, mid2, mid3, mid4, mid5))
                &&& declared(pre, mid1, fs.name, false)
                &&& declared(mid1, mid2, fs.name, true)
                &&& scope_opened(mid2, mid3)
                &&& params_declared(mid3, fs.params@, fs.params@.len() as int, mid4)
                &&& rstmts_run(mid4, fs.body@, mid5, r)
                &&& scope_closed(mid5, post)
            },
        Stmt::If(i) => exists|mid1: Resolver, r1: Result<(), LoxResult>|
            #![trigger chosen((mid1, r1))]
            {
                &&& chosen((mid1, r1))
                &&& rexpr_r(pre, *i.condition, mid1, r1)
                &&& match r1 {
                    Err(_) => post == mid1 && r == r1,
                    Ok(_) => exists|mid2: Resolver, r2: Result<(), LoxResult>|
                        #![trigger chosen((mid2, r2))]
                        {
                            &&& chosen((mid2, r2))
                            &&& rstmt_r(mid1, *i.then_branch, mid2, r2)
                            &&& match r2 {
                                Err(_) => post == mid2 && r == r2,
                                Ok(_) => match i.else_branch {
                                    Some(eb) => rstmt_r(mid2, *eb, post, r),
                                    None => post == mid2 && r == Ok::<(), LoxResult>(()),
                                },
                            }
                        },
                }
            },
        Stmt::Print(p) => rexpr_r(pre, *p.expression, post, r),
        Stmt::Return(rs) => match rs.value {
            Some(e) => rexpr_r(pre, *e, post, r),
            None => post == pre && r == Ok::<(), LoxResult>(()),
        },
        Stmt::Var(v) => exists|mid1: Resolver|
            #![trigger chosen((mid1,))]
            {
                &&& chosen((mid1,))
                &&& declared(pre, mid1, v.name, false)
                &&& match v.initializer {
                    Some(init) => exists|mid2: Resolver, r1: Result<(), LoxResult>|
                        #![trigger chosen((mid2, r1))]
                        {
                            &&& chosen((mid2, r1))
                            &&& rexpr_r(mid1, *init, mid2, r1)
                            &&& match r1 {
                                Err(_) => post == mid2 && r == r1,
                                Ok(_) => declared(mid2, post, v.name, true) && r == Ok::<
                                    (),
                                    LoxResult,
                                >(()),
                            }
                        },
                    None => declared(mid1, post, v.name, true) && r == Ok::<(), LoxResult>(()),
                }
            },
        Stmt::While(w) => exists|mid1: Resolver, r1: Result<(), LoxResult>|
            #![trigger chosen((mid1, r1))]
            {
                &&& chosen((mid1, r1))
                &&& rexpr_r(pre, *w.condition, mid1, r1)
                &&& match r1 {
                    Err(_) => post == mid1 && r == r1,
                    Ok(_) => rstmt_r(mid1, *w.body, post, r),
                }
            },
    }
}

/// One expression resolved.
pub open spec fn rexpr_r(pre: Resolver, e: Expr, post: Resolver, r: Result<(), LoxResult>) -> bool
    decreases e, 2int, 0int,
{
    match e {
        Expr::Assign(a) => exists|mid1: Resolver, r1: Result<(), LoxResult>|
            #![trigger chosen((mid1, r1))]
            {
                &&& chosen((mid1, r1))
                &&& rexpr_r(pre, *a.value, mid1, r1)
                &&& match r1 {
                    Err(_) => post == mid1 && r == r1,
                    Ok(_) => recorded_local(mid1, post, a.id, a.name) && r == Ok::<
                        (),
                        LoxResult,
                    >(()),
                }
            },
        Expr::Binary(b) => exists|mid1: Resolver, r1: Result<(), LoxResult>|
            #![trigger chosen((mid1, r1))]
            {
                &&& chosen((mid1, r1))
                &&& rexpr_r(pre, *b.left, mid1, r1)
                &&& match r1 {
                    Err(_) => post == mid1 && r == r1,
                    Ok(_) => rexpr_r(mid1, *b.right, post, r),
                }
            },
        Expr::Call(c) => exists|mid1: Resolver, r1: Result<(), LoxResult>|
            #![trigger chosen((mid1, r1))]
            {
                &&& chosen((mid1, r1))
                &&& rexpr_r(pre, *c.callee, mid1, r1)
                &&& match r1 {
                    Err(_) => post == mid1 && r == r1,
                    Ok(_) => rexprs_run(mid1, c.arguments@, post, r),
                }
            },
        Expr::Grouping(g) => rexpr_r(pre, *g.expression, post, r),
        Expr::Literal(_) => post == pre && r == Ok::<(), LoxResult>(()),
        Expr::Logical(l) => exists|mid1: Resolver, r1: Result<(), LoxResult>|
            #![trigger chosen((mid1, r1))]
            {
                &&& chosen((mid1, r1))
                &&& rexpr_r(pre, *l.left, mid1, r1)
                &&& match r1 {
                    Err(_) => post == mid1 && r == r1,
                    Ok(_) => rexpr_r(mid1, *l.right, post, r),
                }
            },
        Expr::Unary(u) => rexpr_r(pre, *u.right, post, r),
        Expr::Variable(v) => {
            if pre.scopes@.len() > 0 && scope_state(pre.scopes@.last()@, v.name.lexeme@) == Some(
                false,
            ) {
                &&& post == pre
                &&& r matches Err(err) && own_initializer_err(err, v.name)
            } else {
                &&& recorded_local(pre, post, v.id, v.name)
                &&& r == Ok::<(), LoxResult>(())
            }
        },
    }
}


/// Introduction form for a resolved block.
pub proof fn lemma_rstmt_block(
    pre: Resolver,
    b: BlockStmt,
    mid0: Resolver,
    mid1: Resolver,
    post: Resolver,
    r: Result<(), LoxResult>,
)
    requires
        scope_opened(pre, mid0),
        rstmts_run(mid0, b.statements@, mid1, r),
        scope_closed(mid1, post),
    ensures
        rstmt_r(pre, Stmt::Block(b), post, r),
{
    assert(chosen((mid0, mid1)));
}

/// Introduction form for a resolved function declaration.
pub proof fn lemma_rstmt_function(
    pre: Resolver,
    fs: FunctionStmt,
    mid1: Resolver,
    mid2: Resolver,
    mid3: Resolver,
    mid4: Resolver,
    mid5: Resolver,
    post: Resolver,
    r: Result<(), LoxResult>,
)
    requires
        declared(pre, mid1, fs.name, false),
        declared(mid1, mid2, fs.name, true),
        scope_opened(mid2, mid3),
        params_declared(mid3, fs.params@, fs.params@.len() as int, mid4),
        rstmts_run(mid4, fs.body@, mid5, r),
        scope_closed(mid5, post),
    ensures
        rstmt_r(pre, Stmt::Function(fs), post, r),
{
    assert(chosen((mid1, mid2, mid3, mid4, mid5)));
}

/// Introduction form for a resolved call expression.
pub proof fn lemma_rexpr_call(
    pre: Resolver,
    c: CallExpr,
    mid1: Resolver,
    r1: Result<(), LoxResult>,
    post: Resolver,
    r: Result<(), LoxResult>,
)
    requires
        rexpr_r(pre, *c.callee, mid1, r1),
        match r1 {
            Err(_) => post == mid1 && r == r1,
            Ok(_) => rexprs_run(mid1, c.arguments@, post, r),
        },
    ensures
        rexpr_r(pre, Expr::Call(c), post, r),
{
    assert(chosen((mid1, r1)));
}

pub struct Resolver {
    /// The stack of open scope maps, innermost last.
    pub scopes: Vec<Vec<(String, bool)>>,
    /// The resolution table built so far: node identity to lexical
    /// distance.
    pub locals: Vec<(usize, usize)>,
}

impl Resolver {
    /// A resolver with no open scope and an empty table.
    pub fn new() -> (r: Resolver)
        ensures
            r.scopes@.len() == 0,
            r.locals@.len() == 0,
    {
        Resolver { scopes: Vec::new(), locals: Vec::new() }
    }

    /// Consumes the resolver, yielding the finished resolution table.
    pub fn into_locals(self) -> (r: Vec<(usize, usize)>)
        ensures
            r == self.locals,
    {
        self.locals
    }

    /// Opens a scope.
    fn begin_scope(&mut self)
        ensures
            final(self).scopes@ == old(self).scopes@.push(final(self).scopes@.last()),
            final(self).scopes@.last()@.len() == 0,
            final(self).locals@ == old(self).locals@,
    {
        self.scopes.push(Vec::new());
    }

    /// Closes the innermost scope.
    fn end_scope(&mut self)
        requires
            old(self).scopes@.len() > 0,
        ensures
            final(self).scopes@ == old(self).scopes@.drop_last(),
            final(self).locals@ == old(self).locals@,
    {
        let _ = self.scopes.pop();
        proof {
            assert(self.scopes@ =~= old(self).scopes@.drop_last());
        }
    }

    /// Marks `name` present but not yet usable in the innermost scope;
    /// outside any scope (at top level) nothing is tracked.
    fn declare(&mut self, name: &Token)
        ensures
            final(self).locals@ == old(self).locals@,
            final(self).scopes@.len() == old(self).scopes@.len(),
            old(self).scopes@.len() == 0 ==> final(self).scopes@ == old(self).scopes@,
            old(self).scopes@.len() > 0 ==> ({
                &&& forall|k: int|
                    0 <= k < old(self).scopes@.len() - 1 ==> #[trigger] final(self).scopes@[k]
                        == old(self).scopes@[k]
                &&& final(self).scopes@.last()@ == old(self).scopes@.last()@.push(
                    (name.lexeme, false),
                )
            }),
    {
        let n = self.scopes.len();
        if n > 0 {
            let ghost prior = self.scopes@;
            self.scopes[n - 1].push((name.lexeme.clone(), false));
            proof {
                assert(self.scopes@ =~= prior.update(n - 1, self.scopes@[n - 1]));
            }
        }
    }

    /// Marks `name` initialized in the innermost scope; outside any scope
    /// nothing is tracked.
    fn define(&mut self, name: &Token)
        ensures
            final(self).locals@ == old(self).locals@,
            final(self).scopes@.len() == old(self).scopes@.len(),
            old(self).scopes@.len() == 0 ==> final(self).scopes@ == old(self).scopes@,
            old(self).scopes@.len() > 0 ==> ({
                &&& forall|k: int|
                    0 <= k < old(self).scopes@.len() - 1 ==> #[trigger] final(self).scopes@[k]
                        == old(self).scopes@[k]
                &&& final(self).scopes@.last()@ == old(self).scopes@.last()@.push(
                    (name.lexeme, true),
                )
            }),
    {
        let n = self.scopes.len();
        if n > 0 {
            let ghost prior = self.scopes@;
            self.scopes[n - 1].push((name.lexeme.clone(), true));
            proof {
                assert(self.scopes@ =~= prior.update(n - 1, self.scopes@[n - 1]));
            }
        }
    }

    /// Records the lexical distance of the reference `id` to `name`: the
    /// innermost scope holding `name` determines the distance; a name in
    /// no scope is left unrecorded and will resolve dynamically.
    fn resolve_local(&mut self, id: usize, name: &Token)
        ensures
            final(self).scopes@ == old(self).scopes@,
            match innermost_distance(old(self).scopes@, name.lexeme@) {
                Some(d) => final(self).locals@ == old(self).locals@.push((id, d as usize)),
                None => final(self).locals@ == old(self).locals@,
            },
    {
        let mut d: usize = 0;
        let ghost all = self.scopes@;
        proof {
            assert(all.subrange(0, all.len() as int) =~= all);
        }
        while d < self.scopes.len()
            invariant
                all == old(self).scopes@,
                self.scopes@ == all,
                self.locals@ == old(self).locals@,
                d <= all.len(),
                innermost_distance(all, name.lexeme@) == (match innermost_distance(
                    all.subrange(0, all.len() - d),
                    name.lexeme@,
                ) {
                    Some(dd) => Some(dd + d),
                    None => None::<int>,
                }),
            decreases self.scopes@.len() - d,
        {
            let j = self.scopes.len() - 1 - d;
            proof {
                let s = all.subrange(0, all.len() - d);
                assert(s.last() == all[j as int]);
                assert(s.drop_last() =~= all.subrange(0, all.len() - d - 1));
            }
            if scope_contains(&self.scopes[j], &name.lexeme) {
                self.locals.push((id, d));
                return ;
            }
            d = d + 1;
        }
        proof {
            assert(all.subrange(0, 0) =~= Seq::<Vec<(String, bool)>>::empty());
        }
    }

    /// Resolves a whole statement sequence in order, stopping at the
    /// first resolution error.
    pub fn resolve(&mut self, statements: &Vec<Stmt>) -> (r: Result<(), LoxResult>)
        ensures
            final(self).scopes@.len() == old(self).scopes@.len(),
            old(self).locals@.is_prefix_of(final(self).locals@),
            rstmts_run(*old(self), statements@, *final(self), r),
    {
        let mut i: usize = 0;
        while i < statements.len()
            invariant
                self.scopes@.len() == old(self).scopes@.len(),
                old(self).locals@.is_prefix_of(self.locals@),
                i <= statements@.len(),
                rstmts_prefix(*old(self), statements@, i as int, *self),
            decreases statements@.len() - i,
        {
            let ghost before = *self;
            let r = self.resolve_stmt(&statements[i]);
            let ghost rg = r;
            proof {
                assert(chosen((before,)));
            }
            match r {
                Err(e) => {
                    let ghost eg = e;
                    proof {
                        assert(chosen((i as int, before)));
                        assert(rg == Err::<(), LoxResult>(eg));
                    }
                    return Err(e);
                },
                Ok(u) => {
                    proof {
                        assert(rg == Ok::<(), LoxResult>(u));
                        assert(u == ());
                        assert(rstmts_prefix(*old(self), statements@, i + 1, *self));
                    }
                },
            }
            i = i + 1;
        }
        Ok(())
    }

    /// Resolves one statement. The scope stack is left at its entry
    /// depth on every path, error paths included.
    pub fn resolve_stmt(&mut self, stmt: &Stmt) -> (r: Result<(), LoxResult>)
        ensures
            final(self).scopes@.len() == old(self).scopes@.len(),
            old(self).locals@.is_prefix_of(final(self).locals@),
            rstmt_r(*old(self), *stmt, *final(self), r),
        decreases *stmt,
    {
        match stmt {
            Stmt::Block(s) => self.visit_block_stmt(s),
            Stmt::Break(s) => self.visit_break_stmt(s),
            Stmt::Expression(s) => self.visit_expression_stmt(s),
            Stmt::Function(s) => self.visit_function_stmt(s),
            Stmt::If(s) => self.visit_if_stmt(s),
            Stmt::Print(s) => self.visit_print_stmt(s),
            Stmt::Return(s) => self.visit_return_stmt(s),
            Stmt::Var(s) => self.visit_var_stmt(s),
            Stmt::While(s) => self.visit_while_stmt(s),
        }
    }

    /// Resolves one expression. The scope stack is left at its entry
    /// depth on every path.
    pub fn resolve_expr(&mut self, expr: &Expr) -> (r: Result<(), LoxResult>)
        ensures
            final(self).scopes@.len() == old(self).scopes@.len(),
            old(self).locals@.is_prefix_of(final(self).locals@),
            rexpr_r(*old(self), *expr, *final(self), r),
        decreases *expr,
    {
        match expr {
            Expr::Assign(e) => self.visit_assign_expr(e),
            Expr::Binary(e) => self.visit_binary_expr(e),
            Expr::Call(e) => self.visit_call_expr(e),
            Expr::Grouping(e) => self.visit_grouping_expr(e),
            Expr::Literal(e) => self.visit_literal_expr(e),
            Expr::Logical(e) => self.visit_logical_expr(e),
            Expr::Unary(e) => self.visit_unary_expr(e),
            Expr::Variable(e) => self.visit_variable_expr(e),
        }
    }

    /// A block opens one scope around its body and closes it again on
    /// every path out, so resolution errors cannot leak a scope.
    fn visit_block_stmt(&mut self, stmt: &BlockStmt) -> (r: Result<(), LoxResult>)
        ensures
            final(self).scopes@.len() == old(self).scopes@.len(),
            old(self).locals@.is_prefix_of(final(self).locals@),
            rstmt_r(*old(self), Stmt::Block(*stmt), *final(self), r),
        decreases *stmt,
    {
        self.begin_scope();
        let ghost mid0 = *self;
        proof {
            assert(scope_opened(*old(self), mid0));
        }
        let mut i: usize = 0;
        let mut failure: Option<LoxResult> = None;
        while i < stmt.statements.len() && failure.is_none()
            invariant
                self.scopes@.len() == old(self).scopes@.len() + 1,
                old(self).locals@.is_prefix_of(self.locals@),
                i <= stmt.statements@.len(),
                scope_opened(*old(self), mid0),
                match failure {
                    None => rstmts_prefix(mid0, stmt.statements@, i as int, *self),
                    Some(e) => rstmts_run(mid0, stmt.statements@, *self, Err(e)),
                },
            decreases stmt.statements@.len() - i,
        {
            let ghost before = *self;
            let r = self.resolve_stmt(&stmt.statements[i]);
            let ghost rg = r;
            proof {
                assert(chosen((before,)));
            }
            match r {
                Err(e) => {
                    failure = Some(e);
                    proof {
                        assert(chosen((i as int, before)));
                    }
                },
                Ok(u) => {
                    proof {
                        assert(rg == Ok::<(), LoxResult>(u));
                        assert(u == ());
                        assert(rstmts_prefix(mid0, stmt.statements@, i + 1, *self));
                    }
                },
            }
            i = i + 1;
        }
        let ghost mid1 = *self;
        self.end_scope();
        let result: Result<(), LoxResult> = match failure {
            Some(e) => Err(e),
            None => Ok(()),
        };
        let ghost resg = result;
        proof {
            assert(scope_closed(mid1, *self));
            lemma_rstmt_block(*old(self), *stmt, mid0, mid1, *self, resg);
        }
        result
    }

    fn visit_break_stmt(&mut self, stmt: &BreakStmt) -> (r: Result<(), LoxResult>)
        ensures
            *final(self) == *old(self),
            r is Ok,
            rstmt_r(*old(self), Stmt::Break(*stmt), *final(self), r),
    {
        Ok(())
    }

    fn visit_expression_stmt(&mut self, stmt: &ExpressionStmt) -> (r: Result<(), LoxResult>)
        ensures
            final(self).scopes@.len() == old(self).scopes@.len(),
            old(self).locals@.is_prefix_of(final(self).locals@),
            rstmt_r(*old(self), Stmt::Expression(*stmt), *final(self), r),
        decreases *stmt,
    {
        self.resolve_expr(&stmt.expression)
    }

    /// A function declaration makes its own name usable in the current
    /// scope before its body resolves — enabling recursion — then
    /// resolves parameters and body in one fresh scope.
    fn visit_function_stmt(&mut self, stmt: &FunctionStmt) -> (r: Result<(), LoxResult>)
        ensures
            final(self).scopes@.len() == old(self).scopes@.len(),
            old(self).locals@.is_prefix_of(final(self).locals@),
            rstmt_r(*old(self), Stmt::Function(*stmt), *final(self), r),
        decreases *stmt,
    {
        self.declare(&stmt.name);
        let ghost mid1 = *self;
        self.define(&stmt.name);
        let ghost mid2 = *self;
        self.begin_scope();
        let ghost mid3 = *self;
        proof {
            assert(declared(*old(self), mid1, stmt.name, false));
            assert(declared(mid1, mid2, stmt.name, true));
            assert(scope_opened(mid2, mid3));
            assert(params_declared(mid3, stmt.params@, 0, *self));
        }
        let mut p: usize = 0;
        while p < stmt.params.len()
            invariant
                self.scopes@.len() == old(self).scopes@.len() + 1,
                self.locals@ == old(self).locals@,
                p <= stmt.params@.len(),
                params_declared(mid3, stmt.params@, p as int, *self),
            decreases stmt.params@.len() - p,
        {
            let ghost s0 = *self;
            self.declare(&stmt.params[p]);
            let ghost s1 = *self;
            self.define(&stmt.params[p]);
            proof {
                assert(declared(s0, s1, stmt.params@[p as int], false));
                assert(declared(s1, *self, stmt.params@[p as int], true));
                assert(chosen((s0, s1)));
                assert(params_declared(mid3, stmt.params@, p + 1, *self));
            }
            p = p + 1;
        }
        let ghost mid4 = *self;
        let mut i: usize = 0;
        let mut failure: Option<LoxResult> = None;
        while i < stmt.body.len() && failure.is_none()
            invariant
                self.scopes@.len() == old(self).scopes@.len() + 1,
                old(self).locals@.is_prefix_of(self.locals@),
                i <= stmt.body@.len(),
                match failure {
                    None => rstmts_prefix(mid4, stmt.body@, i as int, *self),
                    Some(e) => rstmts_run(mid4, stmt.body@, *self, Err(e)),
                },
            decreases stmt.body@.len() - i,
        {
            let ghost before = *self;
            let r = self.resolve_stmt(&stmt.body[i]);
            let ghost rg = r;
            proof {
                assert(chosen((before,)));
            }
            match r {
                Err(e) => {
                    failure = Some(e);
                    proof {
                        assert(chosen((i as int, before)));
                    }
                },
                Ok(u) => {
                    proof {
                        assert(rg == Ok::<(), LoxResult>(u));
                        assert(u == ());
                        assert(rstmts_prefix(mid4, stmt.body@, i + 1, *self));
                    }
                },
            }
            i = i + 1;
        }
        let ghost mid5 = *self;
        self.end_scope();
        let result: Result<(), LoxResult> = match failure {
            Some(e) => Err(e),
            None => Ok(()),
        };
        let ghost resg = result;
        proof {
            assert(scope_closed(mid5, *self));
            lemma_rstmt_function(*old(self), *stmt, mid1, mid2, mid3, mid4, mid5, *self, resg);
        }
        result
    }

    fn visit_if_stmt(&mut self, stmt: &IfStmt) -> (r: Result<(), LoxResult>)
        ensures
            final(self).scopes@.len() == old(self).scopes@.len(),
            old(self).locals@.is_prefix_of(final(self).locals@),
            rstmt_r(*old(self), Stmt::If(*stmt), *final(self), r),
        decreases *stmt,
    {
        let r1 = self.resolve_expr(&stmt.condition);
        let ghost r1g = r1;
        proof {
            assert(chosen((*self, r1g)));
        }
        if let Err(e) = r1 {
            return Err(e);
        }
        let r2 = self.resolve_stmt(&stmt.then_branch);
        let ghost r2g = r2;
        proof {
            assert(chosen((*self, r2g)));
        }
        if let Err(e) = r2 {
            return Err(e);
        }
        match &stmt.else_branch {
            Some(else_branch) => self.resolve_stmt(else_branch),
            None => Ok(()),
        }
    }

    fn visit_print_stmt(&mut self, stmt: &PrintStmt) -> (r: Result<(), LoxResult>)
        ensures
            final(self).scopes@.len() == old(self).scopes@.len(),
            old(self).locals@.is_prefix_of(final(self).locals@),
            rstmt_r(*old(self), Stmt::Print(*stmt), *final(self), r),
        decreases *stmt,
    {
        self.resolve_expr(&stmt.expression)
    }

    fn visit_return_stmt(&mut self, stmt: &ReturnStmt) -> (r: Result<(), LoxResult>)
        ensures
            final(self).scopes@.len() == old(self).scopes@.len(),
            old(self).locals@.is_prefix_of(final(self).locals@),
            rstmt_r(*old(self), Stmt::Return(*stmt), *final(self), r),
        decreases *stmt,
    {
        match &stmt.value {
            Some(value) => self.resolve_expr(value),
            None => Ok(()),
        }
    }

    /// A variable declaration declares the name, resolves the
    /// initializer while the name is still unusable, then defines it.
    fn visit_var_stmt(&mut self, stmt: &VarStmt) -> (r: Result<(), LoxResult>)
        ensures
            final(self).scopes@.len() == old(self).scopes@.len(),
            old(self).locals@.is_prefix_of(final(self).locals@),
            rstmt_r(*old(self), Stmt::Var(*stmt), *final(self), r),
        decreases *stmt,
    {
        self.declare(&stmt.name);
        let ghost mid1 = *self;
        proof {
            assert(declared(*old(self), mid1, stmt.name, false));
            assert(chosen((mid1,)));
        }
        match &stmt.initializer {
            Some(initializer) => {
                let r1 = self.resolve_expr(initializer);
                let ghost r1g = r1;
                proof {
                    assert(chosen((*self, r1g)));
                }
                if let Err(e) = r1 {
                    return Err(e);
                }
            },
            None => {},
        }
        let ghost mid2 = *self;
        self.define(&stmt.name);
        proof {
            assert(declared(mid2, *self, stmt.name, true));
        }
        Ok(())
    }

    fn visit_while_stmt(&mut self, stmt: &WhileStmt) -> (r: Result<(), LoxResult>)
        ensures
            final(self).scopes@.len() == old(self).scopes@.len(),
            old(self).locals@.is_prefix_of(final(self).locals@),
            rstmt_r(*old(self), Stmt::While(*stmt), *final(self), r),
        decreases *stmt,
    {
        let r1 = self.resolve_expr(&stmt.condition);
        let ghost r1g = r1;
        proof {
            assert(chosen((*self, r1g)));
        }
        if let Err(e) = r1 {
            return Err(e);
        }
        self.resolve_stmt(&stmt.body)
    }

    /// An assignment resolves the assigned value, then records the
    /// target's distance under the node's identity.
    fn visit_assign_expr(&mut self, expr: &AssignExpr) -> (r: Result<(), LoxResult>)
        ensures
            final(self).scopes@.len() == old(self).scopes@.len(),
            old(self).locals@.is_prefix_of(final(self).locals@),
            rexpr_r(*old(self), Expr::Assign(*expr), *final(self), r),
        decreases *expr,
    {
        let r1 = self.resolve_expr(&expr.value);
        let ghost r1g = r1;
        proof {
            assert(chosen((*self, r1g)));
        }
        if let Err(e) = r1 {
            return Err(e);
        }
        let ghost mid = *self;
        self.resolve_local(expr.id, &expr.name);
        proof {
            assert(recorded_local(mid, *self, expr.id, expr.name));
        }
        Ok(())
    }

    fn visit_binary_expr(&mut self, expr: &BinaryExpr) -> (r: Result<(), LoxResult>)
        ensures
            final(self).scopes@.len() == old(self).scopes@.len(),
            old(self).locals@.is_prefix_of(final(self).locals@),
            rexpr_r(*old(self), Expr::Binary(*expr), *final(self), r),
        decreases *expr,
    {
        let r1 = self.resolve_expr(&expr.left);
        let ghost r1g = r1;
        proof {
            assert(chosen((*self, r1g)));
        }
        if let Err(e) = r1 {
            return Err(e);
        }
        self.resolve_expr(&expr.right)
    }

    fn visit_call_expr(&mut self, expr: &CallExpr) -> (r: Result<(), LoxResult>)
        ensures
            final(self).scopes@.len() == old(self).scopes@.len(),
            old(self).locals@.is_prefix_of(final(self).locals@),
            rexpr_r(*old(self), Expr::Call(*expr), *final(self), r),
        decreases *expr,
    {
        let r1 = self.resolve_expr(&expr.callee);
        let ghost r1g = r1;
        proof {
            assert(chosen((*self, r1g)));
        }
        if let Err(e) = r1 {
            return Err(e);
        }
        let ghost after_callee = *self;
        let mut i: usize = 0;
        while i < expr.arguments.len()
            invariant
                self.scopes@.len() == old(self).scopes@.len(),
                old(self).locals@.is_prefix_of(self.locals@),
                i <= expr.arguments@.len(),
                rexpr_r(*old(self), *expr.callee, after_callee, r1g),
                r1g is Ok,
                rexprs_prefix(after_callee, expr.arguments@, i as int, *self),
            decreases expr.arguments@.len() - i,
        {
            let ghost before = *self;
            let ra = self.resolve_expr(&expr.arguments[i]);
            let ghost rag = ra;
            proof {
                assert(chosen((before,)));
            }
            match ra {
                Err(e) => {
                    let ghost eg = e;
                    proof {
                        assert(chosen((i as int, before)));
                        assert(rag == Err::<(), LoxResult>(eg));
                        lemma_rexpr_call(
                            *old(self),
                            *expr,
                            after_callee,
                            r1g,
                            *self,
                            Err(eg),
                        );
                    }
                    return Err(e);
                },
                Ok(u) => {
                    proof {
                        assert(rag == Ok::<(), LoxResult>(u));
                        assert(u == ());
                        assert(rexprs_prefix(after_callee, expr.arguments@, i + 1, *self));
                    }
                },
            }
            i = i + 1;
        }
        proof {
            lemma_rexpr_call(
                *old(self),
                *expr,
                after_callee,
                r1g,
                *self,
                Ok::<(), LoxResult>(()),
            );
        }
        Ok(())
    }

    fn visit_grouping_expr(&mut self, expr: &GroupingExpr) -> (r: Result<(), LoxResult>)
        ensures
            final(self).scopes@.len() == old(self).scopes@.len(),
            old(self).locals@.is_prefix_of(final(self).locals@),
            rexpr_r(*old(self), Expr::Grouping(*expr), *final(self), r),
        decreases *expr,
    {
        self.resolve_expr(&expr.expression)
    }

    fn visit_literal_expr(&mut self, expr: &LiteralExpr) -> (r: Result<(), LoxResult>)
        ensures
            *final(self) == *old(self),
            r is Ok,
            rexpr_r(*old(self), Expr::Literal(*expr), *final(self), r),
    {
        Ok(())
    }

    fn visit_logical_expr(&mut self, expr: &LogicalExpr) -> (r: Result<(), LoxResult>)
        ensures
            final(self).scopes@.len() == old(self).scopes@.len(),
            old(self).locals@.is_prefix_of(final(self).locals@),
            rexpr_r(*old(self), Expr::Logical(*expr), *final(self), r),
        decreases *expr,
    {
        let r1 = self.resolve_expr(&expr.left);
        let ghost r1g = r1;
        proof {
            assert(chosen((*self, r1g)));
        }
        if let Err(e) = r1 {
            return Err(e);
        }
        self.resolve_expr(&expr.right)
    }

    fn visit_unary_expr(&mut self, expr: &UnaryExpr) -> (r: Result<(), LoxResult>)
        ensures
            final(self).scopes@.len() == old(self).scopes@.len(),
            old(self).locals@.is_prefix_of(final(self).locals@),
            rexpr_r(*old(self), Expr::Unary(*expr), *final(self), r),
        decreases *expr,
    {
        self.resolve_expr(&expr.right)
    }

    /// Reading a name that the innermost scope declares but has not yet
    /// defined — `var a = a;` with no usable `a` further out — is a
    /// resolution error; anything else resolves like any reference.
    fn visit_variable_expr(&mut self, expr: &VariableExpr) -> (r: Result<(), LoxResult>)
        ensures
            final(self).scopes@ == old(self).scopes@,
            match r {
                Err(e) => ({
                    &&& old(self).scopes@.len() > 0
                    &&& scope_state(old(self).scopes@.last()@, expr.name.lexeme@) == Some(false)
                    &&& final(self).locals@ == old(self).locals@
                    &&& e matches LoxResult::RuntimeError { token, message } && token == expr.name
                        && message@ == "Can't read local variable in its own initializer"@
                }),
                Ok(_) => ({
                    &&& !(old(self).scopes@.len() > 0 && scope_state(
                        old(self).scopes@.last()@,
                        expr.name.lexeme@,
                    ) == Some(false))
                    &&& match innermost_distance(old(self).scopes@, expr.name.lexeme@) {
                        Some(d) => final(self).locals@ == old(self).locals@.push(
                            (expr.id, d as usize),
                        ),
                        None => final(self).locals@ == old(self).locals@,
                    }
                }),
            },
            rexpr_r(*old(self), Expr::Variable(*expr), *final(self), r),
    {
        let n = self.scopes.len();
        if n > 0 {
            let state = scope_state_of(&self.scopes[n - 1], &expr.name.lexeme);
            if let Some(false) = state {
                return Err(
                    LoxResult::runtime_error(
                        &expr.name,
                        "Can't read local variable in its own initializer",
                    ),
                );
            }
        }
        self.resolve_local(expr.id, &expr.name);
        Ok(())
    }
}

} // verus!

//! Lexical scope frames and the frame store.
//!
//! A frame (`Environment`) owns a name-to-value table and, except for the
//! global frame, the index of its enclosing frame. All frames of a run
//! live in one store (`EnvChain`): closures capture a frame by index, and
//! because frames are never removed and their enclosing links never
//! change, a captured frame outlives the call that created it — which is
//! what keeps closed-over locals alive.
//!
//! A frame's table is an association list read from the newest entry
//! backwards, so defining an already-bound name shadows the old entry and
//! a lookup sees the newest binding.

use crate::error::LoxResult;
use crate::object::Object;
use crate::token::Token;
use vstd::prelude::*;

verus! {

/// One lexical scope frame.
#[derive(Debug)]
#[verifier::ext_equal]
pub struct Environment {
    pub values: Vec<(String, Object)>,
    /// Index of the enclosing frame; `None` only for the global frame.
    pub enclosing: Option<usize>,
}

/// The index of the newest entry for `name`, or -1 when the frame does
/// not bind it.
pub open spec fn frame_index_of(values: Seq<(String, Object)>, name: Seq<char>) -> int
    decreases values.len(),
{
    if values.len() == 0 {
        -1
    } else if values.last().0@ == name {
        values.len() - 1
    } else {
        frame_index_of(values.drop_last(), name)
    }
}

/// The value a frame binds `name` to, if any: the newest entry wins.
pub open spec fn frame_lookup(values: Seq<(String, Object)>, name: Seq<char>) -> Option<Object> {
    let i = frame_index_of(values, name);
    if i >= 0 {
        Some(values[i].1)
    } else {
        None
    }
}

/// The index returned by `frame_index_of` is in range and names `name`.
pub proof fn lemma_frame_index_of(values: Seq<(String, Object)>, name: Seq<char>)
    ensures
        -1 <= frame_index_of(values, name) < values.len(),
        frame_index_of(values, name) >= 0 ==> values[frame_index_of(values, name)].0@ == name,
    decreases values.len(),
{
    if values.len() > 0 && values.last().0@ != name {
        lemma_frame_index_of(values.drop_last(), name);
    }
}

/// Replacing the value of an entry, keeping its name, moves no entry:
/// every name still resolves to the same index.
pub proof fn lemma_frame_index_update_value(
    values: Seq<(String, Object)>,
    i: int,
    value: Object,
    name: Seq<char>,
)
    requires
        0 <= i < values.len(),
    ensures
        frame_index_of(values.update(i, (values[i].0, value)), name) == frame_index_of(
            values,
            name,
        ),
    decreases values.len(),
{
    let u = values.update(i, (values[i].0, value));
    if i == values.len() - 1 {
        if u.last().0@ != name {
            assert(u.drop_last() =~= values.drop_last());
        }
    } else {
        assert(u.last() == values.last());
        if u.last().0@ != name {
            assert(u.drop_last() =~= values.drop_last().update(i, (values.drop_last()[i].0,
            value)));
            lemma_frame_index_update_value(values.drop_last(), i, value, name);
        }
    }
}

impl Environment {
    /// A frame with no bindings and no enclosing frame: the shape of the
    /// global frame.
    pub fn new() -> (r: Environment)
        ensures
            r.values@.len() == 0,
            r.enclosing is None,
    {
        Environment { values: Vec::new(), enclosing: None }
    }

    /// An empty frame enclosed by the frame at `enclosing`.
    pub fn new_with_enclosing(enclosing: usize) -> (r: Environment)
        ensures
            r.values@.len() == 0,
            r.enclosing == Some(enclosing),
    {
        Environment { values: Vec::new(), enclosing: Some(enclosing) }
    }

    /// Binds `name` to `value` in this frame alone, shadowing any previous
    /// binding of the same name; re-declaration is always legal.
    pub fn define(&mut self, name: String, value: Object)
        ensures
            final(self).values@ == old(self).values@.push((name, value)),
            final(self).enclosing == old(self).enclosing,
            frame_lookup(final(self).values@, name@) == Some(value),
    {
        self.values.push((name, value));
        proof {
            assert(self.values@.last() == (name, value));
        }
    }

    /// The index of the newest entry for `name` in this frame.
    fn local_index(&self, name: &String) -> (r: Option<usize>)
        ensures
            match r {
                Some(i) => frame_index_of(self.values@, name@) == i && i < self.values@.len(),
                None => frame_index_of(self.values@, name@) == -1,
            },
    {
        let mut i = self.values.len();
        proof {
            assert(self.values@.subrange(0, i as int) =~= self.values@);
        }
        while i > 0
            invariant
                i <= self.values@.len(),
                frame_index_of(self.values@, name@) == frame_index_of(
                    self.values@.subrange(0, i as int),
                    name@,
                ),
            decreases i,
        {
            i = i - 1;
            proof {
                let s = self.values@.subrange(0, i + 1);
                assert(s.last() == self.values@[i as int]);
                assert(s.drop_last() =~= self.values@.subrange(0, i as int));
            }
            let entry = &self.values[i];
            if entry.0 == *name {
                return Some(i);
            }
        }
        proof {
            assert(self.values@.subrange(0, 0) =~= Seq::<(String, Object)>::empty());
        }
        None
    }

    /// The value this frame binds `name` to, if any.
    pub fn get_local(&self, name: &String) -> (r: Option<Object>)
        ensures
            r == frame_lookup(self.values@, name@),
    {
        match self.local_index(name) {
            Some(i) => Some(self.values[i].1.clone()),
            None => None,
        }
    }

    /// Rebinds an existing binding of `name` in this frame to `value`;
    /// returns false, changing nothing, when the frame does not bind
    /// `name`. Never creates a binding.
    pub fn assign_local(&mut self, name: &String, value: Object) -> (r: bool)
        ensures
            final(self).enclosing == old(self).enclosing,
            final(self).values@.len() == old(self).values@.len(),
            r == (frame_index_of(old(self).values@, name@) >= 0),
            !r ==> final(self).values@ == old(self).values@,
            r ==> frame_lookup(final(self).values@, name@) == Some(value),
            forall|other: Seq<char>|
                other != name@ ==> frame_lookup(final(self).values@, other) == frame_lookup(
                    old(self).values@,
                    other,
                ),
    {
        match self.local_index(name) {
            Some(i) => {
                proof {
                    lemma_frame_index_of(self.values@, name@);
                }
                let ghost prior = self.values@;
                self.values[i].1 = value;
                proof {
                    assert(self.values@ =~= prior.update(i as int, (prior[i as int].0, value)));
                    assert forall|other: Seq<char>| true implies frame_index_of(
                        self.values@,
                        other,
                    ) == frame_index_of(prior, other) by {
                        lemma_frame_index_update_value(prior, i as int, value, other);
                    }
                    lemma_frame_index_of(prior, name@);
                    assert forall|other: Seq<char>| other != name@ implies frame_lookup(
                        self.values@,
                        other,
                    ) == frame_lookup(prior, other) by {
                        let j = frame_index_of(prior, other);
                        if j >= 0 {
                            lemma_frame_index_of(prior, other);
                            assert(prior[j].0@ == other);
                            assert(j != i);
                        }
                    }
                }
                true
            },
            None => false,
        }
    }
}

/// The store of every frame of a run. Frame 0 is the global frame; every
/// later frame encloses to an earlier one, so enclosing chains are acyclic
/// and end at the global frame.
pub open spec fn chain_wf(frames: Seq<Environment>) -> bool {
    &&& frames.len() >= 1
    &&& frames[0].enclosing is None
    &&& forall|i: int|
        1 <= i < frames.len() ==> ((#[trigger] frames[i].enclosing) matches Some(e) && e < i)
}

/// The value `name` resolves to by the dynamic walk that starts at frame
/// `i` and follows enclosing links.
pub open spec fn chain_lookup(frames: Seq<Environment>, i: int, name: Seq<char>) -> Option<Object>
    decreases i,
{
    if 0 <= i < frames.len() {
        match frame_lookup(frames[i].values@, name) {
            Some(v) => Some(v),
            None => match frames[i].enclosing {
                Some(e) => if e < i {
                    chain_lookup(frames, e as int, name)
                } else {
                    None
                },
                None => None,
            },
        }
    } else {
        None
    }
}

/// The frame the dynamic walk from `i` finds `name` in, or -1.
pub open spec fn chain_defining_frame(frames: Seq<Environment>, i: int, name: Seq<char>) -> int
    decreases i,
{
    if 0 <= i < frames.len() {
        if frame_lookup(frames[i].values@, name) is Some {
            i
        } else {
            match frames[i].enclosing {
                Some(e) => if e < i {
                    chain_defining_frame(frames, e as int, name)
                } else {
                    -1
                },
                None => -1,
            }
        }
    } else {
        -1
    }
}

/// The frame `distance` enclosing hops above frame `i`, or -1 when the
/// chain is shorter than that.
pub open spec fn ancestor_frame(frames: Seq<Environment>, i: int, distance: nat) -> int
    decreases distance,
{
    if !(0 <= i < frames.len()) {
        -1
    } else if distance == 0 {
        i
    } else {
        match frames[i].enclosing {
            Some(e) => if e < i {
                ancestor_frame(frames, e as int, (distance - 1) as nat)
            } else {
                -1
            },
            None => -1,
        }
    }
}

/// The dynamic walk agrees on two stores whose frames agree on `name` and
/// on their enclosing links.
pub proof fn lemma_chain_lookup_agree(
    a: Seq<Environment>,
    b: Seq<Environment>,
    i: int,
    name: Seq<char>,
)
    requires
        a.len() == b.len(),
        forall|k: int| 0 <= k < a.len() ==> (#[trigger] b[k]).enclosing == a[k].enclosing,
        forall|k: int|
            0 <= k < a.len() ==> frame_lookup((#[trigger] b[k]).values@, name) == frame_lookup(
                a[k].values@,
                name,
            ),
    ensures
        chain_lookup(b, i, name) == chain_lookup(a, i, name),
        chain_defining_frame(b, i, name) == chain_defining_frame(a, i, name),
    decreases i,
{
    if 0 <= i < a.len() {
        if frame_lookup(a[i].values@, name) is None {
            match a[i].enclosing {
                Some(e) => {
                    if e < i {
                        lemma_chain_lookup_agree(a, b, e as int, name);
                    }
                },
                None => {},
            }
        }
    }
}

/// The defining frame of the walk from `i` never lies above `i`.
pub proof fn lemma_chain_defining_frame_le(a: Seq<Environment>, i: int, name: Seq<char>)
    requires
        i >= 0,
    ensures
        chain_defining_frame(a, i, name) <= i,
    decreases i,
{
    if 0 <= i < a.len() {
        if frame_lookup(a[i].values@, name) is None {
            match a[i].enclosing {
                Some(e) => {
                    if e < i {
                        lemma_chain_defining_frame_le(a, e as int, name);
                    }
                },
                None => {},
            }
        }
    }
}

/// After the frame that defines `name` for the walk from `i` is rebound
/// to `value` — and no other frame changes — the walk from `i` yields
/// `value`.
pub proof fn lemma_chain_lookup_after_assign(
    a: Seq<Environment>,
    b: Seq<Environment>,
    i: int,
    j: int,
    name: Seq<char>,
    value: Object,
)
    requires
        a.len() == b.len(),
        chain_defining_frame(a, i, name) == j,
        j >= 0,
        forall|k: int| 0 <= k < a.len() && k != j ==> #[trigger] b[k] == a[k],
        b[j].enclosing == a[j].enclosing,
        frame_lookup(b[j].values@, name) == Some(value),
    ensures
        chain_lookup(b, i, name) == Some(value),
    decreases i,
{
    if 0 <= i < a.len() {
        if frame_lookup(a[i].values@, name) is Some {
            assert(i == j);
        } else {
            match a[i].enclosing {
                Some(e) => {
                    if e < i {
                        lemma_chain_defining_frame_le(a, e as int, name);
                        assert(i != j);
                        lemma_chain_lookup_after_assign(a, b, e as int, j, name, value);
                    }
                },
                None => {},
            }
        }
    }
}

/// Re-declaring a name in the same frame is legal, and the newest
/// binding wins: after binding `name` to `v1` and then to `v2`, a lookup
/// yields `v2`.
pub proof fn lemma_redeclare_overwrites(
    values: Seq<(String, Object)>,
    name: String,
    v1: Object,
    v2: Object,
)
    ensures
        frame_lookup(values.push((name, v1)).push((name, v2)), name@) == Some(v2),
{
    assert(values.push((name, v1)).push((name, v2)).last() == (name, v2));
}

/// A binding in the starting frame shadows every same-named binding
/// further out: the dynamic walk never looks past the innermost frame
/// that binds the name.
pub proof fn lemma_shadowing(frames: Seq<Environment>, i: int, name: Seq<char>)
    requires
        0 <= i < frames.len(),
        frame_lookup(frames[i].values@, name) is Some,
    ensures
        chain_lookup(frames, i, name) == frame_lookup(frames[i].values@, name),
{
}

#[derive(Debug)]
pub struct EnvChain {
    pub frames: Vec<Environment>,
}

impl EnvChain {
    /// A store holding only the empty global frame.
    pub fn new() -> (r: EnvChain)
        ensures
            chain_wf(r.frames@),
            r.frames@.len() == 1,
            r.frames@[0].values@.len() == 0,
    {
        let mut frames = Vec::new();
        frames.push(Environment::new());
        EnvChain { frames }
    }

    /// Appends a fresh empty frame enclosed by `enclosing` and returns its
    /// index. Existing frames are untouched.
    pub fn new_frame(&mut self, enclosing: usize) -> (idx: usize)
        requires
            chain_wf(old(self).frames@),
            enclosing < old(self).frames@.len(),
        ensures
            chain_wf(final(self).frames@),
            idx == old(self).frames@.len(),
            final(self).frames@.len() == old(self).frames@.len() + 1,
            forall|k: int|
                0 <= k < old(self).frames@.len() ==> #[trigger] final(self).frames@[k] == old(self).frames@[k],
            final(self).frames@[idx as int].values@.len() == 0,
            final(self).frames@[idx as int].enclosing == Some(enclosing),
    {
        let idx = self.frames.len();
        self.frames.push(Environment::new_with_enclosing(enclosing));
        idx
    }

    /// Binds `name` to `value` in frame `frame` alone.
    pub fn define(&mut self, frame: usize, name: String, value: Object)
        requires
            chain_wf(old(self).frames@),
            frame < old(self).frames@.len(),
        ensures
            chain_wf(final(self).frames@),
            final(self).frames@.len() == old(self).frames@.len(),
            forall|k: int|
                0 <= k < final(self).frames@.len() && k != frame ==> #[trigger] final(self).frames@[k] == old(self).frames@[k],
            final(self).frames@[frame as int].enclosing == old(self).frames@[frame as int].enclosing,
            final(self).frames@[frame as int].values@ == old(self).frames@[frame as int].values@.push((name, value)),
            chain_lookup(final(self).frames@, frame as int, name@) == Some(value),
    {
        let ghost prior = self.frames@;
        self.frames[frame].define(name, value);
        proof {
            assert(self.frames@ =~= prior.update(frame as int, self.frames@[frame as int]));
        }
    }

    /// Resolves `name` dynamically: checks frame `frame`, then walks the
    /// enclosing chain; errs with an "undefined variable" report naming
    /// the token when no frame on the chain binds it.
    pub fn get(&self, frame: usize, name: &Token) -> (r: Result<Object, LoxResult>)
        requires
            chain_wf(self.frames@),
            frame < self.frames@.len(),
        ensures
            match r {
                Ok(v) => chain_lookup(self.frames@, frame as int, name.lexeme@) == Some(v),
                Err(e) => chain_lookup(self.frames@, frame as int, name.lexeme@) is None && (
                e matches LoxResult::RuntimeError { token, message } && token == *name && message@
                    == "Undefined variable '"@ + name.lexeme@ + "'."@),
            },
    {
        let mut cur = frame;
        loop
            invariant
                chain_wf(self.frames@),
                cur < self.frames@.len(),
                chain_lookup(self.frames@, frame as int, name.lexeme@) == chain_lookup(
                    self.frames@,
                    cur as int,
                    name.lexeme@,
                ),
            decreases cur,
        {
            match self.frames[cur].get_local(&name.lexeme) {
                Some(v) => {
                    return Ok(v);
                },
                None => {
                    let enclosing = self.frames[cur].enclosing;
                    match enclosing {
                        Some(e) => {
                            cur = e;
                        },
                        None => {
                            let message = String::from_str("Undefined variable '").concat(
                                name.lexeme.as_str(),
                            ).concat("'.");
                            return Err(LoxResult::runtime_error(name, message.as_str()));
                        },
                    }
                },
            }
        }
    }

    /// Rebinds `name` where the dynamic walk from `frame` finds it; errs
    /// with an "undefined variable" report, changing nothing, when no
    /// frame on the chain binds it. Never creates a binding.
    pub fn assign(&mut self, frame: usize, name: &Token, value: Object) -> (r: Result<
        (),
        LoxResult,
    >)
        requires
            chain_wf(old(self).frames@),
            frame < old(self).frames@.len(),
        ensures
            chain_wf(final(self).frames@),
            final(self).frames@.len() == old(self).frames@.len(),
            match r {
                Ok(_) => ({
                    let j = chain_defining_frame(old(self).frames@, frame as int, name.lexeme@);
                    &&& j >= 0
                    &&& forall|k: int|
                        0 <= k < final(self).frames@.len() && k != j ==> #[trigger] final(self).frames@[k] == old(self).frames@[k]
                    &&& final(self).frames@[j].enclosing == old(self).frames@[j].enclosing
                    &&& final(self).frames@[j].values@.len() == old(self).frames@[j].values@.len()
                    &&& chain_lookup(final(self).frames@, frame as int, name.lexeme@) == Some(
                        value,
                    )
                    &&& forall|other: Seq<char>|
                        other != name.lexeme@ ==> chain_lookup(
                            final(self).frames@,
                            frame as int,
                            other,
                        ) == chain_lookup(old(self).frames@, frame as int, other)
                }),
                Err(e) => ({
                    &&& chain_defining_frame(old(self).frames@, frame as int, name.lexeme@) == -1
                    &&& final(self).frames@ == old(self).frames@
                    &&& e matches LoxResult::RuntimeError { token, message } && token == *name
                        && message@ == "Undefined Variable '"@ + name.lexeme@ + "'."@
                }),
            },
    {
        let mut cur = frame;
        loop
            invariant
                self.frames@ == old(self).frames@,
                chain_wf(self.frames@),
                cur < self.frames@.len(),
                frame < self.frames@.len(),
                chain_defining_frame(self.frames@, frame as int, name.lexeme@)
                    == chain_defining_frame(self.frames@, cur as int, name.lexeme@),
            decreases cur,
        {
            let has_binding = match self.frames[cur].get_local(&name.lexeme) {
                Some(_) => true,
                None => false,
            };
            if has_binding {
                let ghost prior = self.frames@;
                let ghost j = cur as int;
                let ok = self.frames[cur].assign_local(&name.lexeme, value);
                proof {
                    assert(ok);
                    assert(self.frames@ =~= prior.update(j, self.frames@[j]));
                    assert(chain_defining_frame(prior, frame as int, name.lexeme@) == j);
                    lemma_chain_lookup_after_assign(
                        prior,
                        self.frames@,
                        frame as int,
                        j,
                        name.lexeme@,
                        value,
                    );
                    assert forall|other: Seq<char>| other != name.lexeme@ implies chain_lookup(
                        self.frames@,
                        frame as int,
                        other,
                    ) == chain_lookup(prior, frame as int, other) by {
                        lemma_chain_lookup_agree(prior, self.frames@, frame as int, other);
                    }
                }
                return Ok(());
            } else {
                let enclosing = self.frames[cur].enclosing;
                match enclosing {
                    Some(e) => {
                        cur = e;
                    },
                    None => {
                        let message = String::from_str("Undefined Variable '").concat(
                            name.lexeme.as_str(),
                        ).concat("'.");
                        return Err(LoxResult::runtime_error(name, message.as_str()));
                    },
                }
            }
        }
    }

    /// The frame `distance` hops above `frame`, following enclosing links;
    /// `None` when the chain is shorter than that.
    fn ancestor(&self, frame: usize, distance: usize) -> (r: Option<usize>)
        requires
            chain_wf(self.frames@),
            frame < self.frames@.len(),
        ensures
            match r {
                Some(a) => ancestor_frame(self.frames@, frame as int, distance as nat) == a && a
                    < self.frames@.len(),
                None => ancestor_frame(self.frames@, frame as int, distance as nat) == -1,
            },
    {
        let mut cur = frame;
        let mut remaining = distance;
        while remaining > 0
            invariant
                chain_wf(self.frames@),
                cur < self.frames@.len(),
                remaining <= distance,
                ancestor_frame(self.frames@, frame as int, distance as nat) == ancestor_frame(
                    self.frames@,
                    cur as int,
                    remaining as nat,
                ),
            decreases remaining,
        {
            let enclosing = self.frames[cur].enclosing;
            match enclosing {
                Some(e) => {
                    cur = e;
                    remaining = remaining - 1;
                },
                None => {
                    return None;
                },
            }
        }
        Some(cur)
    }

    /// Reads `name` in the frame exactly `distance` hops above `frame`,
    /// with no search in between: resolved access. For a correctly
    /// resolved program this never fails; a missing frame or binding is
    /// reported as an undefined variable rather than a crash.
    pub fn get_at(&self, frame: usize, distance: usize, name: &Token) -> (r: Result<
        Object,
        LoxResult,
    >)
        requires
            chain_wf(self.frames@),
            frame < self.frames@.len(),
        ensures
            match r {
                Ok(v) => ({
                    let a = ancestor_frame(self.frames@, frame as int, distance as nat);
                    &&& a >= 0
                    &&& frame_lookup(self.frames@[a].values@, name.lexeme@) == Some(v)
                }),
                Err(e) => ({
                    let a = ancestor_frame(self.frames@, frame as int, distance as nat);
                    &&& (a == -1 || frame_lookup(self.frames@[a].values@, name.lexeme@) is None)
                    &&& e matches LoxResult::RuntimeError { token, message } && token == *name
                        && message@ == "Undefined variable '"@ + name.lexeme@ + "'."@
                }),
            },
    {
        match self.ancestor(frame, distance) {
            Some(a) => match self.frames[a].get_local(&name.lexeme) {
                Some(v) => Ok(v),
                None => {
                    let message = String::from_str("Undefined variable '").concat(
                        name.lexeme.as_str(),
                    ).concat("'.");
                    Err(LoxResult::runtime_error(name, message.as_str()))
                },
            },
            None => {
                let message = String::from_str("Undefined variable '").concat(name.lexeme.as_str())
                    .concat("'.");
                Err(LoxResult::runtime_error(name, message.as_str()))
            },
        }
    }

    /// Rebinds `name` in the frame exactly `distance` hops above `frame`,
    /// with no search in between: resolved access. Fails like `get_at`
    /// when the frame or the binding is missing, changing nothing.
    pub fn assign_at(&mut self, frame: usize, distance: usize, name: &Token, value: Object) -> (r:
        Result<(), LoxResult>)
        requires
            chain_wf(old(self).frames@),
            frame < old(self).frames@.len(),
        ensures
            chain_wf(final(self).frames@),
            final(self).frames@.len() == old(self).frames@.len(),
            match r {
                Ok(_) => ({
                    let a = ancestor_frame(old(self).frames@, frame as int, distance as nat);
                    &&& a >= 0
                    &&& frame_lookup(old(self).frames@[a].values@, name.lexeme@) is Some
                    &&& forall|k: int|
                        0 <= k < final(self).frames@.len() && k != a ==> #[trigger] final(self).frames@[k] == old(self).frames@[k]
                    &&& final(self).frames@[a].enclosing == old(self).frames@[a].enclosing
                    &&& frame_lookup(final(self).frames@[a].values@, name.lexeme@) == Some(value)
                    &&& forall|other: Seq<char>|
                        other != name.lexeme@ ==> frame_lookup(
                            final(self).frames@[a].values@,
                            other,
                        ) == frame_lookup(old(self).frames@[a].values@, other)
                }),
                Err(e) => ({
                    let a = ancestor_frame(old(self).frames@, frame as int, distance as nat);
                    &&& (a == -1 || frame_lookup(old(self).frames@[a].values@, name.lexeme@)
                        is None)
                    &&& final(self).frames@ == old(self).frames@
                    &&& e matches LoxResult::RuntimeError { token, message } && token == *name
                        && message@ == "Undefined variable '"@ + name.lexeme@ + "'."@
                }),
            },
    {
        match self.ancestor(frame, distance) {
            Some(a) => {
                let has_binding = match self.frames[a].get_local(&name.lexeme) {
                    Some(_) => true,
                    None => false,
                };
                if has_binding {
                    let ghost prior = self.frames@;
                    let ok = self.frames[a].assign_local(&name.lexeme, value);
                    proof {
                        assert(ok);
                        assert(self.frames@ =~= prior.update(a as int, self.frames@[a as int]));
                    }
                    Ok(())
                } else {
                    let message = String::from_str("Undefined variable '").concat(
                        name.lexeme.as_str(),
                    ).concat("'.");
                    Err(LoxResult::runtime_error(name, message.as_str()))
                }
            },
            None => {
                let message = String::from_str("Undefined variable '").concat(name.lexeme.as_str())
                    .concat("'.");
                Err(LoxResult::runtime_error(name, message.as_str()))
            },
        }
    }
}

} // verus!

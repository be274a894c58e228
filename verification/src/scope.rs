//! Handle scopes and escapable handle scopes.
//!
//! Scopes nest strictly: only the innermost open scope can be closed, and
//! the scope token is consumed by closing, so a scope cannot be closed
//! twice. Closing a scope invalidates exactly the handles it owns; an
//! escapable scope can promote one value to its parent scope as it closes.

use vstd::prelude::*;

use crate::env::{Env, ScopeRec, Handle, js_escapable_handle_scope_t, js_handle_scope_t, js_value_t};
use crate::value::Value;

verus! {

/// An open handle scope. Dropping the token without closing leaks the
/// scope's handles for the environment's lifetime but breaks no invariant.
#[derive(Debug)]
pub struct Scope {
    pub(crate) raw: js_handle_scope_t,
}

/// An open escapable handle scope.
#[derive(Debug)]
pub struct EscapableScope {
    pub(crate) raw: js_escapable_handle_scope_t,
}

/// Opening a scope pushes a fresh id on the scope stack and changes nothing
/// else; every handle valid before stays valid.
pub open(crate) spec fn opens_scope(pre: Env, post: Env, id: u64, escapable: bool) -> bool {
    &&& id == pre.spec_next_scope_id()
    &&& post.spec_scopes() == pre.spec_scopes().push(ScopeRec { id, escapable })
    &&& post.spec_slots() == pre.spec_slots()
    &&& post.spec_handles() == pre.spec_handles()
    &&& post.spec_refs() == pre.spec_refs()
    &&& post.spec_pending() == pre.spec_pending()
    &&& post.spec_next_scope_id() == pre.spec_next_scope_id() + 1
}

/// Closing the innermost scope pops the scope stack and changes nothing
/// else; the heap is untouched, so values reachable through surviving
/// handles keep their data.
pub open(crate) spec fn closes_scope(pre: Env, post: Env) -> bool {
    &&& post.spec_scopes() == pre.spec_scopes().drop_last()
    &&& post.spec_slots() == pre.spec_slots()
    &&& post.spec_refs() == pre.spec_refs()
    &&& post.spec_pending() == pre.spec_pending()
    &&& post.spec_next_scope_id() == pre.spec_next_scope_id()
}

/// The scope-discipline consequence of popping scope `id`: every handle the
/// popped scope owned is invalid afterwards, and every other previously
/// valid handle is still valid.
pub open(crate) spec fn scope_handles_settled(pre: Env, post: Env, id: u64) -> bool {
    &&& forall|v: js_value_t|
        pre.valid(v) && pre.owner_of(v) == id ==> !(#[trigger] post.valid(v))
    &&& forall|v: js_value_t|
        pre.valid(v) && pre.owner_of(v) != id ==> (#[trigger] post.valid(v))
}

/// Proof that popping the innermost scope settles its handles as
/// [`scope_handles_settled`] states, given that the handle table is
/// unchanged or extended only with handles owned by other scopes.
proof fn lemma_pop_settles(pre: Env, post: Env, id: u64)
    requires
        pre.wf(),
        pre.has_open_scope(),
        pre.cur_scope() == id,
        post.spec_scopes() == pre.spec_scopes().drop_last(),
        post.spec_handles().len() >= pre.spec_handles().len(),
        forall|i: int|
            0 <= i < pre.spec_handles().len() ==> post.spec_handles()[i] == pre.spec_handles()[i],
    ensures
        scope_handles_settled(pre, post, id),
{
    let n = pre.spec_scopes().len();
    assert forall|v: js_value_t| pre.valid(v) && pre.owner_of(v) == id implies !(#[trigger] post.valid(
        v,
    )) by {
        if post.valid(v) {
            let i = choose|i: int|
                0 <= i < post.spec_scopes().len() && post.spec_scopes()[i].id == pre.owner_of(v);
            assert(pre.spec_scopes()[i].id < pre.spec_scopes()[n - 1].id);
        }
    }
    assert forall|v: js_value_t| pre.valid(v) && pre.owner_of(v) != id implies (#[trigger] post.valid(
        v,
    )) by {
        let i = choose|i: int|
            0 <= i < pre.spec_scopes().len() && pre.spec_scopes()[i].id == pre.owner_of(v);
        assert(i != n - 1);
        assert(post.spec_scopes()[i].id == pre.owner_of(v));
    }
}

impl Scope {
    /// The id of this scope.
    pub open(crate) spec fn id(self) -> u64 {
        self.raw.id
    }

    /// Open a handle scope: every value created while it is the innermost
    /// scope belongs to it.
    pub fn new(env: &mut Env) -> (r: Scope)
        requires
            old(env).wf(),
            old(env).spec_next_scope_id() < u64::MAX,
        ensures
            final(env).wf(),
            r.id() == old(env).spec_next_scope_id(),
            opens_scope(*old(env), *final(env), r.id(), false),
            final(env).has_open_scope(),
            final(env).cur_scope() == r.id(),
            forall|v: js_value_t| old(env).valid(v) ==> #[trigger] final(env).valid(v),
    {
        let id = env.next_scope_id;
        env.scopes.push(ScopeRec { id, escapable: false });
        env.next_scope_id = env.next_scope_id + 1;
        proof {
            assert forall|v: js_value_t| old(env).valid(v) implies #[trigger] final(env).valid(
                v,
            ) by {
                let i = choose|i: int|
                    0 <= i < old(env).spec_scopes().len() && old(env).spec_scopes()[i].id == old(
                        env,
                    ).owner_of(v);
                assert(final(env).spec_scopes()[i].id == old(env).owner_of(v));
            }
        }
        Scope { raw: js_handle_scope_t { id } }
    }

    /// Close the scope. Only the innermost scope can be closed; the token is
    /// consumed, and every handle the scope owned becomes invalid.
    pub fn close(self, env: &mut Env)
        requires
            old(env).wf(),
            old(env).has_open_scope(),
            old(env).cur_scope() == self.id(),
        ensures
            final(env).wf(),
            closes_scope(*old(env), *final(env)),
            final(env).spec_handles() == old(env).spec_handles(),
            scope_handles_settled(*old(env), *final(env), self.id()),
    {
        let _popped = env.scopes.pop();
        proof {
            assert(final(env).spec_scopes() =~= old(env).spec_scopes().drop_last());
            lemma_pop_settles(*old(env), *final(env), self.id());
        }
    }
}

impl EscapableScope {
    /// The id of this scope.
    pub open(crate) spec fn id(self) -> u64 {
        self.raw.id
    }

    /// Open an escapable handle scope.
    pub fn new(env: &mut Env) -> (r: EscapableScope)
        requires
            old(env).wf(),
            old(env).spec_next_scope_id() < u64::MAX,
        ensures
            final(env).wf(),
            r.id() == old(env).spec_next_scope_id(),
            opens_scope(*old(env), *final(env), r.id(), true),
            final(env).has_open_scope(),
            final(env).cur_scope() == r.id(),
            forall|v: js_value_t| old(env).valid(v) ==> #[trigger] final(env).valid(v),
    {
        let id = env.next_scope_id;
        env.scopes.push(ScopeRec { id, escapable: true });
        env.next_scope_id = env.next_scope_id + 1;
        proof {
            assert forall|v: js_value_t| old(env).valid(v) implies #[trigger] final(env).valid(
                v,
            ) by {
                let i = choose|i: int|
                    0 <= i < old(env).spec_scopes().len() && old(env).spec_scopes()[i].id == old(
                        env,
                    ).owner_of(v);
                assert(final(env).spec_scopes()[i].id == old(env).owner_of(v));
            }
        }
        EscapableScope { raw: js_escapable_handle_scope_t { id } }
    }

    /// Promote one value to the parent scope and close this scope. The
    /// returned handle is owned by the parent, denotes the same cell as the
    /// escapee, and stays valid after this scope is gone; every handle this
    /// scope owned becomes invalid.
    pub fn escape(self, env: &mut Env, escapee: Value) -> (r: Value)
        requires
            old(env).wf(),
            old(env).spec_scopes().len() >= 2,
            old(env).cur_scope() == self.id(),
            old(env).valid(escapee.raw()),
        ensures
            final(env).wf(),
            closes_scope(*old(env), *final(env)),
            final(env).spec_handles() == old(env).spec_handles().push(
                Handle {
                    target: old(env).target_of(escapee.raw()) as usize,
                    owner: old(env).spec_scopes()[old(env).spec_scopes().len() - 2].id,
                },
            ),
            r.raw().index() == old(env).spec_handles().len(),
            final(env).valid(r.raw()),
            final(env).owner_of(r.raw()) == old(env).spec_scopes()[old(env).spec_scopes().len()
                - 2].id,
            final(env).target_of(r.raw()) == old(env).target_of(escapee.raw()),
            final(env).data_of(r.raw()) == old(env).data_of(escapee.raw()),
            final(env).has_open_scope(),
            final(env).cur_scope() == old(env).spec_scopes()[old(env).spec_scopes().len() - 2].id,
            scope_handles_settled(*old(env), *final(env), self.id()),
    {
        let t = env.target(escapee.raw);
        let parent = env.scopes[env.scopes.len() - 2].id;
        let idx = env.handles.len();
        env.handles.push(Handle { target: t, owner: parent });
        let _popped = env.scopes.pop();
        proof {
            assert(final(env).spec_scopes() =~= old(env).spec_scopes().drop_last());
            let n = old(env).spec_scopes().len();
            assert(final(env).spec_scopes()[n - 2].id == parent);
            assert(final(env).scope_open(parent));
            lemma_pop_settles(*old(env), *final(env), self.id());
        }
        Value::from_raw(js_value_t { idx })
    }

    /// Close the scope without escaping a value.
    pub fn close(self, env: &mut Env)
        requires
            old(env).wf(),
            old(env).has_open_scope(),
            old(env).cur_scope() == self.id(),
        ensures
            final(env).wf(),
            closes_scope(*old(env), *final(env)),
            final(env).spec_handles() == old(env).spec_handles(),
            scope_handles_settled(*old(env), *final(env), self.id()),
    {
        let _popped = env.scopes.pop();
        proof {
            assert(final(env).spec_scopes() =~= old(env).spec_scopes().drop_last());
            lemma_pop_settles(*old(env), *final(env), self.id());
        }
    }
}

} // verus!

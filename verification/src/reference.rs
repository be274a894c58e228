//! Persistent, ref-counted references that root a value across scope
//! closures.
//!
//! A reference names a heap cell directly, not a handle, so it survives the
//! closure of the scope its value was created in. While its count is
//! positive the target is rooted; a reference whose count has dropped to
//! zero still answers `value_of` until it is deleted, since the modelled
//! engine reclaims nothing eagerly.

use vstd::prelude::*;

use crate::env::{Env, RefRec, js_ref_t};
use crate::value::Value;

verus! {

/// A persistent reference. Deleting consumes it, so a deleted reference
/// cannot be used again.
#[derive(Debug)]
pub struct Reference {
    pub(crate) raw: js_ref_t,
}

impl Reference {
    /// The reference-table index of this reference.
    pub open(crate) spec fn index(self) -> int {
        self.raw.idx as int
    }

    /// Root `value` with the given initial count.
    pub fn new(env: &mut Env, value: Value, initial_count: u32) -> (r: Reference)
        requires
            old(env).wf(),
            old(env).valid(value.raw()),
        ensures
            final(env).wf(),
            r.index() == old(env).spec_refs().len(),
            final(env).spec_refs() == old(env).spec_refs().push(
                RefRec {
                    target: old(env).target_of(value.raw()) as usize,
                    count: initial_count,
                    alive: true,
                },
            ),
            final(env).spec_slots() == old(env).spec_slots(),
            final(env).spec_handles() == old(env).spec_handles(),
            final(env).spec_scopes() == old(env).spec_scopes(),
            final(env).spec_pending() == old(env).spec_pending(),
            final(env).spec_next_scope_id() == old(env).spec_next_scope_id(),
    {
        let t = env.target(value.raw);
        let idx = env.refs.len();
        env.refs.push(RefRec { target: t, count: initial_count, alive: true });
        Reference { raw: js_ref_t { idx } }
    }

    /// Increment the count; returns the new count.
    pub fn add_ref(&self, env: &mut Env) -> (r: u32)
        requires
            old(env).wf(),
            0 <= self.index() < old(env).spec_refs().len(),
            old(env).spec_refs()[self.index()].alive,
            old(env).spec_refs()[self.index()].count < u32::MAX,
        ensures
            final(env).wf(),
            r == old(env).spec_refs()[self.index()].count + 1,
            final(env).spec_refs() == old(env).spec_refs().update(
                self.index(),
                RefRec {
                    count: (old(env).spec_refs()[self.index()].count + 1) as u32,
                    ..old(env).spec_refs()[self.index()]
                },
            ),
            final(env).spec_slots() == old(env).spec_slots(),
            final(env).spec_handles() == old(env).spec_handles(),
            final(env).spec_scopes() == old(env).spec_scopes(),
            final(env).spec_pending() == old(env).spec_pending(),
            final(env).spec_next_scope_id() == old(env).spec_next_scope_id(),
    {
        let i = self.raw.idx;
        let c = env.refs[i].count + 1;
        env.refs[i].count = c;
        c
    }

    /// Decrement the count; returns the new count. Decrementing below zero
    /// is a caller error, excluded here.
    pub fn unref(&self, env: &mut Env) -> (r: u32)
        requires
            old(env).wf(),
            0 <= self.index() < old(env).spec_refs().len(),
            old(env).spec_refs()[self.index()].alive,
            old(env).spec_refs()[self.index()].count > 0,
        ensures
            final(env).wf(),
            r == old(env).spec_refs()[self.index()].count - 1,
            final(env).spec_refs() == old(env).spec_refs().update(
                self.index(),
                RefRec {
                    count: (old(env).spec_refs()[self.index()].count - 1) as u32,
                    ..old(env).spec_refs()[self.index()]
                },
            ),
            final(env).spec_slots() == old(env).spec_slots(),
            final(env).spec_handles() == old(env).spec_handles(),
            final(env).spec_scopes() == old(env).spec_scopes(),
            final(env).spec_pending() == old(env).spec_pending(),
            final(env).spec_next_scope_id() == old(env).spec_next_scope_id(),
    {
        let i = self.raw.idx;
        let c = env.refs[i].count - 1;
        env.refs[i].count = c;
        c
    }

    /// A fresh handle to the rooted value, in the innermost scope. Works at
    /// any count, zero included: the modelled engine never reclaims the
    /// target while the reference exists.
    pub fn value_of(&self, env: &mut Env) -> (r: Value)
        requires
            old(env).wf(),
            old(env).has_open_scope(),
            0 <= self.index() < old(env).spec_refs().len(),
            old(env).spec_refs()[self.index()].alive,
        ensures
            final(env).wf(),
            Env::aliases(
                *old(env),
                *final(env),
                r.raw(),
                old(env).spec_refs()[self.index()].target as int,
            ),
            final(env).valid(r.raw()),
            final(env).target_of(r.raw()) == old(env).spec_refs()[self.index()].target,
            final(env).data_of(r.raw()) == old(env).spec_slots()[old(env).spec_refs()[self.index()].target as int],
    {
        let t = env.refs[self.raw.idx].target;
        let raw = env.alias_cell(t);
        Value::from_raw(raw)
    }

    /// Delete the reference, consuming it.
    pub fn delete(self, env: &mut Env)
        requires
            old(env).wf(),
            0 <= self.index() < old(env).spec_refs().len(),
            old(env).spec_refs()[self.index()].alive,
        ensures
            final(env).wf(),
            final(env).spec_refs() == old(env).spec_refs().update(
                self.index(),
                RefRec { alive: false, ..old(env).spec_refs()[self.index()] },
            ),
            final(env).spec_slots() == old(env).spec_slots(),
            final(env).spec_handles() == old(env).spec_handles(),
            final(env).spec_scopes() == old(env).spec_scopes(),
            final(env).spec_pending() == old(env).spec_pending(),
            final(env).spec_next_scope_id() == old(env).spec_next_scope_id(),
    {
        let i = self.raw.idx;
        env.refs[i].alive = false;
    }
}

/// The reference-count law: incrementing a reference's count and then
/// decrementing it leaves the reference table exactly as it was, so `unref`
/// after `add_ref` restores the prior count and the prior state.
pub proof fn lemma_ref_unref_restores(pre: Env, mid: Env, post: Env, i: int)
    requires
        0 <= i < pre.spec_refs().len(),
        pre.spec_refs()[i].count < u32::MAX,
        mid.spec_refs() == pre.spec_refs().update(
            i,
            RefRec { count: (pre.spec_refs()[i].count + 1) as u32, ..pre.spec_refs()[i] },
        ),
        post.spec_refs() == mid.spec_refs().update(
            i,
            RefRec { count: (mid.spec_refs()[i].count - 1) as u32, ..mid.spec_refs()[i] },
        ),
    ensures
        post.spec_refs() == pre.spec_refs(),
        post.spec_refs()[i].count == pre.spec_refs()[i].count,
{
    assert(post.spec_refs() =~= pre.spec_refs());
}

} // verus!

//! The engine environment: a value heap, a handle table, the scope stack,
//! persistent references, and the pending-exception register.
//!
//! Every value the binding hands out is a handle: an index into the handle
//! table, whose entry names a heap cell and the scope that owns the handle.
//! A handle is usable exactly while its owning scope is still open; closing
//! a scope invalidates every handle it owns without touching the heap, which
//! is how the engine's scoped-lifetime discipline is modelled.
#![allow(non_camel_case_types)]

use vstd::prelude::*;

use crate::data::{cell_ok, JsData};

verus! {

/// A raw engine handle: one entry of the environment's handle table.
#[derive(Clone, Copy, Debug)]
pub struct js_value_t {
    pub(crate) idx: usize,
}

impl js_value_t {
    /// The handle-table index of this handle.
    pub open(crate) spec fn index(self) -> int {
        self.idx as int
    }
}

/// A token for one open handle scope. It is not copyable: closing a scope
/// consumes the token, so a scope cannot be closed twice.
#[derive(Debug)]
pub struct js_handle_scope_t {
    pub(crate) id: u64,
}

/// A token for one open escapable handle scope; linear like
/// [`js_handle_scope_t`].
#[derive(Debug)]
pub struct js_escapable_handle_scope_t {
    pub(crate) id: u64,
}

/// A raw persistent-reference token: an index into the reference table.
#[derive(Clone, Copy, Debug)]
pub struct js_ref_t {
    pub(crate) idx: usize,
}

/// A raw deferred token: the heap cell of the promise it settles. It is not
/// copyable: settling consumes it, so a deferred cannot be settled twice.
#[derive(Debug)]
pub struct js_deferred_t {
    pub(crate) target: usize,
}

/// One entry of the handle table: the heap cell the handle denotes and the
/// id of the scope that owns the handle.
#[derive(Clone, Copy, Debug)]
pub struct Handle {
    pub target: usize,
    pub owner: u64,
}

/// One open scope: its id and whether it was opened as escapable.
#[derive(Clone, Copy, Debug)]
pub struct ScopeRec {
    pub id: u64,
    pub escapable: bool,
}

/// One persistent reference: its target cell, its count, and whether it has
/// been deleted.
#[derive(Clone, Copy, Debug)]
pub struct RefRec {
    pub target: usize,
    pub count: u32,
    pub alive: bool,
}

/// The environment: the modelled state of one engine instance.
#[derive(Debug)]
pub struct Env {
    pub(crate) slots: Vec<JsData>,
    pub(crate) handles: Vec<Handle>,
    pub(crate) scopes: Vec<ScopeRec>,
    pub(crate) next_scope_id: u64,
    pub(crate) refs: Vec<RefRec>,
    pub(crate) pending: Option<usize>,
}

/// Heap index of the canonical undefined cell.
pub(crate) const SLOT_UNDEFINED: usize = 0;

/// Heap index of the canonical null cell.
pub(crate) const SLOT_NULL: usize = 1;

/// Heap index of the canonical false cell.
pub(crate) const SLOT_FALSE: usize = 2;

/// Heap index of the canonical true cell.
pub(crate) const SLOT_TRUE: usize = 3;

impl Env {
    pub open(crate) spec fn spec_slots(self) -> Seq<JsData> {
        self.slots@
    }

    pub open(crate) spec fn spec_handles(self) -> Seq<Handle> {
        self.handles@
    }

    pub open(crate) spec fn spec_scopes(self) -> Seq<ScopeRec> {
        self.scopes@
    }

    pub open(crate) spec fn spec_refs(self) -> Seq<RefRec> {
        self.refs@
    }

    pub open(crate) spec fn spec_pending(self) -> Option<usize> {
        self.pending
    }

    pub open(crate) spec fn spec_next_scope_id(self) -> u64 {
        self.next_scope_id
    }

    /// At least one handle scope is open.
    pub open(crate) spec fn has_open_scope(self) -> bool {
        self.scopes@.len() > 0
    }

    /// The id of the innermost open scope.
    pub open(crate) spec fn cur_scope(self) -> u64 {
        self.scopes@.last().id
    }

    /// Whether a scope with the given id is still open.
    pub open(crate) spec fn scope_open(self, id: u64) -> bool {
        exists|i: int| 0 <= i < self.scopes@.len() && self.scopes@[i].id == id
    }

    /// A handle is valid while its owning scope is still open.
    pub open(crate) spec fn valid(self, v: js_value_t) -> bool {
        &&& v.idx < self.handles@.len()
        &&& self.scope_open(self.handles@[v.idx as int].owner)
    }

    /// The scope that owns a handle.
    pub open(crate) spec fn owner_of(self, v: js_value_t) -> u64 {
        self.handles@[v.idx as int].owner
    }

    /// The heap cell a handle denotes.
    pub open(crate) spec fn target_of(self, v: js_value_t) -> int {
        self.handles@[v.idx as int].target as int
    }

    /// The data stored in the cell a handle denotes.
    pub open(crate) spec fn data_of(self, v: js_value_t) -> JsData {
        self.slots@[self.target_of(v)]
    }

    /// Scope stack, reference table, pending exception and the scope-id
    /// counter are unchanged between the two states.
    pub open(crate) spec fn stable_frame(pre: Env, post: Env) -> bool {
        &&& post.scopes@ == pre.scopes@
        &&& post.refs@ == pre.refs@
        &&& post.pending == pre.pending
        &&& post.next_scope_id == pre.next_scope_id
    }

    /// Exactly one handle was appended, owned by the innermost scope of
    /// `pre` and denoting cell `t`.
    pub open(crate) spec fn fresh_handle(pre: Env, post: Env, v: js_value_t, t: int) -> bool {
        &&& v.idx == pre.handles@.len()
        &&& post.handles@ == pre.handles@.push(
            Handle { target: t as usize, owner: pre.cur_scope() },
        )
    }

    /// A new cell holding `cell` was appended to the heap and `v` is a fresh
    /// handle to it; everything else is unchanged.
    pub open(crate) spec fn creates(pre: Env, post: Env, v: js_value_t, cell: JsData) -> bool {
        &&& Env::stable_frame(pre, post)
        &&& Env::fresh_handle(pre, post, v, pre.slots@.len() as int)
        &&& post.slots@ == pre.slots@.push(cell)
    }

    /// `v` is a fresh handle to the existing cell `t`; the heap and
    /// everything else are unchanged.
    pub open(crate) spec fn aliases(pre: Env, post: Env, v: js_value_t, t: int) -> bool {
        &&& Env::stable_frame(pre, post)
        &&& Env::fresh_handle(pre, post, v, t)
        &&& post.slots@ == pre.slots@
    }

    /// Cell `t` was overwritten with `cell`; the handle table and everything
    /// else are unchanged.
    pub open(crate) spec fn updates_slot(pre: Env, post: Env, t: int, cell: JsData) -> bool {
        &&& Env::stable_frame(pre, post)
        &&& post.handles@ == pre.handles@
        &&& post.slots@ == pre.slots@.update(t, cell)
    }

    /// Well-formedness of the environment: the canonical singleton cells are
    /// in place, every cell's internal indices are in bounds, every handle
    /// and reference points into the heap, and the scope stack carries
    /// strictly increasing ids below the id counter.
    pub open(crate) spec fn wf(self) -> bool {
        &&& self.slots@.len() >= 4
        &&& self.slots@[SLOT_UNDEFINED as int] == JsData::Undefined
        &&& self.slots@[SLOT_NULL as int] == JsData::Null
        &&& self.slots@[SLOT_FALSE as int] == JsData::Boolean(false)
        &&& self.slots@[SLOT_TRUE as int] == JsData::Boolean(true)
        &&& forall|i: int|
            0 <= i < self.slots@.len() ==> cell_ok(self.slots@, #[trigger] self.slots@[i])
        &&& forall|i: int|
            0 <= i < self.handles@.len() ==> (#[trigger] self.handles@[i]).target
                < self.slots@.len()
        &&& forall|i: int, j: int|
            0 <= i < j < self.scopes@.len() ==> (#[trigger] self.scopes@[i].id) < (
            #[trigger] self.scopes@[j].id)
        &&& forall|i: int|
            0 <= i < self.scopes@.len() ==> (#[trigger] self.scopes@[i]).id < self.next_scope_id
        &&& forall|i: int|
            0 <= i < self.refs@.len() ==> (#[trigger] self.refs@[i]).target < self.slots@.len()
        &&& match self.pending {
            Some(p) => p < self.slots@.len(),
            None => true,
        }
    }

    /// A fresh environment: only the four canonical singleton cells, no
    /// handles, no scopes, no references, no pending exception.
    pub fn new() -> (env: Env)
        ensures
            env.wf(),
            env.spec_slots().len() == 4,
            env.spec_handles().len() == 0,
            env.spec_scopes().len() == 0,
            env.spec_refs().len() == 0,
            env.spec_pending() is None,
            env.spec_next_scope_id() == 0,
    {
        let mut slots: Vec<JsData> = Vec::new();
        slots.push(JsData::Undefined);
        slots.push(JsData::Null);
        slots.push(JsData::Boolean(false));
        slots.push(JsData::Boolean(true));
        Env {
            slots,
            handles: Vec::new(),
            scopes: Vec::new(),
            next_scope_id: 0,
            refs: Vec::new(),
            pending: None,
        }
    }

    /// Whether a script exception is pending and has not been retrieved.
    pub fn is_exception_pending(&self) -> (r: bool)
        ensures
            r == (self.spec_pending() is Some),
    {
        match self.pending {
            Some(_) => true,
            None => false,
        }
    }

    /// Append a fresh cell to the heap and hand out a handle to it, owned by
    /// the innermost open scope.
    pub(crate) fn alloc_cell(&mut self, cell: JsData) -> (v: js_value_t)
        requires
            old(self).wf(),
            old(self).has_open_scope(),
            cell_ok(old(self).slots@, cell),
        ensures
            final(self).wf(),
            Env::creates(*old(self), *final(self), v, cell),
            final(self).valid(v),
            final(self).target_of(v) == old(self).slots@.len(),
            final(self).data_of(v) == cell,
            final(self).has_open_scope(),
            final(self).cur_scope() == old(self).cur_scope(),
    {
        let t = self.slots.len();
        let idx = self.handles.len();
        let owner = self.scopes[self.scopes.len() - 1].id;
        self.slots.push(cell);
        self.handles.push(Handle { target: t, owner });
        proof {
            crate::data::lemma_cells_ok_push(old(self).slots@, cell);
            let sc = final(self).scopes@;
            assert(sc[sc.len() - 1].id == owner);
            assert(final(self).scope_open(owner));
        }
        js_value_t { idx }
    }

    /// Hand out a fresh handle to the existing cell `t`, owned by the
    /// innermost open scope.
    pub(crate) fn alias_cell(&mut self, t: usize) -> (v: js_value_t)
        requires
            old(self).wf(),
            old(self).has_open_scope(),
            t < old(self).slots@.len(),
        ensures
            final(self).wf(),
            Env::aliases(*old(self), *final(self), v, t as int),
            final(self).valid(v),
            final(self).target_of(v) == t,
            final(self).data_of(v) == old(self).slots@[t as int],
            final(self).has_open_scope(),
            final(self).cur_scope() == old(self).cur_scope(),
    {
        let idx = self.handles.len();
        let owner = self.scopes[self.scopes.len() - 1].id;
        self.handles.push(Handle { target: t, owner });
        proof {
            let sc = final(self).scopes@;
            assert(sc[sc.len() - 1].id == owner);
            assert(final(self).scope_open(owner));
        }
        js_value_t { idx }
    }

    /// Retrieve and clear the pending exception, handing out a fresh handle
    /// to it in the innermost scope. This is the recovery half of the
    /// status protocol: after it, no exception is pending.
    pub fn pending_exception(&mut self) -> (r: crate::value::Value)
        requires
            old(self).wf(),
            old(self).has_open_scope(),
            old(self).spec_pending() is Some,
        ensures
            final(self).wf(),
            final(self).spec_pending() is None,
            final(self).spec_slots() == old(self).spec_slots(),
            final(self).spec_scopes() == old(self).spec_scopes(),
            final(self).spec_refs() == old(self).spec_refs(),
            final(self).spec_next_scope_id() == old(self).spec_next_scope_id(),
            r.raw().index() == old(self).spec_handles().len(),
            final(self).spec_handles() == old(self).spec_handles().push(
                Handle { target: old(self).spec_pending().unwrap(), owner: old(self).cur_scope() },
            ),
            final(self).valid(r.raw()),
            final(self).target_of(r.raw()) == old(self).spec_pending().unwrap(),
            final(self).data_of(r.raw()) == old(self).spec_slots()[old(
                self,
            ).spec_pending().unwrap() as int],
    {
        let t = match self.pending {
            Some(t) => t,
            None => vstd::pervasive::unreached(),
        };
        self.pending = None;
        let idx = self.handles.len();
        let owner = self.scopes[self.scopes.len() - 1].id;
        self.handles.push(Handle { target: t, owner });
        proof {
            let sc = final(self).scopes@;
            assert(sc[sc.len() - 1].id == owner);
            assert(final(self).scope_open(owner));
        }
        crate::value::Value::from_raw(js_value_t { idx })
    }

    /// Raise `error` as the pending exception, replacing any exception that
    /// was already pending. This is the engine-level throw the callback
    /// trampoline uses for a callback's error result.
    pub fn throw(&mut self, error: crate::value::Value)
        requires
            old(self).wf(),
            old(self).valid(error.raw()),
        ensures
            final(self).wf(),
            final(self).spec_pending() == Some(old(self).target_of(error.raw()) as usize),
            final(self).spec_slots() == old(self).spec_slots(),
            final(self).spec_handles() == old(self).spec_handles(),
            final(self).spec_scopes() == old(self).spec_scopes(),
            final(self).spec_refs() == old(self).spec_refs(),
            final(self).spec_next_scope_id() == old(self).spec_next_scope_id(),
    {
        let t = self.handles[error.raw.idx].target;
        self.pending = Some(t);
    }

    /// A valid handle stays valid across a step that keeps the scope stack
    /// and the handle table.
    pub(crate) proof fn lemma_valid_preserved(pre: Env, post: Env, v: js_value_t)
        requires
            pre.valid(v),
            post.spec_scopes() == pre.spec_scopes(),
            post.spec_handles() == pre.spec_handles(),
        ensures
            post.valid(v),
    {
        let ow = pre.owner_of(v);
        let w = choose|w: int| 0 <= w < pre.spec_scopes().len() && pre.spec_scopes()[w].id == ow;
        assert(post.spec_scopes()[w].id == ow);
    }

    /// Read access to the cell a handle denotes.
    pub(crate) fn cell_of(&self, v: js_value_t) -> (r: &JsData)
        requires
            self.wf(),
            self.valid(v),
        ensures
            *r == self.data_of(v),
    {
        let t = self.handles[v.idx].target;
        &self.slots[t]
    }

    /// The heap cell index a handle denotes.
    pub(crate) fn target(&self, v: js_value_t) -> (t: usize)
        requires
            self.wf(),
            self.valid(v),
        ensures
            t == self.target_of(v),
            t < self.slots@.len(),
    {
        self.handles[v.idx].target
    }
}

} // verus!

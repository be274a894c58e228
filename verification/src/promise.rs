//! The deferred/promise bridge: a pending promise paired with a one-shot
//! settle capability.

use vstd::prelude::*;

use crate::data::{JsData, js_promise_state_t};
use crate::env::{Env, js_deferred_t};
use crate::value::Value;

verus! {

/// The one-shot capability to settle one promise. Settling consumes it, so a
/// deferred cannot be resolved or rejected twice.
#[derive(Debug)]
pub struct Deferred {
    pub(crate) raw: js_deferred_t,
}

impl Deferred {
    /// The heap cell of the promise this deferred settles.
    pub open(crate) spec fn target(self) -> int {
        self.raw.target as int
    }
}

/// Create a pending promise and the deferred that settles it.
pub fn create_promise(env: &mut Env) -> (r: (Deferred, Value))
    requires
        old(env).wf(),
        old(env).has_open_scope(),
    ensures
        final(env).wf(),
        Env::creates(
            *old(env),
            *final(env),
            r.1.raw(),
            JsData::Promise { state: js_promise_state_t::js_promise_pending, result: None },
        ),
        final(env).valid(r.1.raw()),
        final(env).target_of(r.1.raw()) == old(env).spec_slots().len(),
        r.0.target() == final(env).target_of(r.1.raw()),
        final(env).data_of(r.1.raw()) == (JsData::Promise {
            state: js_promise_state_t::js_promise_pending,
            result: None,
        }),
{
    let t = env.slots.len();
    let raw = env.alloc_cell(
        JsData::Promise { state: js_promise_state_t::js_promise_pending, result: None },
    );
    (Deferred { raw: js_deferred_t { target: t } }, Value::from_raw(raw))
}

/// Settle the promise as fulfilled with `resolution`, consuming the
/// deferred. Settling an already-settled promise is a caller error, excluded
/// by requiring the promise to still be pending.
pub fn resolve_deferred(env: &mut Env, deferred: Deferred, resolution: Value)
    requires
        old(env).wf(),
        old(env).valid(resolution.raw()),
        0 <= deferred.target() < old(env).spec_slots().len(),
        old(env).spec_slots()[deferred.target()] == (JsData::Promise {
            state: js_promise_state_t::js_promise_pending,
            result: None,
        }),
    ensures
        final(env).wf(),
        Env::updates_slot(
            *old(env),
            *final(env),
            deferred.target(),
            JsData::Promise {
                state: js_promise_state_t::js_promise_fulfilled,
                result: Some(old(env).target_of(resolution.raw()) as usize),
            },
        ),
{
    let t = env.target(resolution.raw);
    let cell = JsData::Promise { state: js_promise_state_t::js_promise_fulfilled, result: Some(t) };
    proof {
        crate::data::lemma_cells_ok_update(
            old(env).spec_slots(),
            deferred.target(),
            cell,
        );
    }
    env.slots[deferred.raw.target] = cell;
}

/// Settle the promise as rejected with `reason`, consuming the deferred.
pub fn reject_deferred(env: &mut Env, deferred: Deferred, reason: Value)
    requires
        old(env).wf(),
        old(env).valid(reason.raw()),
        0 <= deferred.target() < old(env).spec_slots().len(),
        old(env).spec_slots()[deferred.target()] == (JsData::Promise {
            state: js_promise_state_t::js_promise_pending,
            result: None,
        }),
    ensures
        final(env).wf(),
        Env::updates_slot(
            *old(env),
            *final(env),
            deferred.target(),
            JsData::Promise {
                state: js_promise_state_t::js_promise_rejected,
                result: Some(old(env).target_of(reason.raw()) as usize),
            },
        ),
{
    let t = env.target(reason.raw);
    let cell = JsData::Promise { state: js_promise_state_t::js_promise_rejected, result: Some(t) };
    proof {
        crate::data::lemma_cells_ok_update(
            old(env).spec_slots(),
            deferred.target(),
            cell,
        );
    }
    env.slots[deferred.raw.target] = cell;
}

/// Read a promise's settlement state.
pub fn get_promise_state(env: &Env, promise: &Value) -> (r: js_promise_state_t)
    requires
        env.wf(),
        env.valid(promise.raw()),
        env.data_of(promise.raw()) is Promise,
    ensures
        env.data_of(promise.raw()) matches JsData::Promise { state, .. } ==> r == state,
{
    if let JsData::Promise { state, .. } = env.cell_of(promise.raw) {
        *state
    } else {
        vstd::pervasive::unreached()
    }
}

/// A fresh handle to the promise's result, readable at any time: the
/// settlement value once the promise is settled, undefined while it is
/// still pending.
pub fn get_promise_result(env: &mut Env, promise: &Value) -> (r: Value)
    requires
        old(env).wf(),
        old(env).has_open_scope(),
        old(env).valid(promise.raw()),
        old(env).data_of(promise.raw()) is Promise,
    ensures
        final(env).wf(),
        final(env).valid(r.raw()),
        old(env).data_of(promise.raw()) matches JsData::Promise { state, result } ==> {
            &&& Env::aliases(
                *old(env),
                *final(env),
                r.raw(),
                match result {
                    Some(t) => t as int,
                    None => 0,
                },
            )
            &&& (result is None ==> final(env).data_of(r.raw()) is Undefined)
            &&& (result matches Some(t) ==> final(env).target_of(r.raw()) == t)
        },
{
    let t = if let JsData::Promise { result, .. } = env.cell_of(promise.raw) {
        match result {
            Some(t) => *t,
            None => 0,
        }
    } else {
        vstd::pervasive::unreached()
    };
    let raw = env.alias_cell(t);
    Value::from_raw(raw)
}

} // verus!

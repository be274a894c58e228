//! Native functions and the callback trampoline.
//!
//! A function value carries only an opaque adapter index, as the engine
//! carries only an opaque data pointer; the host keeps its callbacks in a
//! registry it owns. Calling a function assembles the call information,
//! dispatches the host callback, and marshals the outcome back through the
//! status protocol: a returned value becomes the result, a thrown error
//! becomes the pending exception and is then retrieved-and-cleared into the
//! error result.
#![allow(non_camel_case_types)]

use vstd::prelude::*;

use crate::data::JsData;
use crate::env::{Env, js_value_t};
use crate::status::{classify, JS_PENDING_EXCEPTION, JS_UNCAUGHT_EXCEPTION, StatusClass};
use crate::value::Value;

verus! {

/// The raw information the engine assembles for one invocation: the
/// argument handles, the receiver, and the opaque adapter index recorded
/// when the function was created.
pub struct js_callback_info_t {
    pub args: Vec<js_value_t>,
    pub receiver: js_value_t,
    pub data: usize,
}

/// The per-invocation view a host callback receives: arguments by index and
/// the receiver.
pub struct Callback {
    pub(crate) args: Vec<js_value_t>,
    pub(crate) receiver: js_value_t,
}

impl Callback {
    pub open(crate) spec fn spec_args(self) -> Seq<js_value_t> {
        self.args@
    }

    pub open(crate) spec fn spec_receiver(self) -> js_value_t {
        self.receiver
    }

    /// Reconstruct the callback view from the raw call information: exactly
    /// its argument handles and its receiver.
    pub fn from_info(info: js_callback_info_t) -> (r: Callback)
        ensures
            r.spec_args() == info.args@,
            r.spec_receiver() == info.receiver,
    {
        Callback { args: info.args, receiver: info.receiver }
    }

    /// The number of arguments of the call.
    pub fn arg_count(&self) -> (r: usize)
        ensures
            r == self.spec_args().len(),
    {
        self.args.len()
    }

    /// The argument at `i`: present exactly while `i` lies below the
    /// argument count, absent beyond it.
    pub fn arg(&self, i: usize) -> (r: Option<Value>)
        ensures
            (r is Some) <==> (i < self.spec_args().len()),
            r matches Some(v) ==> v.raw() == self.spec_args()[i as int],
    {
        if i < self.args.len() {
            Some(Value::from_raw(self.args[i]))
        } else {
            None
        }
    }

    /// The receiver of the call.
    pub fn receiver(&self) -> (r: Value)
        ensures
            r.raw() == self.spec_receiver(),
    {
        Value::from_raw(self.receiver)
    }
}

/// The host side of the trampoline: the behaviour of one native function.
/// The engine invokes it with the environment and the call's view, and
/// relies on one thing only: a callback leaves the environment well-formed,
/// which any callback that goes through this library's public operations
/// does.
pub trait HostCallback {
    fn on_call(&mut self, env: &mut Env, info: &Callback) -> (r: Result<Value, Value>)
        requires
            old(env).wf(),
            old(env).has_open_scope(),
            forall|i: int|
                0 <= i < info.spec_args().len() ==> old(env).valid(
                    #[trigger] info.spec_args()[i],
                ),
            old(env).valid(info.spec_receiver()),
        ensures
            final(env).wf(),
    ;
}

/// The function cell names no adapter the given registry holds: it was
/// created without one, or its recorded index lies at or beyond the
/// registry's length. Calling such a function fails before any dispatch.
pub open(crate) spec fn lacks_adapter<C>(env: Env, f: js_value_t, registry: Seq<C>) -> bool {
    match env.data_of(f) {
        JsData::Func { data } => match data {
            Some(i) => i >= registry.len(),
            None => true,
        },
        _ => true,
    }
}

/// How a call fails: a recoverable script exception, already retrieved and
/// cleared, or a fatal status the binding does not recover from — a
/// function without an adapter, an adapter the host's registry does not
/// hold, or a callback outcome whose handle is no longer usable.
#[derive(Debug)]
pub enum CallError {
    Exception(Value),
    Fatal(i32),
}

/// Marshal a callback's outcome back to the engine. A returned value whose
/// handle is still usable becomes a success status carrying that handle; a
/// thrown error whose handle is still usable is raised as the pending
/// exception and becomes the pending-exception status; an unusable handle
/// in either position becomes the fatal status. Every outcome is covered.
pub fn marshal_outcome(env: &mut Env, outcome: Result<Value, Value>) -> (r: (i32, js_value_t))
    requires
        old(env).wf(),
    ensures
        final(env).wf(),
        outcome matches Ok(v) ==> (old(env).valid(v.raw()) ==> {
            &&& r.0 == 0
            &&& r.1 == v.raw()
            &&& *final(env) == *old(env)
        }),
        outcome matches Err(e) ==> (old(env).valid(e.raw()) ==> {
            &&& r.0 == JS_PENDING_EXCEPTION
            &&& final(env).spec_pending() == Some(old(env).target_of(e.raw()) as usize)
            &&& final(env).spec_slots() == old(env).spec_slots()
            &&& final(env).spec_handles() == old(env).spec_handles()
            &&& final(env).spec_scopes() == old(env).spec_scopes()
            &&& final(env).spec_refs() == old(env).spec_refs()
            &&& final(env).spec_next_scope_id() == old(env).spec_next_scope_id()
        }),
        (match outcome {
            Ok(v) => !old(env).valid(v.raw()),
            Err(e) => !old(env).valid(e.raw()),
        }) ==> {
            &&& r.0 == JS_UNCAUGHT_EXCEPTION
            &&& *final(env) == *old(env)
        },
{
    match outcome {
        Ok(v) => {
            if v.is_valid(env) {
                (0, v.as_raw())
            } else {
                (JS_UNCAUGHT_EXCEPTION, v.as_raw())
            }
        },
        Err(e) => {
            if e.is_valid(env) {
                env.throw(e);
                (JS_PENDING_EXCEPTION, e.as_raw())
            } else {
                (JS_UNCAUGHT_EXCEPTION, e.as_raw())
            }
        },
    }
}

/// A function value backed by a host callback.
#[derive(Clone, Copy, Debug)]
pub struct Function(pub(crate) Value);

impl Function {
    pub open(crate) spec fn raw(self) -> js_value_t {
        self.0.raw
    }

    /// Create a function from a host callback. The callback joins the
    /// host's registry exactly once and the function cell records its
    /// index; the modelled engine never collects, so the adapter stays
    /// registered for the environment's lifetime.
    pub fn new<C: HostCallback>(env: &mut Env, registry: &mut Vec<C>, callback: C) -> (r: Result<
        Function,
        Value,
    >)
        requires
            old(env).wf(),
            old(env).has_open_scope(),
        ensures
            final(env).wf(),
            r is Ok,
            final(registry)@ == old(registry)@.push(callback),
            r matches Ok(f) ==> {
                &&& Env::creates(
                    *old(env),
                    *final(env),
                    f.raw(),
                    JsData::Func { data: Some(old(registry)@.len() as usize) },
                )
                &&& final(env).valid(f.raw())
                &&& final(env).target_of(f.raw()) == old(env).spec_slots().len()
                &&& final(env).data_of(f.raw()) == (JsData::Func {
                    data: Some(old(registry)@.len() as usize),
                })
            },
    {
        let idx = registry.len();
        registry.push(callback);
        let raw = env.alloc_cell(JsData::Func { data: Some(idx) });
        Ok(Function(Value::from_raw(raw)))
    }

    /// Call the function with a receiver and arguments: the trampoline. A
    /// function whose cell names no adapter the registry holds fails before
    /// any dispatch, fatally and with nothing changed. Otherwise the call
    /// information is assembled, the host callback dispatched through
    /// the registry, and its outcome marshalled back; a pending-exception
    /// status is retrieved-and-cleared into the error result, per the
    /// status protocol. What the callback computes is its own affair; what
    /// this function guarantees holds of every outcome.
    pub fn call<C: HostCallback>(
        &self,
        env: &mut Env,
        registry: &mut Vec<C>,
        receiver: Value,
        args: &Vec<Value>,
    ) -> (r: Result<Value, CallError>)
        requires
            old(env).wf(),
            old(env).has_open_scope(),
            old(env).valid(self.raw()),
            old(env).data_of(self.raw()) is Func,
            old(env).valid(receiver.raw()),
            forall|i: int| 0 <= i < args@.len() ==> old(env).valid((#[trigger] args@[i]).raw()),
        ensures
            final(env).wf(),
            lacks_adapter(*old(env), self.raw(), old(registry)@) ==> {
                &&& r matches Err(e) && e matches CallError::Fatal(s) && s
                    == JS_UNCAUGHT_EXCEPTION
                &&& *final(env) == *old(env)
                &&& final(registry)@ == old(registry)@
            },
            r matches Ok(v) ==> final(env).valid(v.raw()),
            r matches Err(e) ==> (e matches CallError::Exception(x) ==> {
                &&& final(env).valid(x.raw())
                &&& final(env).spec_pending() is None
            }),
            r matches Err(e) ==> (e matches CallError::Fatal(s) ==> s == JS_UNCAUGHT_EXCEPTION),
    {
        let data = if let JsData::Func { data } = env.cell_of(self.0.raw) {
            *data
        } else {
            vstd::pervasive::unreached()
        };
        let idx = match data {
            Some(i) => i,
            None => {
                return Err(CallError::Fatal(JS_UNCAUGHT_EXCEPTION));
            },
        };
        if idx >= registry.len() {
            return Err(CallError::Fatal(JS_UNCAUGHT_EXCEPTION));
        }
        let mut raw_args: Vec<js_value_t> = Vec::new();
        let n = args.len();
        let mut i: usize = 0;
        while i < n
            invariant
                n == args@.len(),
                i <= n,
                raw_args@.len() == i,
                forall|j: int| 0 <= j < i ==> raw_args@[j] == (#[trigger] args@[j]).raw(),
                forall|j: int| 0 <= j < n ==> env.valid((#[trigger] args@[j]).raw()),
                env == old(env),
            decreases n - i,
        {
            raw_args.push(args[i].as_raw());
            i = i + 1;
        }
        let info = js_callback_info_t { args: raw_args, receiver: receiver.as_raw(), data: idx };
        let cb_info = Callback::from_info(info);
        proof {
            assert forall|j: int| 0 <= j < cb_info.spec_args().len() implies env.valid(
                #[trigger] cb_info.spec_args()[j],
            ) by {
                assert(cb_info.spec_args()[j] == (args@[j]).raw());
                assert(env.valid((args@[j]).raw()));
            }
        }
        let cb = &mut registry[idx];
        let outcome = cb.on_call(env, &cb_info);
        let (status, out) = marshal_outcome(env, outcome);
        match classify(status) {
            StatusClass::Success => Ok(Value::from_raw(out)),
            StatusClass::PendingException => {
                if env.scopes.len() == 0 {
                    return Err(CallError::Fatal(JS_UNCAUGHT_EXCEPTION));
                }
                match crate::status::check_status(env, status) {
                    Ok(_u) => Err(CallError::Fatal(JS_UNCAUGHT_EXCEPTION)),
                    Err(exception) => Err(CallError::Exception(exception)),
                }
            },
            StatusClass::Fatal => Err(CallError::Fatal(status)),
        }
    }

    pub fn as_value(self) -> (r: Value)
        ensures
            r.raw() == self.raw(),
    {
        self.0
    }

    pub fn from_value(value: Value) -> (r: Self)
        ensures
            r.raw() == value.raw(),
    {
        Function(value)
    }

    /// The checked conversion: succeeds exactly on function values.
    pub fn try_from_value(env: &Env, value: Value) -> (r: Option<Self>)
        requires
            env.wf(),
            env.valid(value.raw()),
        ensures
            r is Some <==> env.data_of(value.raw()) is Func,
            r matches Some(f) ==> f.raw() == value.raw(),
    {
        if value.is_function(env) {
            Some(Function(value))
        } else {
            None
        }
    }
}

} // verus!

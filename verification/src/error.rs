//! Error values: the generic error and the four specific categories the
//! engine constructs directly.

use vstd::prelude::*;

use vstd::string::StringSliceAdditionalSpecFns;

use crate::data::{ErrorKind, JsData};
use crate::env::{Env, js_value_t};
use crate::string::bytes_of_slice;
use crate::value::Value;

verus! {

/// Create an error cell of the given category with the given message.
pub(crate) fn new_error_cell(env: &mut Env, kind: ErrorKind, message: &str) -> (r: js_value_t)
    requires
        old(env).wf(),
        old(env).has_open_scope(),
    ensures
        final(env).wf(),
        Env::creates(*old(env), *final(env), r, final(env).data_of(r)),
        final(env).valid(r),
        final(env).target_of(r) == old(env).spec_slots().len(),
        final(env).data_of(r) matches JsData::ErrVal { kind: k, msg } && k == kind && msg@
            == message.spec_bytes(),
{
    let msg = bytes_of_slice(message.as_bytes());
    env.alloc_cell(JsData::ErrVal { kind, msg })
}

/// A generic error value.
#[derive(Clone, Copy, Debug)]
pub struct Error(pub(crate) Value);

impl Error {
    pub open(crate) spec fn raw(self) -> js_value_t {
        self.0.raw
    }

    /// A generic error with the given message.
    pub fn new(env: &mut Env, message: &str) -> (r: Self)
        requires
            old(env).wf(),
            old(env).has_open_scope(),
        ensures
            final(env).wf(),
            Env::creates(*old(env), *final(env), r.raw(), final(env).data_of(r.raw())),
            final(env).valid(r.raw()),
            final(env).target_of(r.raw()) == old(env).spec_slots().len(),
            final(env).data_of(r.raw()) matches JsData::ErrVal { kind, msg } && kind
                == ErrorKind::Generic && msg@ == message.spec_bytes(),
    {
        let raw = new_error_cell(env, ErrorKind::Generic, message);
        Error(Value::from_raw(raw))
    }

    /// The error's category.
    pub fn kind(&self, env: &Env) -> (r: ErrorKind)
        requires
            env.wf(),
            env.valid(self.raw()),
            env.data_of(self.raw()) is ErrVal,
        ensures
            env.data_of(self.raw()) matches JsData::ErrVal { kind, .. } ==> r == kind,
    {
        if let JsData::ErrVal { kind, .. } = env.cell_of(self.0.raw) {
            *kind
        } else {
            vstd::pervasive::unreached()
        }
    }

    /// The error's message bytes. The engine surfaces an error's message as
    /// a property of the error object; the modelled error cell holds the
    /// message directly, and this accessor is the read of that property.
    pub fn message(&self, env: &Env) -> (r: Vec<u8>)
        requires
            env.wf(),
            env.valid(self.raw()),
            env.data_of(self.raw()) is ErrVal,
        ensures
            env.data_of(self.raw()) matches JsData::ErrVal { msg, .. } ==> r@ == msg@,
    {
        if let JsData::ErrVal { msg, .. } = env.cell_of(self.0.raw) {
            let mut out: Vec<u8> = Vec::new();
            let n = msg.len();
            let mut i: usize = 0;
            while i < n
                invariant
                    n == msg@.len(),
                    i <= n,
                    out@.len() == i,
                    forall|j: int| 0 <= j < i ==> out@[j] == msg@[j],
                decreases n - i,
            {
                out.push(msg[i]);
                i = i + 1;
            }
            proof {
                assert(out@ =~= msg@);
            }
            out
        } else {
            vstd::pervasive::unreached()
        }
    }

    pub fn as_value(self) -> (r: Value)
        ensures
            r.raw() == self.raw(),
    {
        self.0
    }

    pub fn from_value(value: Value) -> (r: Self)
        ensures
            r.raw() == value.raw(),
    {
        Error(value)
    }

    /// The checked conversion: succeeds exactly on error values.
    pub fn try_from_value(env: &Env, value: Value) -> (r: Option<Self>)
        requires
            env.wf(),
            env.valid(value.raw()),
        ensures
            r is Some <==> env.data_of(value.raw()) is ErrVal,
            r matches Some(e) ==> e.raw() == value.raw(),
    {
        if value.is_error(env) {
            Some(Error(value))
        } else {
            None
        }
    }
}

/// A type-error value.
#[derive(Clone, Copy, Debug)]
pub struct TypeError(pub(crate) Value);

impl TypeError {
    pub open(crate) spec fn raw(self) -> js_value_t {
        self.0.raw
    }

    /// A type error with the given message.
    pub fn new(env: &mut Env, message: &str) -> (r: Self)
        requires
            old(env).wf(),
            old(env).has_open_scope(),
        ensures
            final(env).wf(),
            Env::creates(*old(env), *final(env), r.raw(), final(env).data_of(r.raw())),
            final(env).valid(r.raw()),
            final(env).target_of(r.raw()) == old(env).spec_slots().len(),
            final(env).data_of(r.raw()) matches JsData::ErrVal { kind, msg } && kind
                == ErrorKind::Type && msg@ == message.spec_bytes(),
    {
        let raw = new_error_cell(env, ErrorKind::Type, message);
        TypeError(Value::from_raw(raw))
    }

    pub fn as_value(self) -> (r: Value)
        ensures
            r.raw() == self.raw(),
    {
        self.0
    }

    pub fn from_value(value: Value) -> (r: Self)
        ensures
            r.raw() == value.raw(),
    {
        TypeError(value)
    }
}

/// A range-error value.
#[derive(Clone, Copy, Debug)]
pub struct RangeError(pub(crate) Value);

impl RangeError {
    pub open(crate) spec fn raw(self) -> js_value_t {
        self.0.raw
    }

    /// A range error with the given message.
    pub fn new(env: &mut Env, message: &str) -> (r: Self)
        requires
            old(env).wf(),
            old(env).has_open_scope(),
        ensures
            final(env).wf(),
            Env::creates(*old(env), *final(env), r.raw(), final(env).data_of(r.raw())),
            final(env).valid(r.raw()),
            final(env).target_of(r.raw()) == old(env).spec_slots().len(),
            final(env).data_of(r.raw()) matches JsData::ErrVal { kind, msg } && kind
                == ErrorKind::Range && msg@ == message.spec_bytes(),
    {
        let raw = new_error_cell(env, ErrorKind::Range, message);
        RangeError(Value::from_raw(raw))
    }

    pub fn as_value(self) -> (r: Value)
        ensures
            r.raw() == self.raw(),
    {
        self.0
    }

    pub fn from_value(value: Value) -> (r: Self)
        ensures
            r.raw() == value.raw(),
    {
        RangeError(value)
    }
}

/// A syntax-error value.
#[derive(Clone, Copy, Debug)]
pub struct SyntaxError(pub(crate) Value);

impl SyntaxError {
    pub open(crate) spec fn raw(self) -> js_value_t {
        self.0.raw
    }

    /// A syntax error with the given message.
    pub fn new(env: &mut Env, message: &str) -> (r: Self)
        requires
            old(env).wf(),
            old(env).has_open_scope(),
        ensures
            final(env).wf(),
            Env::creates(*old(env), *final(env), r.raw(), final(env).data_of(r.raw())),
            final(env).valid(r.raw()),
            final(env).target_of(r.raw()) == old(env).spec_slots().len(),
            final(env).data_of(r.raw()) matches JsData::ErrVal { kind, msg } && kind
                == ErrorKind::Syntax && msg@ == message.spec_bytes(),
    {
        let raw = new_error_cell(env, ErrorKind::Syntax, message);
        SyntaxError(Value::from_raw(raw))
    }

    pub fn as_value(self) -> (r: Value)
        ensures
            r.raw() == self.raw(),
    {
        self.0
    }

    pub fn from_value(value: Value) -> (r: Self)
        ensures
            r.raw() == value.raw(),
    {
        SyntaxError(value)
    }
}

/// A reference-error value.
#[derive(Clone, Copy, Debug)]
pub struct ReferenceError(pub(crate) Value);

impl ReferenceError {
    pub open(crate) spec fn raw(self) -> js_value_t {
        self.0.raw
    }

    /// A reference error with the given message.
    pub fn new(env: &mut Env, message: &str) -> (r: Self)
        requires
            old(env).wf(),
            old(env).has_open_scope(),
        ensures
            final(env).wf(),
            Env::creates(*old(env), *final(env), r.raw(), final(env).data_of(r.raw())),
            final(env).valid(r.raw()),
            final(env).target_of(r.raw()) == old(env).spec_slots().len(),
            final(env).data_of(r.raw()) matches JsData::ErrVal { kind, msg } && kind
                == ErrorKind::Reference && msg@ == message.spec_bytes(),
    {
        let raw = new_error_cell(env, ErrorKind::Reference, message);
        ReferenceError(Value::from_raw(raw))
    }

    pub fn as_value(self) -> (r: Value)
        ensures
            r.raw() == self.raw(),
    {
        self.0
    }

    pub fn from_value(value: Value) -> (r: Self)
        ensures
            r.raw() == value.raw(),
    {
        ReferenceError(value)
    }
}

} // verus!

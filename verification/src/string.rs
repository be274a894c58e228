//! Strings, symbols, and the property-name union of the two.
//!
//! Strings cross the boundary as UTF-8 byte sequences with explicit lengths.
//! Reading one back follows the engine's two-call protocol: one call for the
//! required length, one to fill exactly that many bytes.

use vstd::prelude::*;

use vstd::string::StringSliceAdditionalSpecFns;

use crate::data::JsData;
use crate::env::{Env, js_value_t};
use crate::value::Value;

verus! {

/// A string value, stored as its UTF-8 bytes.
#[derive(Clone, Copy, Debug)]
pub struct JsString(pub(crate) Value);

/// A symbol value; each construction yields a distinct symbol, equal only to
/// itself.
#[derive(Clone, Copy, Debug)]
pub struct Symbol(pub(crate) Value);

/// A property name: a string or a symbol.
#[derive(Clone, Copy, Debug)]
pub struct Name(pub(crate) Value);

/// Copy a byte slice into an owned vector.
pub(crate) fn bytes_of_slice(src: &[u8]) -> (r: Vec<u8>)
    ensures
        r@ == src@,
{
    let mut out: Vec<u8> = Vec::new();
    let n = src.len();
    let mut i: usize = 0;
    while i < n
        invariant
            n == src@.len(),
            i <= n,
            out@.len() == i,
            forall|j: int| 0 <= j < i ==> out@[j] == src@[j],
        decreases n - i,
    {
        out.push(src[i]);
        i = i + 1;
    }
    proof {
        assert(out@ =~= src@);
    }
    out
}

impl JsString {
    pub open(crate) spec fn raw(self) -> js_value_t {
        self.0.raw
    }

    /// Create a string from a UTF-8 string slice; the stored bytes are
    /// exactly the slice's bytes. The modelled engine never fails here, so
    /// the result is always the string.
    pub fn new(env: &mut Env, value: &str) -> (r: Result<Self, Value>)
        requires
            old(env).wf(),
            old(env).has_open_scope(),
        ensures
            final(env).wf(),
            r is Ok,
            r matches Ok(s) ==> {
                &&& Env::creates(*old(env), *final(env), s.raw(), final(env).data_of(s.raw()))
                &&& final(env).valid(s.raw())
                &&& final(env).target_of(s.raw()) == old(env).spec_slots().len()
                &&& final(env).data_of(s.raw()) matches JsData::Str(b) && b@ == value.spec_bytes()
            },
    {
        let bytes = bytes_of_slice(value.as_bytes());
        let raw = env.alloc_cell(JsData::Str(bytes));
        Ok(JsString(Value::from_raw(raw)))
    }

    /// The first call of the two-call read protocol: the byte length the
    /// fill call will produce.
    pub fn utf8_len(&self, env: &Env) -> (r: usize)
        requires
            env.wf(),
            env.valid(self.raw()),
            env.data_of(self.raw()) is Str,
        ensures
            env.data_of(self.raw()) matches JsData::Str(b) ==> r == b@.len(),
    {
        if let JsData::Str(b) = env.cell_of(self.0.raw) {
            b.len()
        } else {
            vstd::pervasive::unreached()
        }
    }

    /// The second call of the two-call read protocol: exactly `utf8_len`
    /// bytes, identical to the bytes the string was constructed from.
    pub fn to_bytes(&self, env: &Env) -> (r: Vec<u8>)
        requires
            env.wf(),
            env.valid(self.raw()),
            env.data_of(self.raw()) is Str,
        ensures
            env.data_of(self.raw()) matches JsData::Str(b) ==> r@ == b@,
    {
        let len = self.utf8_len(env);
        if let JsData::Str(b) = env.cell_of(self.0.raw) {
            let mut out: Vec<u8> = Vec::with_capacity(len);
            let mut i: usize = 0;
            while i < len
                invariant
                    len == b@.len(),
                    i <= len,
                    out@.len() == i,
                    forall|j: int| 0 <= j < i ==> out@[j] == b@[j],
                decreases len - i,
            {
                out.push(b[i]);
                i = i + 1;
            }
            proof {
                assert(out@ =~= b@);
            }
            out
        } else {
            vstd::pervasive::unreached()
        }
    }

    pub fn as_value(self) -> (r: Value)
        ensures
            r.raw() == self.raw(),
    {
        self.0
    }

    pub fn from_value(value: Value) -> (r: Self)
        ensures
            r.raw() == value.raw(),
    {
        JsString(value)
    }

    /// The checked conversion: succeeds exactly on string values.
    pub fn try_from_value(env: &Env, value: Value) -> (r: Option<Self>)
        requires
            env.wf(),
            env.valid(value.raw()),
        ensures
            r is Some <==> env.data_of(value.raw()) is Str,
            r matches Some(s) ==> s.raw() == value.raw(),
    {
        if value.is_string(env) {
            Some(JsString(value))
        } else {
            None
        }
    }
}

impl Symbol {
    pub open(crate) spec fn raw(self) -> js_value_t {
        self.0.raw
    }

    /// Create a fresh symbol with the given description. Each call yields a
    /// new cell, so two symbols are strictly equal only if they are the same
    /// symbol.
    pub fn new(env: &mut Env, description: &str) -> (r: Result<Self, Value>)
        requires
            old(env).wf(),
            old(env).has_open_scope(),
        ensures
            final(env).wf(),
            r is Ok,
            r matches Ok(s) ==> {
                &&& Env::creates(*old(env), *final(env), s.raw(), final(env).data_of(s.raw()))
                &&& final(env).valid(s.raw())
                &&& final(env).data_of(s.raw()) matches JsData::Sym(b) && b@
                    == description.spec_bytes()
                &&& final(env).target_of(s.raw()) == old(env).spec_slots().len()
            },
    {
        let bytes = bytes_of_slice(description.as_bytes());
        let raw = env.alloc_cell(JsData::Sym(bytes));
        Ok(Symbol(Value::from_raw(raw)))
    }

    pub fn as_value(self) -> (r: Value)
        ensures
            r.raw() == self.raw(),
    {
        self.0
    }

    pub fn from_value(value: Value) -> (r: Self)
        ensures
            r.raw() == value.raw(),
    {
        Symbol(value)
    }

    /// The checked conversion: succeeds exactly on symbol values.
    pub fn try_from_value(env: &Env, value: Value) -> (r: Option<Self>)
        requires
            env.wf(),
            env.valid(value.raw()),
        ensures
            r is Some <==> env.data_of(value.raw()) is Sym,
            r matches Some(s) ==> s.raw() == value.raw(),
    {
        if value.is_symbol(env) {
            Some(Symbol(value))
        } else {
            None
        }
    }
}

impl Name {
    pub open(crate) spec fn raw(self) -> js_value_t {
        self.0.raw
    }

    /// A string used as a property name.
    pub fn from_string(s: JsString) -> (r: Name)
        ensures
            r.raw() == s.raw(),
    {
        Name(s.0)
    }

    /// A symbol used as a property name.
    pub fn from_symbol(s: Symbol) -> (r: Name)
        ensures
            r.raw() == s.raw(),
    {
        Name(s.0)
    }

    pub fn as_value(self) -> (r: Value)
        ensures
            r.raw() == self.raw(),
    {
        self.0
    }
}

} // verus!

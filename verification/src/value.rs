//! The universal `Value` wrapper and the primitive typed wrappers: undefined,
//! null, booleans, numbers, big integers, strings, symbols and property
//! names, together with the engine's numeric coercion semantics.

use vstd::prelude::*;

use crate::data::{kind_of, JsData, js_value_type_t};
use crate::env::{Env, js_value_t};

verus! {

/// The universal value wrapper: a raw handle. Typed wrappers refine it; the
/// conversions between them never touch the environment.
#[derive(Clone, Copy, Debug)]
pub struct Value {
    pub(crate) raw: js_value_t,
}

/// The engine's ToUint32 coercion of an integral number: the payload modulo
/// two to the thirty-second.
pub open spec fn js_to_uint32(n: i64) -> u32 {
    ((n as int) % 0x1_0000_0000) as u32
}

/// The engine's ToInt32 coercion of an integral number: the payload modulo
/// two to the thirty-second, shifted into the signed 32-bit range.
pub open spec fn js_to_int32(n: i64) -> i32 {
    let m = (n as int) % 0x1_0000_0000;
    if m >= 0x8000_0000 {
        (m - 0x1_0000_0000) as i32
    } else {
        m as i32
    }
}

/// The integer a big-integer cell denotes.
pub open spec fn bigint_int(neg: bool, mag: u64) -> int {
    if neg {
        -(mag as int)
    } else {
        mag as int
    }
}

/// Reading a number back as a signed 32-bit integer undoes writing one:
/// ToInt32 is the identity on the signed 32-bit range.
pub proof fn lemma_int32_round_trip(i: i32)
    ensures
        js_to_int32(i as i64) == i,
{
    if i >= 0 {
        vstd::arithmetic::div_mod::lemma_small_mod(i as nat, 0x1_0000_0000 as nat);
    } else {
        vstd::arithmetic::div_mod::lemma_mod_multiples_vanish(1, i as int, 0x1_0000_0000);
        vstd::arithmetic::div_mod::lemma_small_mod(
            (i + 0x1_0000_0000) as nat,
            0x1_0000_0000 as nat,
        );
    }
}

/// Reading a number back as an unsigned 32-bit integer undoes writing one:
/// ToUint32 is the identity on the unsigned 32-bit range.
pub proof fn lemma_uint32_round_trip(u: u32)
    ensures
        js_to_uint32(u as i64) == u,
{
    vstd::arithmetic::div_mod::lemma_small_mod(u as nat, 0x1_0000_0000 as nat);
}

/// The sign-magnitude form a big integer constructed from a signed 64-bit
/// integer takes.
pub open spec fn bigint_mag_of_i64(v: i64) -> u64 {
    if v >= 0 {
        v as u64
    } else {
        (-(v as int)) as u64
    }
}

/// Reading a big integer back as a signed 64-bit integer undoes writing one:
/// the stored sign-magnitude pair denotes the written value, and that value
/// lies in the lossless range.
pub proof fn lemma_bigint_i64_round_trip(v: i64)
    ensures
        bigint_int(v < 0, bigint_mag_of_i64(v)) == v as int,
        -0x8000_0000_0000_0000 <= bigint_int(v < 0, bigint_mag_of_i64(v))
            <= 0x7fff_ffff_ffff_ffff,
{
}

/// Reading a big integer back as an unsigned 64-bit integer undoes writing
/// one: a non-negative sign-magnitude pair denotes the written value.
pub proof fn lemma_bigint_u64_round_trip(v: u64)
    ensures
        bigint_int(false, v) == v as int,
{
}

/// The low 32 bits of a signed 64-bit integer, as the mathematical modulus.
fn low32_of_i64(n: i64) -> (r: u64)
    ensures
        r as int == (n as int) % 0x1_0000_0000,
        r < 0x1_0000_0000,
{
    if n >= 0 {
        (n as u64) % 4294967296
    } else {
        let m: i64 = -(n + 1);
        let k: u64 = (m as u64) % 4294967296;
        proof {
            let q = (m as int) / 0x1_0000_0000;
            vstd::arithmetic::div_mod::lemma_fundamental_div_mod(m as int, 0x1_0000_0000);
            assert(n as int == 0x1_0000_0000 * (-(q + 1)) + (0x1_0000_0000 - k - 1));
            vstd::arithmetic::div_mod::lemma_mod_multiples_vanish(
                -(q + 1),
                0x1_0000_0000 - k as int - 1,
                0x1_0000_0000,
            );
            vstd::arithmetic::div_mod::lemma_small_mod(
                (0x1_0000_0000 - k - 1) as nat,
                0x1_0000_0000 as nat,
            );
        }
        4294967295 - k
    }
}

impl Value {
    /// The raw handle under the wrapper.
    pub open(crate) spec fn raw(self) -> js_value_t {
        self.raw
    }

    /// The raw handle, for handing back across the boundary; never an
    /// engine call.
    pub fn as_raw(self) -> (r: js_value_t)
        ensures
            r == self.raw(),
    {
        self.raw
    }

    /// Wrap a raw handle; never an engine call.
    pub fn from_raw(raw: js_value_t) -> (r: Value)
        ensures
            r.raw() == raw,
    {
        Value { raw }
    }

    /// Whether this handle is still usable: its owning scope is still open.
    /// Total, so foreign handles can be tested before use.
    pub fn is_valid(&self, env: &Env) -> (r: bool)
        ensures
            r == env.valid(self.raw()),
    {
        if self.raw.idx >= env.handles.len() {
            return false;
        }
        let owner = env.handles[self.raw.idx].owner;
        let n = env.scopes.len();
        let mut i: usize = 0;
        while i < n
            invariant
                n == env.scopes@.len(),
                i <= n,
                owner == env.handles@[self.raw.idx as int].owner,
                self.raw.idx < env.handles@.len(),
                forall|j: int| 0 <= j < i ==> env.scopes@[j].id != owner,
            decreases n - i,
        {
            if env.scopes[i].id == owner {
                return true;
            }
            i = i + 1;
        }
        false
    }

    /// The `typeof` category of the value.
    pub fn type_of(&self, env: &Env) -> (r: js_value_type_t)
        requires
            env.wf(),
            env.valid(self.raw()),
        ensures
            r == kind_of(env.data_of(self.raw())),
    {
        match env.cell_of(self.raw) {
            JsData::Undefined => js_value_type_t::js_undefined,
            JsData::Null => js_value_type_t::js_null,
            JsData::Boolean(_) => js_value_type_t::js_boolean,
            JsData::Number(_) => js_value_type_t::js_number,
            JsData::BigIntVal { .. } => js_value_type_t::js_bigint,
            JsData::Str(_) => js_value_type_t::js_string,
            JsData::Sym(_) => js_value_type_t::js_symbol,
            JsData::Func { .. } => js_value_type_t::js_function,
            _ => js_value_type_t::js_object,
        }
    }

    pub fn is_undefined(&self, env: &Env) -> (r: bool)
        requires
            env.wf(),
            env.valid(self.raw()),
        ensures
            r == (env.data_of(self.raw()) is Undefined),
    {
        matches!(env.cell_of(self.raw), JsData::Undefined)
    }

    pub fn is_null(&self, env: &Env) -> (r: bool)
        requires
            env.wf(),
            env.valid(self.raw()),
        ensures
            r == (env.data_of(self.raw()) is Null),
    {
        matches!(env.cell_of(self.raw), JsData::Null)
    }

    pub fn is_boolean(&self, env: &Env) -> (r: bool)
        requires
            env.wf(),
            env.valid(self.raw()),
        ensures
            r == (env.data_of(self.raw()) is Boolean),
    {
        matches!(env.cell_of(self.raw), JsData::Boolean(_))
    }

    pub fn is_number(&self, env: &Env) -> (r: bool)
        requires
            env.wf(),
            env.valid(self.raw()),
        ensures
            r == (env.data_of(self.raw()) is Number),
    {
        matches!(env.cell_of(self.raw), JsData::Number(_))
    }

    pub fn is_bigint(&self, env: &Env) -> (r: bool)
        requires
            env.wf(),
            env.valid(self.raw()),
        ensures
            r == (env.data_of(self.raw()) is BigIntVal),
    {
        matches!(env.cell_of(self.raw), JsData::BigIntVal { .. })
    }

    pub fn is_string(&self, env: &Env) -> (r: bool)
        requires
            env.wf(),
            env.valid(self.raw()),
        ensures
            r == (env.data_of(self.raw()) is Str),
    {
        matches!(env.cell_of(self.raw), JsData::Str(_))
    }

    pub fn is_symbol(&self, env: &Env) -> (r: bool)
        requires
            env.wf(),
            env.valid(self.raw()),
        ensures
            r == (env.data_of(self.raw()) is Sym),
    {
        matches!(env.cell_of(self.raw), JsData::Sym(_))
    }

    pub fn is_object(&self, env: &Env) -> (r: bool)
        requires
            env.wf(),
            env.valid(self.raw()),
        ensures
            r == (env.data_of(self.raw()) is Obj),
    {
        matches!(env.cell_of(self.raw), JsData::Obj { .. })
    }

    pub fn is_array(&self, env: &Env) -> (r: bool)
        requires
            env.wf(),
            env.valid(self.raw()),
        ensures
            r == (env.data_of(self.raw()) is Arr),
    {
        matches!(env.cell_of(self.raw), JsData::Arr(_))
    }

    pub fn is_function(&self, env: &Env) -> (r: bool)
        requires
            env.wf(),
            env.valid(self.raw()),
        ensures
            r == (env.data_of(self.raw()) is Func),
    {
        matches!(env.cell_of(self.raw), JsData::Func { .. })
    }

    pub fn is_error(&self, env: &Env) -> (r: bool)
        requires
            env.wf(),
            env.valid(self.raw()),
        ensures
            r == (env.data_of(self.raw()) is ErrVal),
    {
        matches!(env.cell_of(self.raw), JsData::ErrVal { .. })
    }

    pub fn is_arraybuffer(&self, env: &Env) -> (r: bool)
        requires
            env.wf(),
            env.valid(self.raw()),
        ensures
            r == (env.data_of(self.raw()) is Buf),
    {
        matches!(env.cell_of(self.raw), JsData::Buf { .. })
    }

    pub fn is_typedarray(&self, env: &Env) -> (r: bool)
        requires
            env.wf(),
            env.valid(self.raw()),
        ensures
            r == (env.data_of(self.raw()) is View),
    {
        matches!(env.cell_of(self.raw), JsData::View { .. })
    }

    pub fn is_promise(&self, env: &Env) -> (r: bool)
        requires
            env.wf(),
            env.valid(self.raw()),
        ensures
            r == (env.data_of(self.raw()) is Promise),
    {
        matches!(env.cell_of(self.raw), JsData::Promise { .. })
    }

    /// The engine's strict equality: primitives by value, strings by their
    /// bytes, everything else by cell identity.
    pub fn strict_equals(&self, env: &Env, other: &Value) -> (r: bool)
        requires
            env.wf(),
            env.valid(self.raw()),
            env.valid(other.raw()),
        ensures
            r == strict_eq_spec(*env, self.raw(), other.raw()),
    {
        let ta = env.target(self.raw);
        let tb = env.target(other.raw);
        match (env.cell_of(self.raw), env.cell_of(other.raw)) {
            (JsData::Undefined, JsData::Undefined) => true,
            (JsData::Null, JsData::Null) => true,
            (JsData::Boolean(x), JsData::Boolean(y)) => x == y,
            (JsData::Number(x), JsData::Number(y)) => x == y,
            (
                JsData::BigIntVal { neg: n1, mag: m1 },
                JsData::BigIntVal { neg: n2, mag: m2 },
            ) => n1 == n2 && m1 == m2,
            (JsData::Str(x), JsData::Str(y)) => crate::data::bytes_eq(x, y),
            _ => ta == tb,
        }
    }
}

/// Strict equality over the model: primitives compare by their payloads,
/// strings by their bytes, and all remaining values by cell identity.
pub open(crate) spec fn strict_eq_spec(env: Env, a: js_value_t, b: js_value_t) -> bool {
    match (env.data_of(a), env.data_of(b)) {
        (JsData::Undefined, JsData::Undefined) => true,
        (JsData::Null, JsData::Null) => true,
        (JsData::Boolean(x), JsData::Boolean(y)) => x == y,
        (JsData::Number(x), JsData::Number(y)) => x == y,
        (JsData::BigIntVal { neg: n1, mag: m1 }, JsData::BigIntVal { neg: n2, mag: m2 }) => n1
            == n2 && m1 == m2,
        (JsData::Str(x), JsData::Str(y)) => x@ == y@,
        _ => env.target_of(a) == env.target_of(b),
    }
}

/// The undefined value.
#[derive(Clone, Copy, Debug)]
pub struct Undefined(pub(crate) Value);

impl Undefined {
    /// A fresh handle to the canonical undefined cell.
    pub fn new(env: &mut Env) -> (r: Self)
        requires
            old(env).wf(),
            old(env).has_open_scope(),
        ensures
            final(env).wf(),
            Env::aliases(*old(env), *final(env), r.raw(), 0),
            final(env).valid(r.raw()),
            final(env).data_of(r.raw()) is Undefined,
    {
        let v = env.alias_cell(0);
        Undefined(Value { raw: v })
    }

    pub open(crate) spec fn raw(self) -> js_value_t {
        self.0.raw
    }

    pub fn as_value(self) -> (r: Value)
        ensures
            r.raw() == self.raw(),
    {
        self.0
    }

    pub fn from_value(value: Value) -> (r: Self)
        ensures
            r.raw() == value.raw(),
    {
        Undefined(value)
    }
}

/// The null value.
#[derive(Clone, Copy, Debug)]
pub struct Null(pub(crate) Value);

impl Null {
    /// A fresh handle to the canonical null cell.
    pub fn new(env: &mut Env) -> (r: Self)
        requires
            old(env).wf(),
            old(env).has_open_scope(),
        ensures
            final(env).wf(),
            Env::aliases(*old(env), *final(env), r.raw(), 1),
            final(env).valid(r.raw()),
            final(env).data_of(r.raw()) is Null,
    {
        let v = env.alias_cell(1);
        Null(Value { raw: v })
    }

    pub open(crate) spec fn raw(self) -> js_value_t {
        self.0.raw
    }

    pub fn as_value(self) -> (r: Value)
        ensures
            r.raw() == self.raw(),
    {
        self.0
    }

    pub fn from_value(value: Value) -> (r: Self)
        ensures
            r.raw() == value.raw(),
    {
        Null(value)
    }
}

/// A boolean value.
#[derive(Clone, Copy, Debug)]
pub struct Boolean(pub(crate) Value);

impl Boolean {
    /// A fresh handle to the canonical cell for `value`.
    pub fn new(env: &mut Env, value: bool) -> (r: Self)
        requires
            old(env).wf(),
            old(env).has_open_scope(),
        ensures
            final(env).wf(),
            Env::aliases(*old(env), *final(env), r.raw(), if value { 3int } else { 2int }),
            final(env).valid(r.raw()),
            final(env).data_of(r.raw()) == JsData::Boolean(value),
    {
        let v = if value {
            env.alias_cell(3)
        } else {
            env.alias_cell(2)
        };
        Boolean(Value { raw: v })
    }

    /// Read the boolean back.
    pub fn as_bool(&self, env: &Env) -> (r: bool)
        requires
            env.wf(),
            env.valid(self.raw()),
            env.data_of(self.raw()) is Boolean,
        ensures
            env.data_of(self.raw()) matches JsData::Boolean(b) ==> r == b,
    {
        if let JsData::Boolean(b) = env.cell_of(self.0.raw) {
            *b
        } else {
            vstd::pervasive::unreached()
        }
    }

    pub open(crate) spec fn raw(self) -> js_value_t {
        self.0.raw
    }

    pub fn as_value(self) -> (r: Value)
        ensures
            r.raw() == self.raw(),
    {
        self.0
    }

    pub fn from_value(value: Value) -> (r: Self)
        ensures
            r.raw() == value.raw(),
    {
        Boolean(value)
    }

    /// The checked conversion: succeeds exactly on boolean values.
    pub fn try_from_value(env: &Env, value: Value) -> (r: Option<Self>)
        requires
            env.wf(),
            env.valid(value.raw()),
        ensures
            r is Some <==> env.data_of(value.raw()) is Boolean,
            r matches Some(b) ==> b.raw() == value.raw(),
    {
        if value.is_boolean(env) {
            Some(Boolean(value))
        } else {
            None
        }
    }
}

/// A number value. The binding constructs and reads integral numbers; reads
/// follow the engine's modulo coercions.
#[derive(Clone, Copy, Debug)]
pub struct Number(pub(crate) Value);

impl Number {
    /// A number holding a signed 32-bit integer.
    pub fn with_i32(env: &mut Env, value: i32) -> (r: Self)
        requires
            old(env).wf(),
            old(env).has_open_scope(),
        ensures
            final(env).wf(),
            Env::creates(*old(env), *final(env), r.raw(), JsData::Number(value as i64)),
            final(env).valid(r.raw()),
            final(env).target_of(r.raw()) == old(env).spec_slots().len(),
            final(env).data_of(r.raw()) == JsData::Number(value as i64),
    {
        let v = env.alloc_cell(JsData::Number(value as i64));
        Number(Value { raw: v })
    }

    /// A number holding an unsigned 32-bit integer.
    pub fn with_u32(env: &mut Env, value: u32) -> (r: Self)
        requires
            old(env).wf(),
            old(env).has_open_scope(),
        ensures
            final(env).wf(),
            Env::creates(*old(env), *final(env), r.raw(), JsData::Number(value as i64)),
            final(env).valid(r.raw()),
            final(env).target_of(r.raw()) == old(env).spec_slots().len(),
            final(env).data_of(r.raw()) == JsData::Number(value as i64),
    {
        let v = env.alloc_cell(JsData::Number(value as i64));
        Number(Value { raw: v })
    }

    /// A number holding a signed 64-bit integer. The engine's numbers hold
    /// integers exactly only within the safe range, so the value must lie
    /// within it.
    pub fn with_i64(env: &mut Env, value: i64) -> (r: Self)
        requires
            old(env).wf(),
            old(env).has_open_scope(),
            -9007199254740992 <= value <= 9007199254740992,
        ensures
            final(env).wf(),
            Env::creates(*old(env), *final(env), r.raw(), JsData::Number(value)),
            final(env).valid(r.raw()),
            final(env).target_of(r.raw()) == old(env).spec_slots().len(),
            final(env).data_of(r.raw()) == JsData::Number(value),
    {
        let v = env.alloc_cell(JsData::Number(value));
        Number(Value { raw: v })
    }

    /// Read the number back with the engine's ToInt32 coercion.
    pub fn as_i32(&self, env: &Env) -> (r: i32)
        requires
            env.wf(),
            env.valid(self.raw()),
            env.data_of(self.raw()) is Number,
        ensures
            env.data_of(self.raw()) matches JsData::Number(n) ==> r == js_to_int32(n),
    {
        if let JsData::Number(n) = env.cell_of(self.0.raw) {
            let low = low32_of_i64(*n);
            if low >= 2147483648 {
                ((low as i64) - 4294967296) as i32
            } else {
                low as i32
            }
        } else {
            vstd::pervasive::unreached()
        }
    }

    /// Read the number back with the engine's ToUint32 coercion.
    pub fn as_u32(&self, env: &Env) -> (r: u32)
        requires
            env.wf(),
            env.valid(self.raw()),
            env.data_of(self.raw()) is Number,
        ensures
            env.data_of(self.raw()) matches JsData::Number(n) ==> r == js_to_uint32(n),
    {
        if let JsData::Number(n) = env.cell_of(self.0.raw) {
            let low = low32_of_i64(*n);
            low as u32
        } else {
            vstd::pervasive::unreached()
        }
    }

    /// Read the number back as a signed 64-bit integer; the stored integral
    /// payload is returned exactly.
    pub fn as_i64(&self, env: &Env) -> (r: i64)
        requires
            env.wf(),
            env.valid(self.raw()),
            env.data_of(self.raw()) is Number,
        ensures
            env.data_of(self.raw()) matches JsData::Number(n) ==> r == n,
    {
        if let JsData::Number(n) = env.cell_of(self.0.raw) {
            *n
        } else {
            vstd::pervasive::unreached()
        }
    }

    pub open(crate) spec fn raw(self) -> js_value_t {
        self.0.raw
    }

    pub fn as_value(self) -> (r: Value)
        ensures
            r.raw() == self.raw(),
    {
        self.0
    }

    pub fn from_value(value: Value) -> (r: Self)
        ensures
            r.raw() == value.raw(),
    {
        Number(value)
    }

    /// The checked conversion: succeeds exactly on number values.
    pub fn try_from_value(env: &Env, value: Value) -> (r: Option<Self>)
        requires
            env.wf(),
            env.valid(value.raw()),
        ensures
            r is Some <==> env.data_of(value.raw()) is Number,
            r matches Some(n) ==> n.raw() == value.raw(),
    {
        if value.is_number(env) {
            Some(Number(value))
        } else {
            None
        }
    }
}

/// A big-integer value, stored in sign-magnitude form.
#[derive(Clone, Copy, Debug)]
pub struct BigInt(pub(crate) Value);

impl BigInt {
    /// A big integer holding a signed 64-bit value exactly.
    pub fn with_i64(env: &mut Env, value: i64) -> (r: Self)
        requires
            old(env).wf(),
            old(env).has_open_scope(),
        ensures
            final(env).wf(),
            Env::creates(
                *old(env),
                *final(env),
                r.raw(),
                JsData::BigIntVal { neg: value < 0, mag: bigint_mag_of_i64(value) },
            ),
            final(env).valid(r.raw()),
            final(env).target_of(r.raw()) == old(env).spec_slots().len(),
            final(env).data_of(r.raw()) matches JsData::BigIntVal { neg, mag } && bigint_int(
                neg,
                mag,
            ) == value as int,
    {
        let neg = value < 0;
        let mag: u64 = if value >= 0 {
            value as u64
        } else {
            ((-(value + 1)) as u64) + 1
        };
        let v = env.alloc_cell(JsData::BigIntVal { neg, mag });
        BigInt(Value { raw: v })
    }

    /// A big integer holding an unsigned 64-bit value exactly.
    pub fn with_u64(env: &mut Env, value: u64) -> (r: Self)
        requires
            old(env).wf(),
            old(env).has_open_scope(),
        ensures
            final(env).wf(),
            Env::creates(
                *old(env),
                *final(env),
                r.raw(),
                JsData::BigIntVal { neg: false, mag: value },
            ),
            final(env).valid(r.raw()),
            final(env).target_of(r.raw()) == old(env).spec_slots().len(),
            final(env).data_of(r.raw()) matches JsData::BigIntVal { neg, mag } && bigint_int(
                neg,
                mag,
            ) == value as int,
    {
        let v = env.alloc_cell(JsData::BigIntVal { neg: false, mag: value });
        BigInt(Value { raw: v })
    }

    /// Read the big integer back as a signed 64-bit integer. The flag says
    /// whether the read was lossless; a value outside the signed range comes
    /// back reduced modulo two to the sixty-fourth.
    pub fn as_i64(&self, env: &Env) -> (r: (i64, bool))
        requires
            env.wf(),
            env.valid(self.raw()),
            env.data_of(self.raw()) is BigIntVal,
        ensures
            env.data_of(self.raw()) matches JsData::BigIntVal { neg, mag } ==> {
                let v = bigint_int(neg, mag);
                &&& r.1 == (-0x8000_0000_0000_0000 <= v <= 0x7fff_ffff_ffff_ffff)
                &&& r.1 ==> r.0 as int == v
                &&& !r.1 ==> r.0 as int == (if v >= 0 {
                    v - 0x1_0000_0000_0000_0000
                } else {
                    v + 0x1_0000_0000_0000_0000
                })
            },
    {
        if let JsData::BigIntVal { neg, mag } = env.cell_of(self.0.raw) {
            if !*neg {
                if *mag <= 9223372036854775807 {
                    (*mag as i64, true)
                } else {
                    let w: u64 = *mag - 9223372036854775808;
                    (((w as i64) - 9223372036854775807) - 1, false)
                }
            } else {
                if *mag <= 9223372036854775807 {
                    (-(*mag as i64), true)
                } else if *mag == 9223372036854775808 {
                    (i64::MIN, true)
                } else {
                    let w: u64 = (18446744073709551615 - *mag) + 1;
                    (w as i64, false)
                }
            }
        } else {
            vstd::pervasive::unreached()
        }
    }

    /// Read the big integer back as an unsigned 64-bit integer. The flag
    /// says whether the read was lossless; a negative value comes back
    /// reduced modulo two to the sixty-fourth.
    pub fn as_u64(&self, env: &Env) -> (r: (u64, bool))
        requires
            env.wf(),
            env.valid(self.raw()),
            env.data_of(self.raw()) is BigIntVal,
        ensures
            env.data_of(self.raw()) matches JsData::BigIntVal { neg, mag } ==> {
                let v = bigint_int(neg, mag);
                &&& r.1 == !neg
                &&& r.1 ==> r.0 as int == v
                &&& !r.1 ==> r.0 as int == v + 0x1_0000_0000_0000_0000
            },
    {
        if let JsData::BigIntVal { neg, mag } = env.cell_of(self.0.raw) {
            if !*neg {
                (*mag, true)
            } else {
                let w: u64 = (18446744073709551615 - *mag) + 1;
                (w, false)
            }
        } else {
            vstd::pervasive::unreached()
        }
    }

    pub open(crate) spec fn raw(self) -> js_value_t {
        self.0.raw
    }

    pub fn as_value(self) -> (r: Value)
        ensures
            r.raw() == self.raw(),
    {
        self.0
    }

    pub fn from_value(value: Value) -> (r: Self)
        ensures
            r.raw() == value.raw(),
    {
        BigInt(value)
    }

    /// The checked conversion: succeeds exactly on big-integer values.
    pub fn try_from_value(env: &Env, value: Value) -> (r: Option<Self>)
        requires
            env.wf(),
            env.valid(value.raw()),
        ensures
            r is Some <==> env.data_of(value.raw()) is BigIntVal,
            r matches Some(b) ==> b.raw() == value.raw(),
    {
        if value.is_bigint(env) {
            Some(BigInt(value))
        } else {
            None
        }
    }
}

} // verus!

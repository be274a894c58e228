//! The kinds of engine values and the cell type that the environment's heap
//! stores, together with the spec-level views of property keys.
#![allow(non_camel_case_types)]

use vstd::prelude::*;

verus! {

/// The category an engine value reports through `typeof`-style introspection.
#[derive(Clone, Copy, Debug, PartialEq, Eq, Structural)]
pub enum js_value_type_t {
    js_undefined,
    js_null,
    js_boolean,
    js_number,
    js_string,
    js_symbol,
    js_object,
    js_function,
    js_external,
    js_bigint,
}

/// The element kind of a typed-array view over an array buffer.
#[derive(Clone, Copy, Debug, PartialEq, Eq, Structural)]
pub enum js_typedarray_type_t {
    js_int8array,
    js_uint8array,
    js_uint8clampedarray,
    js_int16array,
    js_uint16array,
    js_int32array,
    js_uint32array,
    js_float16array,
    js_float32array,
    js_float64array,
    js_bigint64array,
    js_biguint64array,
}

/// The settlement state of a promise.
#[derive(Clone, Copy, Debug, PartialEq, Eq, Structural)]
pub enum js_promise_state_t {
    js_promise_pending,
    js_promise_fulfilled,
    js_promise_rejected,
}

/// A 128-bit tag that can be attached to an object once and checked later.
#[derive(Clone, Copy, Debug, PartialEq, Eq, Structural)]
pub struct js_type_tag_t {
    pub lower: u64,
    pub upper: u64,
}

/// The error categories the engine distinguishes when an error value is made.
#[derive(Clone, Copy, Debug, PartialEq, Eq, Structural)]
pub enum ErrorKind {
    Generic,
    Type,
    Range,
    Syntax,
    Reference,
}

/// A property key of an object: a UTF-8 name, an array-style index, or a
/// symbol identified by the heap cell that holds it.
#[derive(Debug)]
pub enum PropKey {
    Name(Vec<u8>),
    Index(u32),
    Sym(usize),
}

/// The spec-level view of a property key.
pub enum KeyView {
    Name(Seq<u8>),
    Index(u32),
    Sym(int),
}

pub open spec fn key_view(k: PropKey) -> KeyView {
    match k {
        PropKey::Name(bytes) => KeyView::Name(bytes@),
        PropKey::Index(i) => KeyView::Index(i),
        PropKey::Sym(s) => KeyView::Sym(s as int),
    }
}

/// One own property of an object: its key and the heap cell of its value.
#[derive(Debug)]
pub struct Prop {
    pub key: PropKey,
    pub val: usize,
}

/// One cell of the environment's value heap. Cells refer to other cells by
/// their heap index; every value wrapper ultimately denotes one cell.
#[derive(Debug)]
pub enum JsData {
    Undefined,
    Null,
    Boolean(bool),
    /// A number restricted to the integral payloads the binding constructs.
    Number(i64),
    /// A big integer in sign-magnitude form; a magnitude of zero is never
    /// marked negative.
    BigIntVal { neg: bool, mag: u64 },
    /// A string as its UTF-8 bytes.
    Str(Vec<u8>),
    /// A symbol with its description; symbol identity is the cell itself.
    Sym(Vec<u8>),
    /// A plain object: its own properties and an optional type tag.
    Obj { props: Vec<Prop>, tag: Option<js_type_tag_t> },
    /// An array: element cells, with absent elements denoting undefined.
    Arr(Vec<usize>),
    /// A function; `data` indexes the host's callback registry.
    Func { data: Option<usize> },
    /// An error value with its category and message bytes. The message,
    /// a property of the error object in the engine, lives in the cell
    /// itself here and is read back through the error wrapper's accessor.
    ErrVal { kind: ErrorKind, msg: Vec<u8> },
    /// An array buffer owning raw bytes; detaching empties it.
    Buf { bytes: Vec<u8>, detached: bool },
    /// A typed view over a buffer cell: element kind, byte offset into the
    /// buffer, and element count.
    View { kind: js_typedarray_type_t, buf: usize, offset: usize, count: usize },
    /// A promise with its state and, once settled, its result cell.
    Promise { state: js_promise_state_t, result: Option<usize> },
}

/// The `typeof` category of a heap cell. Arrays, errors, buffers, views and
/// promises all report as objects, as the engine does.
pub open spec fn kind_of(d: JsData) -> js_value_type_t {
    match d {
        JsData::Undefined => js_value_type_t::js_undefined,
        JsData::Null => js_value_type_t::js_null,
        JsData::Boolean(_) => js_value_type_t::js_boolean,
        JsData::Number(_) => js_value_type_t::js_number,
        JsData::BigIntVal { .. } => js_value_type_t::js_bigint,
        JsData::Str(_) => js_value_type_t::js_string,
        JsData::Sym(_) => js_value_type_t::js_symbol,
        JsData::Obj { .. } => js_value_type_t::js_object,
        JsData::Arr(_) => js_value_type_t::js_object,
        JsData::Func { .. } => js_value_type_t::js_function,
        JsData::ErrVal { .. } => js_value_type_t::js_object,
        JsData::Buf { .. } => js_value_type_t::js_object,
        JsData::View { .. } => js_value_type_t::js_object,
        JsData::Promise { .. } => js_value_type_t::js_object,
    }
}

/// Width in bytes of one element of a typed-array kind.
pub open spec fn spec_elem_size(k: js_typedarray_type_t) -> nat {
    match k {
        js_typedarray_type_t::js_int8array => 1,
        js_typedarray_type_t::js_uint8array => 1,
        js_typedarray_type_t::js_uint8clampedarray => 1,
        js_typedarray_type_t::js_int16array => 2,
        js_typedarray_type_t::js_uint16array => 2,
        js_typedarray_type_t::js_int32array => 4,
        js_typedarray_type_t::js_uint32array => 4,
        js_typedarray_type_t::js_float16array => 2,
        js_typedarray_type_t::js_float32array => 4,
        js_typedarray_type_t::js_float64array => 8,
        js_typedarray_type_t::js_bigint64array => 8,
        js_typedarray_type_t::js_biguint64array => 8,
    }
}

pub fn elem_size(k: js_typedarray_type_t) -> (r: usize)
    ensures
        r == spec_elem_size(k),
        1 <= r <= 8,
{
    match k {
        js_typedarray_type_t::js_int8array => 1,
        js_typedarray_type_t::js_uint8array => 1,
        js_typedarray_type_t::js_uint8clampedarray => 1,
        js_typedarray_type_t::js_int16array => 2,
        js_typedarray_type_t::js_uint16array => 2,
        js_typedarray_type_t::js_int32array => 4,
        js_typedarray_type_t::js_uint32array => 4,
        js_typedarray_type_t::js_float16array => 2,
        js_typedarray_type_t::js_float32array => 4,
        js_typedarray_type_t::js_float64array => 8,
        js_typedarray_type_t::js_bigint64array => 8,
        js_typedarray_type_t::js_biguint64array => 8,
    }
}

/// A property entry is in bounds: its value cell, and for symbol keys the
/// symbol's cell, lie within the heap.
pub open spec fn prop_ok(slots: Seq<JsData>, p: Prop) -> bool {
    &&& p.val < slots.len()
    &&& match p.key {
        PropKey::Sym(s) => s < slots.len(),
        _ => true,
    }
}

/// No two properties of one object share a key.
pub open spec fn keys_unique(props: Seq<Prop>) -> bool {
    forall|i: int, j: int|
        0 <= i < j < props.len() ==> key_view(#[trigger] props[i].key) != key_view(
            #[trigger] props[j].key,
        )
}

/// A heap cell is internally consistent with respect to the heap it sits in:
/// all the cell indices it holds are in bounds, a view's backing cell is a
/// buffer large enough for it while not detached, a pending promise has no
/// result yet and a settled one has exactly one, and a big integer of
/// magnitude zero is not negative.
pub open spec fn cell_ok(slots: Seq<JsData>, d: JsData) -> bool {
    match d {
        JsData::Obj { props, tag } => {
            &&& keys_unique(props@)
            &&& forall|i: int| 0 <= i < props@.len() ==> prop_ok(slots, #[trigger] props@[i])
        },
        JsData::Arr(elems) => {
            &&& elems@.len() <= 0xFFFF_FFFF
            &&& forall|i: int| 0 <= i < elems@.len() ==> (#[trigger] elems@[i]) < slots.len()
        },
        JsData::View { kind, buf, offset, count } => {
            &&& buf < slots.len()
            &&& match slots[buf as int] {
                JsData::Buf { bytes, detached } => !detached ==> offset + count * spec_elem_size(
                    kind,
                ) <= bytes@.len(),
                _ => false,
            }
        },
        JsData::Promise { state, result } => {
            &&& match result {
                Some(r) => r < slots.len(),
                None => true,
            }
            &&& (state == js_promise_state_t::js_promise_pending) <==> (result is None)
        },
        JsData::BigIntVal { neg, mag } => mag == 0 ==> !neg,
        _ => true,
    }
}

/// Appending a cell to the heap preserves the consistency of every cell that
/// was already consistent.
pub proof fn lemma_cell_ok_push(slots: Seq<JsData>, d: JsData, c: JsData)
    requires
        cell_ok(slots, d),
    ensures
        cell_ok(slots.push(c), d),
{
    let slots2 = slots.push(c);
    assert(forall|i: int| 0 <= i < slots.len() ==> slots2[i] == slots[i]);
}

/// Appending a consistent cell keeps the whole heap consistent.
pub proof fn lemma_cells_ok_push(slots: Seq<JsData>, c: JsData)
    requires
        forall|i: int| 0 <= i < slots.len() ==> cell_ok(slots, #[trigger] slots[i]),
        cell_ok(slots, c),
    ensures
        forall|i: int|
            0 <= i < slots.push(c).len() ==> cell_ok(slots.push(c), #[trigger] slots.push(c)[i]),
{
    let slots2 = slots.push(c);
    assert forall|i: int| 0 <= i < slots2.len() implies cell_ok(slots2, slots2[i]) by {
        if i < slots.len() {
            lemma_cell_ok_push(slots, slots[i], c);
        } else {
            assert(slots2[i] == c);
            lemma_cell_ok_push(slots, c, c);
        }
    }
}

/// A replacement cell is compatible with the buffer obligations of the cell
/// it overwrites: while any view could still rely on the old cell being an
/// attached buffer of a given size, the new cell is an attached buffer at
/// least as large; a detached replacement discharges the obligation.
pub open spec fn buf_compatible(old_cell: JsData, new_cell: JsData) -> bool {
    match old_cell {
        JsData::Buf { bytes: b1, detached: d1 } => match new_cell {
            JsData::Buf { bytes: b2, detached: d2 } => !d2 ==> (!d1 && b2@.len() >= b1@.len()),
            _ => false,
        },
        _ => true,
    }
}

/// Overwriting cell `t` with a consistent, buffer-compatible cell keeps the
/// whole heap consistent.
pub proof fn lemma_cells_ok_update(slots: Seq<JsData>, t: int, c: JsData)
    requires
        forall|i: int| 0 <= i < slots.len() ==> cell_ok(slots, #[trigger] slots[i]),
        0 <= t < slots.len(),
        cell_ok(slots.update(t, c), c),
        buf_compatible(slots[t], c),
    ensures
        forall|i: int|
            0 <= i < slots.update(t, c).len() ==> cell_ok(
                slots.update(t, c),
                #[trigger] slots.update(t, c)[i],
            ),
{
    let slots2 = slots.update(t, c);
    assert forall|i: int| 0 <= i < slots2.len() implies cell_ok(slots2, slots2[i]) by {
        if i != t {
            assert(slots2[i] == slots[i]);
            assert(cell_ok(slots, slots[i]));
            match slots[i] {
                JsData::View { kind, buf, offset, count } => {
                    if buf as int == t {
                        assert(buf_compatible(slots[t], c));
                    }
                },
                _ => {},
            }
        }
    }
}

/// Equality of property keys: names by their bytes, indices by value,
/// symbols by identity of their heap cell.
pub fn key_eq(a: &PropKey, b: &PropKey) -> (r: bool)
    ensures
        r == (key_view(*a) == key_view(*b)),
{
    match (a, b) {
        (PropKey::Name(x), PropKey::Name(y)) => {
            let r = bytes_eq(x, y);
            proof {
                if x@ == y@ {
                    assert(key_view(*a) == key_view(*b));
                }
            }
            r
        },
        (PropKey::Index(x), PropKey::Index(y)) => x == y,
        (PropKey::Sym(x), PropKey::Sym(y)) => x == y,
        _ => false,
    }
}

/// Byte-vector equality, stated over the views.
pub fn bytes_eq(a: &Vec<u8>, b: &Vec<u8>) -> (r: bool)
    ensures
        r == (a@ == b@),
{
    if a.len() != b.len() {
        return false;
    }
    let mut i: usize = 0;
    while i < a.len()
        invariant
            a@.len() == b@.len(),
            i <= a@.len(),
            forall|j: int| 0 <= j < i ==> a@[j] == b@[j],
        decreases a@.len() - i,
    {
        if a[i] != b[i] {
            return false;
        }
        i = i + 1;
    }
    proof {
        assert(a@ =~= b@);
    }
    true
}

} // verus!

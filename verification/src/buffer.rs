//! Array buffers and the typed views over them.
//!
//! A typed view aliases a buffer's bytes: it owns nothing, and every element
//! read or write is stated directly over the backing buffer's bytes, in
//! little-endian order. Construction checks that the view lies within the
//! buffer; using a view after its buffer was detached is excluded by
//! contract, as the engine documents but cannot enforce.

use vstd::prelude::*;

use crate::data::{cell_ok, elem_size, spec_elem_size, JsData, js_typedarray_type_t};
use crate::env::{Env, js_value_t};
use crate::value::Value;

verus! {

/// The bytes of a buffer cell.
pub open spec fn buf_bytes(d: JsData) -> Seq<u8>
    recommends
        d is Buf,
{
    match d {
        JsData::Buf { bytes, .. } => bytes@,
        _ => Seq::empty(),
    }
}

/// Whether a buffer cell has been detached.
pub open spec fn buf_detached(d: JsData) -> bool
    recommends
        d is Buf,
{
    match d {
        JsData::Buf { detached, .. } => detached,
        _ => true,
    }
}

/// The backing-buffer cell of a view.
pub open spec fn view_buf(d: JsData) -> int {
    match d {
        JsData::View { buf, .. } => buf as int,
        _ => 0,
    }
}

/// The byte offset of a view into its buffer.
pub open spec fn view_offset(d: JsData) -> int {
    match d {
        JsData::View { offset, .. } => offset as int,
        _ => 0,
    }
}

/// The element count of a view.
pub open spec fn view_count(d: JsData) -> int {
    match d {
        JsData::View { count, .. } => count as int,
        _ => 0,
    }
}

/// The element kind of a view.
pub open spec fn view_kind(d: JsData) -> js_typedarray_type_t {
    match d {
        JsData::View { kind, .. } => kind,
        _ => js_typedarray_type_t::js_uint8array,
    }
}

/// The little-endian 16-bit word at `off`.
pub open spec fn le16_of(b: Seq<u8>, off: int) -> int {
    b[off] + 0x100 * b[off + 1]
}

/// The little-endian 32-bit word at `off`.
pub open spec fn le32_of(b: Seq<u8>, off: int) -> int {
    b[off] + 0x100 * b[off + 1] + 0x1_0000 * b[off + 2] + 0x100_0000 * b[off + 3]
}

/// The little-endian 64-bit word at `off`.
pub open spec fn le64_of(b: Seq<u8>, off: int) -> int {
    b[off] + 0x100 * b[off + 1] + 0x1_0000 * b[off + 2] + 0x100_0000 * b[off + 3] + 0x1_0000_0000
        * b[off + 4] + 0x100_0000_0000 * b[off + 5] + 0x1_0000_0000_0000 * b[off + 6]
        + 0x100_0000_0000_0000 * b[off + 7]
}

/// The signed reading of an unsigned 8-bit word.
pub open spec fn signed8(m: int) -> int {
    if m >= 0x80 {
        m - 0x100
    } else {
        m
    }
}

/// The signed reading of an unsigned 16-bit word.
pub open spec fn signed16(m: int) -> int {
    if m >= 0x8000 {
        m - 0x1_0000
    } else {
        m
    }
}

/// The signed reading of an unsigned 32-bit word.
pub open spec fn signed32(m: int) -> int {
    if m >= 0x8000_0000 {
        m - 0x1_0000_0000
    } else {
        m
    }
}

/// The signed reading of an unsigned 64-bit word.
pub open spec fn signed64(m: int) -> int {
    if m >= 0x8000_0000_0000_0000 {
        m - 0x1_0000_0000_0000_0000
    } else {
        m
    }
}

/// An element of a view lies within the backing buffer's bytes.
proof fn lemma_elem_in_bounds(off: int, count: int, w: int, i: int, blen: int)
    requires
        0 <= i < count,
        1 <= w,
        0 <= off,
        off + count * w <= blen,
    ensures
        off + i * w + w <= blen,
        0 <= off + i * w,
{
    assert(off + i * w + w <= off + count * w && 0 <= i * w) by (nonlinear_arith)
        requires
            0 <= i < count,
            1 <= w,
    ;
}


/// The byte length of a buffer cell, as a machine word.
pub(crate) fn buf_len(env: &Env, buf: usize) -> (r: usize)
    requires
        env.wf(),
        buf < env.spec_slots().len(),
        env.spec_slots()[buf as int] is Buf,
    ensures
        r == buf_bytes(env.spec_slots()[buf as int]).len(),
{
    if let JsData::Buf { bytes, .. } = &env.slots[buf] {
        bytes.len()
    } else {
        vstd::pervasive::unreached()
    }
}

/// One byte of a buffer cell.
pub(crate) fn buf_byte(env: &Env, buf: usize, k: usize) -> (r: u8)
    requires
        env.wf(),
        buf < env.spec_slots().len(),
        env.spec_slots()[buf as int] is Buf,
        k < buf_bytes(env.spec_slots()[buf as int]).len(),
    ensures
        r == buf_bytes(env.spec_slots()[buf as int])[k as int],
{
    if let JsData::Buf { bytes, .. } = &env.slots[buf] {
        bytes[k]
    } else {
        vstd::pervasive::unreached()
    }
}

/// Overwrite one byte of an attached buffer cell; every other byte and every
/// other cell is untouched.
pub(crate) fn buf_write_byte(env: &mut Env, buf: usize, k: usize, b: u8)
    requires
        old(env).wf(),
        buf < old(env).spec_slots().len(),
        old(env).spec_slots()[buf as int] is Buf,
        !buf_detached(old(env).spec_slots()[buf as int]),
        k < buf_bytes(old(env).spec_slots()[buf as int]).len(),
    ensures
        final(env).wf(),
        Env::updates_slot(
            *old(env),
            *final(env),
            buf as int,
            JsData::Buf {
                bytes: final(env).spec_slots()[buf as int]->Buf_bytes,
                detached: false,
            },
        ),
        final(env).spec_slots()[buf as int] is Buf,
        !buf_detached(final(env).spec_slots()[buf as int]),
        buf_bytes(final(env).spec_slots()[buf as int]) == buf_bytes(
            old(env).spec_slots()[buf as int],
        ).update(k as int, b),
{
    let ghost old_slots = old(env).spec_slots();
    let mut cell = JsData::Undefined;
    let elem = &mut env.slots[buf];
    core::mem::swap(elem, &mut cell);
    let mut bytes = if let JsData::Buf { bytes, .. } = cell {
        bytes
    } else {
        vstd::pervasive::unreached()
    };
    bytes[k] = b;
    env.slots[buf] = JsData::Buf { bytes, detached: false };
    proof {
        let ti = buf as int;
        let new_cell = final(env).spec_slots()[ti];
        assert(final(env).spec_slots() =~= old_slots.update(ti, new_cell));
        assert(cell_ok(old_slots.update(ti, new_cell), new_cell));
        crate::data::lemma_cells_ok_update(old_slots, ti, new_cell);
        assert(old_slots[0] is Undefined);
    }
}


/// The little-endian 16-bit word at `p` in a buffer cell.
pub(crate) fn read16(env: &Env, buf: usize, p: usize) -> (r: u16)
    requires
        env.wf(),
        buf < env.spec_slots().len(),
        env.spec_slots()[buf as int] is Buf,
        p + 2 <= buf_bytes(env.spec_slots()[buf as int]).len(),
    ensures
        r == le16_of(buf_bytes(env.spec_slots()[buf as int]), p as int),
{
    let _blen = buf_len(env, buf);
    let b0 = buf_byte(env, buf, p);
    let b1 = buf_byte(env, buf, p + 1);
    (b0 as u16) + 0x100 * (b1 as u16)
}

/// The little-endian 32-bit word at `p` in a buffer cell.
pub(crate) fn read32(env: &Env, buf: usize, p: usize) -> (r: u32)
    requires
        env.wf(),
        buf < env.spec_slots().len(),
        env.spec_slots()[buf as int] is Buf,
        p + 4 <= buf_bytes(env.spec_slots()[buf as int]).len(),
    ensures
        r == le32_of(buf_bytes(env.spec_slots()[buf as int]), p as int),
{
    let _blen = buf_len(env, buf);
    let b0 = buf_byte(env, buf, p);
    let b1 = buf_byte(env, buf, p + 1);
    let b2 = buf_byte(env, buf, p + 2);
    let b3 = buf_byte(env, buf, p + 3);
    (b0 as u32) + 0x100 * (b1 as u32) + 0x1_0000 * (b2 as u32) + 0x100_0000 * (b3 as u32)
}

/// The little-endian 64-bit word at `p` in a buffer cell.
pub(crate) fn read64(env: &Env, buf: usize, p: usize) -> (r: u64)
    requires
        env.wf(),
        buf < env.spec_slots().len(),
        env.spec_slots()[buf as int] is Buf,
        p + 8 <= buf_bytes(env.spec_slots()[buf as int]).len(),
    ensures
        r == le64_of(buf_bytes(env.spec_slots()[buf as int]), p as int),
{
    let _blen = buf_len(env, buf);
    let b0 = buf_byte(env, buf, p);
    let b1 = buf_byte(env, buf, p + 1);
    let b2 = buf_byte(env, buf, p + 2);
    let b3 = buf_byte(env, buf, p + 3);
    let b4 = buf_byte(env, buf, p + 4);
    let b5 = buf_byte(env, buf, p + 5);
    let b6 = buf_byte(env, buf, p + 6);
    let b7 = buf_byte(env, buf, p + 7);
    (b0 as u64) + 0x100 * (b1 as u64) + 0x1_0000 * (b2 as u64) + 0x100_0000 * (b3 as u64)
        + 0x1_0000_0000 * (b4 as u64) + 0x100_0000_0000 * (b5 as u64) + 0x1_0000_0000_0000 * (
    b6 as u64) + 0x100_0000_0000_0000 * (b7 as u64)
}

/// The unchanged-elsewhere frame of a word write: the buffer keeps its
/// length, stays attached, and every byte outside `[p, p + w)` is untouched;
/// every other cell, handle, scope, reference and the pending exception are
/// untouched too.
pub open(crate) spec fn writes_word(pre: Env, post: Env, buf: int, p: int, w: int) -> bool {
    &&& post.spec_slots() == pre.spec_slots().update(buf, post.spec_slots()[buf])
    &&& post.spec_handles() == pre.spec_handles()
    &&& post.spec_scopes() == pre.spec_scopes()
    &&& post.spec_refs() == pre.spec_refs()
    &&& post.spec_pending() == pre.spec_pending()
    &&& post.spec_next_scope_id() == pre.spec_next_scope_id()
    &&& post.spec_slots()[buf] is Buf
    &&& !buf_detached(post.spec_slots()[buf])
    &&& buf_bytes(post.spec_slots()[buf]).len() == buf_bytes(pre.spec_slots()[buf]).len()
    &&& forall|k: int|
        0 <= k < buf_bytes(pre.spec_slots()[buf]).len() && !(p <= k < p + w) ==> buf_bytes(
            post.spec_slots()[buf],
        )[k] == buf_bytes(pre.spec_slots()[buf])[k]
}

/// Write `v` as a little-endian 16-bit word at `p`.
pub(crate) fn write16(env: &mut Env, buf: usize, p: usize, v: u16)
    requires
        old(env).wf(),
        buf < old(env).spec_slots().len(),
        old(env).spec_slots()[buf as int] is Buf,
        !buf_detached(old(env).spec_slots()[buf as int]),
        p + 2 <= buf_bytes(old(env).spec_slots()[buf as int]).len(),
    ensures
        final(env).wf(),
        writes_word(*old(env), *final(env), buf as int, p as int, 2),
        le16_of(buf_bytes(final(env).spec_slots()[buf as int]), p as int) == v,
{
    let _blen = buf_len(env, buf);
    let b0: u8 = (v % 0x100) as u8;
    let b1: u8 = (v / 0x100) as u8;
    buf_write_byte(env, buf, p, b0);
    buf_write_byte(env, buf, p + 1, b1);
    proof {
        vstd::arithmetic::div_mod::lemma_fundamental_div_mod(v as int, 0x100);
        assert(final(env).spec_slots() =~= old(env).spec_slots().update(
            buf as int,
            final(env).spec_slots()[buf as int],
        ));
    }
}

/// Write `v` as a little-endian 32-bit word at `p`.
pub(crate) fn write32(env: &mut Env, buf: usize, p: usize, v: u32)
    requires
        old(env).wf(),
        buf < old(env).spec_slots().len(),
        old(env).spec_slots()[buf as int] is Buf,
        !buf_detached(old(env).spec_slots()[buf as int]),
        p + 4 <= buf_bytes(old(env).spec_slots()[buf as int]).len(),
    ensures
        final(env).wf(),
        writes_word(*old(env), *final(env), buf as int, p as int, 4),
        le32_of(buf_bytes(final(env).spec_slots()[buf as int]), p as int) == v,
{
    let _blen = buf_len(env, buf);
    let b0: u8 = (v % 0x100) as u8;
    let b1: u8 = ((v / 0x100) % 0x100) as u8;
    let b2: u8 = ((v / 0x1_0000) % 0x100) as u8;
    let b3: u8 = (v / 0x100_0000) as u8;
    buf_write_byte(env, buf, p, b0);
    buf_write_byte(env, buf, p + 1, b1);
    buf_write_byte(env, buf, p + 2, b2);
    buf_write_byte(env, buf, p + 3, b3);
    proof {
        vstd::arithmetic::div_mod::lemma_fundamental_div_mod(v as int, 0x100_0000);
        vstd::arithmetic::div_mod::lemma_breakdown(v as int, 0x1_0000, 0x100);
        vstd::arithmetic::div_mod::lemma_breakdown(v as int, 0x100, 0x100);
        assert(final(env).spec_slots() =~= old(env).spec_slots().update(
            buf as int,
            final(env).spec_slots()[buf as int],
        ));
    }
}

/// Write `v` as a little-endian 64-bit word at `p`.
pub(crate) fn write64(env: &mut Env, buf: usize, p: usize, v: u64)
    requires
        old(env).wf(),
        buf < old(env).spec_slots().len(),
        old(env).spec_slots()[buf as int] is Buf,
        !buf_detached(old(env).spec_slots()[buf as int]),
        p + 8 <= buf_bytes(old(env).spec_slots()[buf as int]).len(),
    ensures
        final(env).wf(),
        writes_word(*old(env), *final(env), buf as int, p as int, 8),
        le64_of(buf_bytes(final(env).spec_slots()[buf as int]), p as int) == v,
{
    let _blen = buf_len(env, buf);
    let b0: u8 = (v % 0x100) as u8;
    let b1: u8 = ((v / 0x100) % 0x100) as u8;
    let b2: u8 = ((v / 0x1_0000) % 0x100) as u8;
    let b3: u8 = ((v / 0x100_0000) % 0x100) as u8;
    let b4: u8 = ((v / 0x1_0000_0000) % 0x100) as u8;
    let b5: u8 = ((v / 0x100_0000_0000) % 0x100) as u8;
    let b6: u8 = ((v / 0x1_0000_0000_0000) % 0x100) as u8;
    let b7: u8 = (v / 0x100_0000_0000_0000) as u8;
    buf_write_byte(env, buf, p, b0);
    buf_write_byte(env, buf, p + 1, b1);
    buf_write_byte(env, buf, p + 2, b2);
    buf_write_byte(env, buf, p + 3, b3);
    buf_write_byte(env, buf, p + 4, b4);
    buf_write_byte(env, buf, p + 5, b5);
    buf_write_byte(env, buf, p + 6, b6);
    buf_write_byte(env, buf, p + 7, b7);
    proof {
        vstd::arithmetic::div_mod::lemma_fundamental_div_mod(v as int, 0x100_0000_0000_0000);
        vstd::arithmetic::div_mod::lemma_breakdown(v as int, 0x1_0000_0000_0000, 0x100);
        vstd::arithmetic::div_mod::lemma_breakdown(v as int, 0x100_0000_0000, 0x100);
        vstd::arithmetic::div_mod::lemma_breakdown(v as int, 0x1_0000_0000, 0x100);
        vstd::arithmetic::div_mod::lemma_breakdown(v as int, 0x100_0000, 0x100);
        vstd::arithmetic::div_mod::lemma_breakdown(v as int, 0x1_0000, 0x100);
        vstd::arithmetic::div_mod::lemma_breakdown(v as int, 0x100, 0x100);
        assert(final(env).spec_slots() =~= old(env).spec_slots().update(
            buf as int,
            final(env).spec_slots()[buf as int],
        ));
    }
}

/// An array buffer: engine-owned raw bytes.
#[derive(Clone, Copy, Debug)]
pub struct ArrayBuffer(pub(crate) Value);

impl ArrayBuffer {
    pub open(crate) spec fn raw(self) -> js_value_t {
        self.0.raw
    }

    /// A fresh buffer of `len` zeroed bytes.
    pub fn new(env: &mut Env, len: usize) -> (r: Result<Self, Value>)
        requires
            old(env).wf(),
            old(env).has_open_scope(),
        ensures
            final(env).wf(),
            r is Ok,
            r matches Ok(b) ==> {
                &&& Env::creates(*old(env), *final(env), b.raw(), final(env).data_of(b.raw()))
                &&& final(env).valid(b.raw())
                &&& final(env).target_of(b.raw()) == old(env).spec_slots().len()
                &&& final(env).data_of(b.raw()) is Buf
                &&& !buf_detached(final(env).data_of(b.raw()))
                &&& buf_bytes(final(env).data_of(b.raw())).len() == len
                &&& forall|i: int| 0 <= i < len ==> buf_bytes(final(env).data_of(b.raw()))[i] == 0
            },
    {
        let mut bytes: Vec<u8> = Vec::new();
        let mut i: usize = 0;
        while i < len
            invariant
                i <= len,
                bytes@.len() == i,
                forall|j: int| 0 <= j < i ==> bytes@[j] == 0,
            decreases len - i,
        {
            bytes.push(0);
            i = i + 1;
        }
        let raw = env.alloc_cell(JsData::Buf { bytes, detached: false });
        Ok(ArrayBuffer(Value::from_raw(raw)))
    }

    /// The buffer's byte length; zero once detached.
    pub fn byte_length(&self, env: &Env) -> (r: usize)
        requires
            env.wf(),
            env.valid(self.raw()),
            env.data_of(self.raw()) is Buf,
        ensures
            r == buf_bytes(env.data_of(self.raw())).len(),
    {
        if let JsData::Buf { bytes, .. } = env.cell_of(self.0.raw) {
            bytes.len()
        } else {
            vstd::pervasive::unreached()
        }
    }

    /// The buffer's raw bytes, borrowed without a copy. The caller must not
    /// hold the slice across a detach; reading an already-detached buffer is
    /// excluded here.
    pub fn as_slice<'a>(&self, env: &'a Env) -> (r: &'a [u8])
        requires
            env.wf(),
            env.valid(self.raw()),
            env.data_of(self.raw()) is Buf,
            !buf_detached(env.data_of(self.raw())),
        ensures
            r@ == buf_bytes(env.data_of(self.raw())),
    {
        if let JsData::Buf { bytes, .. } = env.cell_of(self.0.raw) {
            bytes.as_slice()
        } else {
            vstd::pervasive::unreached()
        }
    }

    /// Overwrite one byte of the buffer's raw memory.
    pub fn write_byte(&self, env: &mut Env, offset: usize, byte: u8)
        requires
            old(env).wf(),
            old(env).valid(self.raw()),
            old(env).data_of(self.raw()) is Buf,
            !buf_detached(old(env).data_of(self.raw())),
            offset < buf_bytes(old(env).data_of(self.raw())).len(),
        ensures
            final(env).wf(),
            writes_word(*old(env), *final(env), old(env).target_of(self.raw()), offset as int, 1),
            final(env).valid(self.raw()),
            buf_bytes(final(env).data_of(self.raw())) == buf_bytes(
                old(env).data_of(self.raw()),
            ).update(offset as int, byte),
    {
        let t = env.target(self.0.raw);
        buf_write_byte(env, t, offset, byte);
        proof {
            assert(final(env).spec_slots() =~= old(env).spec_slots().update(
                t as int,
                final(env).spec_slots()[t as int],
            ));
            Env::lemma_valid_preserved(*old(env), *final(env), self.raw());
        }
    }

    /// Detach the buffer: its bytes are released and every view over it is
    /// dead. The views are not tracked; not using them afterwards is the
    /// caller's documented obligation, enforced here by contract.
    pub fn detach(&self, env: &mut Env)
        requires
            old(env).wf(),
            old(env).valid(self.raw()),
            old(env).data_of(self.raw()) is Buf,
        ensures
            final(env).wf(),
            Env::updates_slot(
                *old(env),
                *final(env),
                old(env).target_of(self.raw()),
                JsData::Buf { bytes: final(env).data_of(self.raw())->Buf_bytes, detached: true },
            ),
            final(env).valid(self.raw()),
            final(env).data_of(self.raw()) is Buf,
            buf_detached(final(env).data_of(self.raw())),
            buf_bytes(final(env).data_of(self.raw())).len() == 0,
    {
        let ghost old_slots = old(env).spec_slots();
        let t = env.target(self.0.raw);
        env.slots[t] = JsData::Buf { bytes: Vec::new(), detached: true };
        proof {
            let ti = t as int;
            let new_cell = final(env).spec_slots()[ti];
            assert(cell_ok(old_slots.update(ti, new_cell), new_cell));
            crate::data::lemma_cells_ok_update(old_slots, ti, new_cell);
            Env::lemma_valid_preserved(*old(env), *final(env), self.raw());
        }
    }

    /// Whether the buffer has been detached.
    pub fn is_detached(&self, env: &Env) -> (r: bool)
        requires
            env.wf(),
            env.valid(self.raw()),
            env.data_of(self.raw()) is Buf,
        ensures
            r == buf_detached(env.data_of(self.raw())),
    {
        if let JsData::Buf { detached, .. } = env.cell_of(self.0.raw) {
            *detached
        } else {
            vstd::pervasive::unreached()
        }
    }

    pub fn as_value(self) -> (r: Value)
        ensures
            r.raw() == self.raw(),
    {
        self.0
    }

    pub fn from_value(value: Value) -> (r: Self)
        ensures
            r.raw() == value.raw(),
    {
        ArrayBuffer(value)
    }

    /// The checked conversion: succeeds exactly on array-buffer values.
    pub fn try_from_value(env: &Env, value: Value) -> (r: Option<Self>)
        requires
            env.wf(),
            env.valid(value.raw()),
        ensures
            r is Some <==> env.data_of(value.raw()) is Buf,
            r matches Some(b) ==> b.raw() == value.raw(),
    {
        if value.is_arraybuffer(env) {
            Some(ArrayBuffer(value))
        } else {
            None
        }
    }
}


/// The backing buffer, byte offset and element count of a view, with the
/// in-bounds guarantee the heap invariant gives while the buffer is
/// attached.
pub(crate) fn view_parts(env: &Env, v: js_value_t) -> (r: (usize, usize, usize))
    requires
        env.wf(),
        env.valid(v),
        env.data_of(v) is View,
    ensures
        r.0 as int == view_buf(env.data_of(v)),
        r.1 as int == view_offset(env.data_of(v)),
        r.2 as int == view_count(env.data_of(v)),
        r.0 < env.spec_slots().len(),
        env.spec_slots()[r.0 as int] is Buf,
        !buf_detached(env.spec_slots()[r.0 as int]) ==> view_offset(env.data_of(v)) + view_count(
            env.data_of(v),
        ) * spec_elem_size(view_kind(env.data_of(v))) <= buf_bytes(
            env.spec_slots()[r.0 as int],
        ).len(),
{
    proof {
        assert(cell_ok(env.spec_slots(), env.data_of(v)));
    }
    if let JsData::View { buf, offset, count, .. } = env.cell_of(v) {
        (*buf, *offset, *count)
    } else {
        vstd::pervasive::unreached()
    }
}

/// Create a zeroed buffer of `len * elem_size(kind)` bytes and a view of
/// `len` elements of `kind` over the whole of it, handing back the view's
/// handle.
pub(crate) fn typedarray_new(env: &mut Env, kind: js_typedarray_type_t, len: usize) -> (r: js_value_t)
    requires
        old(env).wf(),
        old(env).has_open_scope(),
        len * spec_elem_size(kind) <= usize::MAX,
    ensures
        final(env).wf(),
        final(env).spec_scopes() == old(env).spec_scopes(),
        final(env).spec_refs() == old(env).spec_refs(),
        final(env).spec_pending() == old(env).spec_pending(),
        final(env).spec_next_scope_id() == old(env).spec_next_scope_id(),
        final(env).spec_slots().len() == old(env).spec_slots().len() + 2,
        forall|i: int|
            0 <= i < old(env).spec_slots().len() ==> final(env).spec_slots()[i] == old(
                env,
            ).spec_slots()[i],
        final(env).spec_handles().len() == old(env).spec_handles().len() + 2,
        forall|i: int|
            0 <= i < old(env).spec_handles().len() ==> final(env).spec_handles()[i] == old(
                env,
            ).spec_handles()[i],
        final(env).valid(r),
        final(env).data_of(r) == (JsData::View {
            kind,
            buf: old(env).spec_slots().len() as usize,
            offset: 0,
            count: len,
        }),
        final(env).spec_slots()[old(env).spec_slots().len() as int] is Buf,
        !buf_detached(final(env).spec_slots()[old(env).spec_slots().len() as int]),
        buf_bytes(final(env).spec_slots()[old(env).spec_slots().len() as int]).len() == len
            * spec_elem_size(kind),
        forall|i: int|
            0 <= i < len * spec_elem_size(kind) ==> buf_bytes(
                final(env).spec_slots()[old(env).spec_slots().len() as int],
            )[i] == 0,
        typedarray_created(*old(env), *final(env), r, kind, len),
{
    let es = elem_size(kind);
    let blen = len * es;
    let mut bytes: Vec<u8> = Vec::new();
    let mut i: usize = 0;
    while i < blen
        invariant
            i <= blen,
            bytes@.len() == i,
            forall|j: int| 0 <= j < i ==> bytes@[j] == 0,
        decreases blen - i,
    {
        bytes.push(0);
        i = i + 1;
    }
    let t = env.slots.len();
    let _braw = env.alloc_cell(JsData::Buf { bytes, detached: false });
    let vraw = env.alloc_cell(JsData::View { kind, buf: t, offset: 0, count: len });
    vraw
}


/// What constructing a typed view of `len` elements of `kind` leaves
/// behind: a fresh attached zeroed buffer and a valid view handle over the
/// whole of it.
pub open(crate) spec fn typedarray_created(
    pre: Env,
    post: Env,
    v: js_value_t,
    kind: js_typedarray_type_t,
    len: usize,
) -> bool {
    &&& post.valid(v)
    &&& post.data_of(v) == (JsData::View {
        kind,
        buf: pre.spec_slots().len() as usize,
        offset: 0,
        count: len,
    })
    &&& view_buf(post.data_of(v)) < post.spec_slots().len()
    &&& post.spec_slots()[view_buf(post.data_of(v))] is Buf
    &&& !buf_detached(post.spec_slots()[view_buf(post.data_of(v))])
    &&& buf_bytes(post.spec_slots()[view_buf(post.data_of(v))]).len() == len * spec_elem_size(kind)
    &&& forall|i: int|
        0 <= i < len * spec_elem_size(kind) ==> buf_bytes(
            post.spec_slots()[view_buf(post.data_of(v))],
        )[i] == 0
}

/// A typed view of unsigned 8-bit elements over an array buffer.
#[derive(Clone, Copy, Debug)]
pub struct Uint8Array(pub(crate) Value);

impl Uint8Array {
    pub open(crate) spec fn raw(self) -> js_value_t {
        self.0.raw
    }

    /// A fresh view of `len` elements over a fresh zeroed buffer.
    pub fn new(env: &mut Env, len: usize) -> (r: Result<Self, Value>)
        requires
            old(env).wf(),
            old(env).has_open_scope(),
            len * 1 <= usize::MAX,
        ensures
            final(env).wf(),
            r is Ok,
            r matches Ok(a) ==> typedarray_created(
                *old(env),
                *final(env),
                a.raw(),
                js_typedarray_type_t::js_uint8array,
                len,
            ),
    {
        let raw = typedarray_new(env, js_typedarray_type_t::js_uint8array, len);
        Ok(Uint8Array(Value::from_raw(raw)))
    }

    /// The element count.
    pub fn len(&self, env: &Env) -> (r: usize)
        requires
            env.wf(),
            env.valid(self.raw()),
            env.data_of(self.raw()) is View,
        ensures
            r == view_count(env.data_of(self.raw())),
    {
        let (_buf, _off, count) = view_parts(env, self.0.raw);
        count
    }

    /// The element at `index`, read from the backing buffer's bytes.
    pub fn get(&self, env: &Env, index: usize) -> (r: u8)
        requires
            env.wf(),
            env.valid(self.raw()),
            env.data_of(self.raw()) is View,
            view_kind(env.data_of(self.raw())) == js_typedarray_type_t::js_uint8array,
            index < view_count(env.data_of(self.raw())),
            !buf_detached(env.spec_slots()[view_buf(env.data_of(self.raw()))]),
        ensures
            r == buf_bytes(env.spec_slots()[view_buf(env.data_of(self.raw()))])[view_offset(env.data_of(self.raw())) + index],
    {
        let (buf, off, count) = view_parts(env, self.0.raw);
        let _blen = buf_len(env, buf);
        proof {
            lemma_elem_in_bounds(
                off as int,
                count as int,
                1,
                index as int,
                buf_bytes(env.spec_slots()[buf as int]).len() as int,
            );
        }
        buf_byte(env, buf, off + index)
    }

    /// Write the element at `index` into the backing buffer's bytes;
    /// every other byte of the buffer and every other cell is untouched.
    pub fn set(&self, env: &mut Env, index: usize, value: u8)
        requires
            old(env).wf(),
            old(env).valid(self.raw()),
            old(env).data_of(self.raw()) is View,
            view_kind(old(env).data_of(self.raw())) == js_typedarray_type_t::js_uint8array,
            index < view_count(old(env).data_of(self.raw())),
            !buf_detached(old(env).spec_slots()[view_buf(old(env).data_of(self.raw()))]),
        ensures
            final(env).wf(),
            writes_word(
                *old(env),
                *final(env),
                view_buf(old(env).data_of(self.raw())),
                view_offset(old(env).data_of(self.raw())) + 1 * index,
                1,
            ),
            final(env).valid(self.raw()),
            final(env).data_of(self.raw()) == old(env).data_of(self.raw()),
            buf_bytes(final(env).spec_slots()[view_buf(old(env).data_of(self.raw()))]) == buf_bytes(old(env).spec_slots()[view_buf(old(env).data_of(self.raw()))]).update(
                view_offset(old(env).data_of(self.raw())) + index,
                value,
            ),
    {
        let (buf, off, count) = view_parts(env, self.0.raw);
        let _blen = buf_len(env, buf);
        proof {
            lemma_elem_in_bounds(
                off as int,
                count as int,
                1,
                index as int,
                buf_bytes(env.spec_slots()[buf as int]).len() as int,
            );
            assert(old(env).spec_slots()[old(env).target_of(self.raw())] is View);
        }
        buf_write_byte(env, buf, off + index, value);
        proof {
            assert(final(env).spec_slots() =~= old(env).spec_slots().update(
                buf as int,
                final(env).spec_slots()[buf as int],
            ));
        }
        proof {
            Env::lemma_valid_preserved(*old(env), *final(env), self.raw());
        }
    }

    pub fn as_value(self) -> (r: Value)
        ensures
            r.raw() == self.raw(),
    {
        self.0
    }

    pub fn from_value(value: Value) -> (r: Self)
        ensures
            r.raw() == value.raw(),
    {
        Uint8Array(value)
    }

    /// A fresh handle to the backing array buffer.
    pub fn buffer(&self, env: &mut Env) -> (r: ArrayBuffer)
        requires
            old(env).wf(),
            old(env).has_open_scope(),
            old(env).valid(self.raw()),
            old(env).data_of(self.raw()) is View,
        ensures
            final(env).wf(),
            Env::aliases(*old(env), *final(env), r.raw(), view_buf(old(env).data_of(self.raw()))),
            final(env).valid(r.raw()),
            final(env).data_of(r.raw()) is Buf,
    {
        let (buf, _off, _count) = view_parts(env, self.0.raw);
        let raw = env.alias_cell(buf);
        ArrayBuffer(Value::from_raw(raw))
    }
}

/// A typed view of clamped unsigned 8-bit elements over an array buffer.
#[derive(Clone, Copy, Debug)]
pub struct Uint8ClampedArray(pub(crate) Value);

impl Uint8ClampedArray {
    pub open(crate) spec fn raw(self) -> js_value_t {
        self.0.raw
    }

    /// A fresh view of `len` elements over a fresh zeroed buffer.
    pub fn new(env: &mut Env, len: usize) -> (r: Result<Self, Value>)
        requires
            old(env).wf(),
            old(env).has_open_scope(),
            len * 1 <= usize::MAX,
        ensures
            final(env).wf(),
            r is Ok,
            r matches Ok(a) ==> typedarray_created(
                *old(env),
                *final(env),
                a.raw(),
                js_typedarray_type_t::js_uint8clampedarray,
                len,
            ),
    {
        let raw = typedarray_new(env, js_typedarray_type_t::js_uint8clampedarray, len);
        Ok(Uint8ClampedArray(Value::from_raw(raw)))
    }

    /// The element count.
    pub fn len(&self, env: &Env) -> (r: usize)
        requires
            env.wf(),
            env.valid(self.raw()),
            env.data_of(self.raw()) is View,
        ensures
            r == view_count(env.data_of(self.raw())),
    {
        let (_buf, _off, count) = view_parts(env, self.0.raw);
        count
    }

    /// The element at `index`, read from the backing buffer's bytes.
    pub fn get(&self, env: &Env, index: usize) -> (r: u8)
        requires
            env.wf(),
            env.valid(self.raw()),
            env.data_of(self.raw()) is View,
            view_kind(env.data_of(self.raw())) == js_typedarray_type_t::js_uint8clampedarray,
            index < view_count(env.data_of(self.raw())),
            !buf_detached(env.spec_slots()[view_buf(env.data_of(self.raw()))]),
        ensures
            r == buf_bytes(env.spec_slots()[view_buf(env.data_of(self.raw()))])[view_offset(env.data_of(self.raw())) + index],
    {
        let (buf, off, count) = view_parts(env, self.0.raw);
        let _blen = buf_len(env, buf);
        proof {
            lemma_elem_in_bounds(
                off as int,
                count as int,
                1,
                index as int,
                buf_bytes(env.spec_slots()[buf as int]).len() as int,
            );
        }
        buf_byte(env, buf, off + index)
    }

    /// Write the element at `index` into the backing buffer's bytes;
    /// every other byte of the buffer and every other cell is untouched.
    pub fn set(&self, env: &mut Env, index: usize, value: u8)
        requires
            old(env).wf(),
            old(env).valid(self.raw()),
            old(env).data_of(self.raw()) is View,
            view_kind(old(env).data_of(self.raw())) == js_typedarray_type_t::js_uint8clampedarray,
            index < view_count(old(env).data_of(self.raw())),
            !buf_detached(old(env).spec_slots()[view_buf(old(env).data_of(self.raw()))]),
        ensures
            final(env).wf(),
            writes_word(
                *old(env),
                *final(env),
                view_buf(old(env).data_of(self.raw())),
                view_offset(old(env).data_of(self.raw())) + 1 * index,
                1,
            ),
            final(env).valid(self.raw()),
            final(env).data_of(self.raw()) == old(env).data_of(self.raw()),
            buf_bytes(final(env).spec_slots()[view_buf(old(env).data_of(self.raw()))]) == buf_bytes(old(env).spec_slots()[view_buf(old(env).data_of(self.raw()))]).update(
                view_offset(old(env).data_of(self.raw())) + index,
                value,
            ),
    {
        let (buf, off, count) = view_parts(env, self.0.raw);
        let _blen = buf_len(env, buf);
        proof {
            lemma_elem_in_bounds(
                off as int,
                count as int,
                1,
                index as int,
                buf_bytes(env.spec_slots()[buf as int]).len() as int,
            );
            assert(old(env).spec_slots()[old(env).target_of(self.raw())] is View);
        }
        buf_write_byte(env, buf, off + index, value);
        proof {
            assert(final(env).spec_slots() =~= old(env).spec_slots().update(
                buf as int,
                final(env).spec_slots()[buf as int],
            ));
        }
        proof {
            Env::lemma_valid_preserved(*old(env), *final(env), self.raw());
        }
    }

    pub fn as_value(self) -> (r: Value)
        ensures
            r.raw() == self.raw(),
    {
        self.0
    }

    pub fn from_value(value: Value) -> (r: Self)
        ensures
            r.raw() == value.raw(),
    {
        Uint8ClampedArray(value)
    }

    /// A fresh handle to the backing array buffer.
    pub fn buffer(&self, env: &mut Env) -> (r: ArrayBuffer)
        requires
            old(env).wf(),
            old(env).has_open_scope(),
            old(env).valid(self.raw()),
            old(env).data_of(self.raw()) is View,
        ensures
            final(env).wf(),
            Env::aliases(*old(env), *final(env), r.raw(), view_buf(old(env).data_of(self.raw()))),
            final(env).valid(r.raw()),
            final(env).data_of(r.raw()) is Buf,
    {
        let (buf, _off, _count) = view_parts(env, self.0.raw);
        let raw = env.alias_cell(buf);
        ArrayBuffer(Value::from_raw(raw))
    }
}

/// A typed view of signed 8-bit elements over an array buffer.
#[derive(Clone, Copy, Debug)]
pub struct Int8Array(pub(crate) Value);

impl Int8Array {
    pub open(crate) spec fn raw(self) -> js_value_t {
        self.0.raw
    }

    /// A fresh view of `len` elements over a fresh zeroed buffer.
    pub fn new(env: &mut Env, len: usize) -> (r: Result<Self, Value>)
        requires
            old(env).wf(),
            old(env).has_open_scope(),
            len * 1 <= usize::MAX,
        ensures
            final(env).wf(),
            r is Ok,
            r matches Ok(a) ==> typedarray_created(
                *old(env),
                *final(env),
                a.raw(),
                js_typedarray_type_t::js_int8array,
                len,
            ),
    {
        let raw = typedarray_new(env, js_typedarray_type_t::js_int8array, len);
        Ok(Int8Array(Value::from_raw(raw)))
    }

    /// The element count.
    pub fn len(&self, env: &Env) -> (r: usize)
        requires
            env.wf(),
            env.valid(self.raw()),
            env.data_of(self.raw()) is View,
        ensures
            r == view_count(env.data_of(self.raw())),
    {
        let (_buf, _off, count) = view_parts(env, self.0.raw);
        count
    }

    /// The element at `index`, read from the backing buffer's bytes.
    pub fn get(&self, env: &Env, index: usize) -> (r: i8)
        requires
            env.wf(),
            env.valid(self.raw()),
            env.data_of(self.raw()) is View,
            view_kind(env.data_of(self.raw())) == js_typedarray_type_t::js_int8array,
            index < view_count(env.data_of(self.raw())),
            !buf_detached(env.spec_slots()[view_buf(env.data_of(self.raw()))]),
        ensures
            r as int == signed8(buf_bytes(env.spec_slots()[view_buf(env.data_of(self.raw()))])[view_offset(env.data_of(self.raw())) + index] as int),
    {
        let (buf, off, count) = view_parts(env, self.0.raw);
        let _blen = buf_len(env, buf);
        proof {
            lemma_elem_in_bounds(
                off as int,
                count as int,
                1,
                index as int,
                buf_bytes(env.spec_slots()[buf as int]).len() as int,
            );
        }
        let m = buf_byte(env, buf, off + index);
        if m >= 128 {
            ((m as i16) - 256) as i8
        } else {
            m as i8
        }
    }

    /// Write the element at `index` into the backing buffer's bytes;
    /// every other byte of the buffer and every other cell is untouched.
    pub fn set(&self, env: &mut Env, index: usize, value: i8)
        requires
            old(env).wf(),
            old(env).valid(self.raw()),
            old(env).data_of(self.raw()) is View,
            view_kind(old(env).data_of(self.raw())) == js_typedarray_type_t::js_int8array,
            index < view_count(old(env).data_of(self.raw())),
            !buf_detached(old(env).spec_slots()[view_buf(old(env).data_of(self.raw()))]),
        ensures
            final(env).wf(),
            writes_word(
                *old(env),
                *final(env),
                view_buf(old(env).data_of(self.raw())),
                view_offset(old(env).data_of(self.raw())) + 1 * index,
                1,
            ),
            final(env).valid(self.raw()),
            final(env).data_of(self.raw()) == old(env).data_of(self.raw()),
            signed8(buf_bytes(final(env).spec_slots()[view_buf(old(env).data_of(self.raw()))])[view_offset(old(env).data_of(self.raw())) + index] as int) == value as int,
    {
        let (buf, off, count) = view_parts(env, self.0.raw);
        let _blen = buf_len(env, buf);
        proof {
            lemma_elem_in_bounds(
                off as int,
                count as int,
                1,
                index as int,
                buf_bytes(env.spec_slots()[buf as int]).len() as int,
            );
            assert(old(env).spec_slots()[old(env).target_of(self.raw())] is View);
        }
        let m: u8 = if value >= 0 {
            value as u8
        } else {
            ((value as i16) + 256) as u8
        };
        buf_write_byte(env, buf, off + index, m);
        proof {
            assert(final(env).spec_slots() =~= old(env).spec_slots().update(
                buf as int,
                final(env).spec_slots()[buf as int],
            ));
        }
        proof {
            Env::lemma_valid_preserved(*old(env), *final(env), self.raw());
        }
    }

    pub fn as_value(self) -> (r: Value)
        ensures
            r.raw() == self.raw(),
    {
        self.0
    }

    pub fn from_value(value: Value) -> (r: Self)
        ensures
            r.raw() == value.raw(),
    {
        Int8Array(value)
    }

    /// A fresh handle to the backing array buffer.
    pub fn buffer(&self, env: &mut Env) -> (r: ArrayBuffer)
        requires
            old(env).wf(),
            old(env).has_open_scope(),
            old(env).valid(self.raw()),
            old(env).data_of(self.raw()) is View,
        ensures
            final(env).wf(),
            Env::aliases(*old(env), *final(env), r.raw(), view_buf(old(env).data_of(self.raw()))),
            final(env).valid(r.raw()),
            final(env).data_of(r.raw()) is Buf,
    {
        let (buf, _off, _count) = view_parts(env, self.0.raw);
        let raw = env.alias_cell(buf);
        ArrayBuffer(Value::from_raw(raw))
    }
}

/// A typed view of unsigned 16-bit elements over an array buffer.
#[derive(Clone, Copy, Debug)]
pub struct Uint16Array(pub(crate) Value);

impl Uint16Array {
    pub open(crate) spec fn raw(self) -> js_value_t {
        self.0.raw
    }

    /// A fresh view of `len` elements over a fresh zeroed buffer.
    pub fn new(env: &mut Env, len: usize) -> (r: Result<Self, Value>)
        requires
            old(env).wf(),
            old(env).has_open_scope(),
            len * 2 <= usize::MAX,
        ensures
            final(env).wf(),
            r is Ok,
            r matches Ok(a) ==> typedarray_created(
                *old(env),
                *final(env),
                a.raw(),
                js_typedarray_type_t::js_uint16array,
                len,
            ),
    {
        let raw = typedarray_new(env, js_typedarray_type_t::js_uint16array, len);
        Ok(Uint16Array(Value::from_raw(raw)))
    }

    /// The element count.
    pub fn len(&self, env: &Env) -> (r: usize)
        requires
            env.wf(),
            env.valid(self.raw()),
            env.data_of(self.raw()) is View,
        ensures
            r == view_count(env.data_of(self.raw())),
    {
        let (_buf, _off, count) = view_parts(env, self.0.raw);
        count
    }

    /// The element at `index`, read from the backing buffer's bytes in little-endian order.
    pub fn get(&self, env: &Env, index: usize) -> (r: u16)
        requires
            env.wf(),
            env.valid(self.raw()),
            env.data_of(self.raw()) is View,
            view_kind(env.data_of(self.raw())) == js_typedarray_type_t::js_uint16array,
            index < view_count(env.data_of(self.raw())),
            !buf_detached(env.spec_slots()[view_buf(env.data_of(self.raw()))]),
        ensures
            r == le16_of(buf_bytes(env.spec_slots()[view_buf(env.data_of(self.raw()))]), view_offset(env.data_of(self.raw())) + 2 * index),
    {
        let (buf, off, count) = view_parts(env, self.0.raw);
        let _blen = buf_len(env, buf);
        proof {
            lemma_elem_in_bounds(
                off as int,
                count as int,
                2,
                index as int,
                buf_bytes(env.spec_slots()[buf as int]).len() as int,
            );
        }
        read16(env, buf, off + index * 2)
    }

    /// Write the element at `index` into the backing buffer's bytes in little-endian order;
    /// every other byte of the buffer and every other cell is untouched.
    pub fn set(&self, env: &mut Env, index: usize, value: u16)
        requires
            old(env).wf(),
            old(env).valid(self.raw()),
            old(env).data_of(self.raw()) is View,
            view_kind(old(env).data_of(self.raw())) == js_typedarray_type_t::js_uint16array,
            index < view_count(old(env).data_of(self.raw())),
            !buf_detached(old(env).spec_slots()[view_buf(old(env).data_of(self.raw()))]),
        ensures
            final(env).wf(),
            writes_word(
                *old(env),
                *final(env),
                view_buf(old(env).data_of(self.raw())),
                view_offset(old(env).data_of(self.raw())) + 2 * index,
                2,
            ),
            final(env).valid(self.raw()),
            final(env).data_of(self.raw()) == old(env).data_of(self.raw()),
            le16_of(buf_bytes(final(env).spec_slots()[view_buf(old(env).data_of(self.raw()))]), view_offset(old(env).data_of(self.raw())) + 2 * index) == value,
    {
        let (buf, off, count) = view_parts(env, self.0.raw);
        let _blen = buf_len(env, buf);
        proof {
            lemma_elem_in_bounds(
                off as int,
                count as int,
                2,
                index as int,
                buf_bytes(env.spec_slots()[buf as int]).len() as int,
            );
            assert(old(env).spec_slots()[old(env).target_of(self.raw())] is View);
        }
        write16(env, buf, off + index * 2, value);
        proof {
            Env::lemma_valid_preserved(*old(env), *final(env), self.raw());
        }
    }

    pub fn as_value(self) -> (r: Value)
        ensures
            r.raw() == self.raw(),
    {
        self.0
    }

    pub fn from_value(value: Value) -> (r: Self)
        ensures
            r.raw() == value.raw(),
    {
        Uint16Array(value)
    }

    /// A fresh handle to the backing array buffer.
    pub fn buffer(&self, env: &mut Env) -> (r: ArrayBuffer)
        requires
            old(env).wf(),
            old(env).has_open_scope(),
            old(env).valid(self.raw()),
            old(env).data_of(self.raw()) is View,
        ensures
            final(env).wf(),
            Env::aliases(*old(env), *final(env), r.raw(), view_buf(old(env).data_of(self.raw()))),
            final(env).valid(r.raw()),
            final(env).data_of(r.raw()) is Buf,
    {
        let (buf, _off, _count) = view_parts(env, self.0.raw);
        let raw = env.alias_cell(buf);
        ArrayBuffer(Value::from_raw(raw))
    }
}

/// A typed view of unsigned 32-bit elements over an array buffer.
#[derive(Clone, Copy, Debug)]
pub struct Uint32Array(pub(crate) Value);

impl Uint32Array {
    pub open(crate) spec fn raw(self) -> js_value_t {
        self.0.raw
    }

    /// A fresh view of `len` elements over a fresh zeroed buffer.
    pub fn new(env: &mut Env, len: usize) -> (r: Result<Self, Value>)
        requires
            old(env).wf(),
            old(env).has_open_scope(),
            len * 4 <= usize::MAX,
        ensures
            final(env).wf(),
            r is Ok,
            r matches Ok(a) ==> typedarray_created(
                *old(env),
                *final(env),
                a.raw(),
                js_typedarray_type_t::js_uint32array,
                len,
            ),
    {
        let raw = typedarray_new(env, js_typedarray_type_t::js_uint32array, len);
        Ok(Uint32Array(Value::from_raw(raw)))
    }

    /// The element count.
    pub fn len(&self, env: &Env) -> (r: usize)
        requires
            env.wf(),
            env.valid(self.raw()),
            env.data_of(self.raw()) is View,
        ensures
            r == view_count(env.data_of(self.raw())),
    {
        let (_buf, _off, count) = view_parts(env, self.0.raw);
        count
    }

    /// The element at `index`, read from the backing buffer's bytes in little-endian order.
    pub fn get(&self, env: &Env, index: usize) -> (r: u32)
        requires
            env.wf(),
            env.valid(self.raw()),
            env.data_of(self.raw()) is View,
            view_kind(env.data_of(self.raw())) == js_typedarray_type_t::js_uint32array,
            index < view_count(env.data_of(self.raw())),
            !buf_detached(env.spec_slots()[view_buf(env.data_of(self.raw()))]),
        ensures
            r == le32_of(buf_bytes(env.spec_slots()[view_buf(env.data_of(self.raw()))]), view_offset(env.data_of(self.raw())) + 4 * index),
    {
        let (buf, off, count) = view_parts(env, self.0.raw);
        let _blen = buf_len(env, buf);
        proof {
            lemma_elem_in_bounds(
                off as int,
                count as int,
                4,
                index as int,
                buf_bytes(env.spec_slots()[buf as int]).len() as int,
            );
        }
        read32(env, buf, off + index * 4)
    }

    /// Write the element at `index` into the backing buffer's bytes in little-endian order;
    /// every other byte of the buffer and every other cell is untouched.
    pub fn set(&self, env: &mut Env, index: usize, value: u32)
        requires
            old(env).wf(),
            old(env).valid(self.raw()),
            old(env).data_of(self.raw()) is View,
            view_kind(old(env).data_of(self.raw())) == js_typedarray_type_t::js_uint32array,
            index < view_count(old(env).data_of(self.raw())),
            !buf_detached(old(env).spec_slots()[view_buf(old(env).data_of(self.raw()))]),
        ensures
            final(env).wf(),
            writes_word(
                *old(env),
                *final(env),
                view_buf(old(env).data_of(self.raw())),
                view_offset(old(env).data_of(self.raw())) + 4 * index,
                4,
            ),
            final(env).valid(self.raw()),
            final(env).data_of(self.raw()) == old(env).data_of(self.raw()),
            le32_of(buf_bytes(final(env).spec_slots()[view_buf(old(env).data_of(self.raw()))]), view_offset(old(env).data_of(self.raw())) + 4 * index) == value,
    {
        let (buf, off, count) = view_parts(env, self.0.raw);
        let _blen = buf_len(env, buf);
        proof {
            lemma_elem_in_bounds(
                off as int,
                count as int,
                4,
                index as int,
                buf_bytes(env.spec_slots()[buf as int]).len() as int,
            );
            assert(old(env).spec_slots()[old(env).target_of(self.raw())] is View);
        }
        write32(env, buf, off + index * 4, value);
        proof {
            Env::lemma_valid_preserved(*old(env), *final(env), self.raw());
        }
    }

    pub fn as_value(self) -> (r: Value)
        ensures
            r.raw() == self.raw(),
    {
        self.0
    }

    pub fn from_value(value: Value) -> (r: Self)
        ensures
            r.raw() == value.raw(),
    {
        Uint32Array(value)
    }

    /// A fresh handle to the backing array buffer.
    pub fn buffer(&self, env: &mut Env) -> (r: ArrayBuffer)
        requires
            old(env).wf(),
            old(env).has_open_scope(),
            old(env).valid(self.raw()),
            old(env).data_of(self.raw()) is View,
        ensures
            final(env).wf(),
            Env::aliases(*old(env), *final(env), r.raw(), view_buf(old(env).data_of(self.raw()))),
            final(env).valid(r.raw()),
            final(env).data_of(r.raw()) is Buf,
    {
        let (buf, _off, _count) = view_parts(env, self.0.raw);
        let raw = env.alias_cell(buf);
        ArrayBuffer(Value::from_raw(raw))
    }
}

/// A typed view of unsigned 64-bit big-integer elements over an array buffer.
#[derive(Clone, Copy, Debug)]
pub struct BigUint64Array(pub(crate) Value);

impl BigUint64Array {
    pub open(crate) spec fn raw(self) -> js_value_t {
        self.0.raw
    }

    /// A fresh view of `len` elements over a fresh zeroed buffer.
    pub fn new(env: &mut Env, len: usize) -> (r: Result<Self, Value>)
        requires
            old(env).wf(),
            old(env).has_open_scope(),
            len * 8 <= usize::MAX,
        ensures
            final(env).wf(),
            r is Ok,
            r matches Ok(a) ==> typedarray_created(
                *old(env),
                *final(env),
                a.raw(),
                js_typedarray_type_t::js_biguint64array,
                len,
            ),
    {
        let raw = typedarray_new(env, js_typedarray_type_t::js_biguint64array, len);
        Ok(BigUint64Array(Value::from_raw(raw)))
    }

    /// The element count.
    pub fn len(&self, env: &Env) -> (r: usize)
        requires
            env.wf(),
            env.valid(self.raw()),
            env.data_of(self.raw()) is View,
        ensures
            r == view_count(env.data_of(self.raw())),
    {
        let (_buf, _off, count) = view_parts(env, self.0.raw);
        count
    }

    /// The element at `index`, read from the backing buffer's bytes in little-endian order.
    pub fn get(&self, env: &Env, index: usize) -> (r: u64)
        requires
            env.wf(),
            env.valid(self.raw()),
            env.data_of(self.raw()) is View,
            view_kind(env.data_of(self.raw())) == js_typedarray_type_t::js_biguint64array,
            index < view_count(env.data_of(self.raw())),
            !buf_detached(env.spec_slots()[view_buf(env.data_of(self.raw()))]),
        ensures
            r == le64_of(buf_bytes(env.spec_slots()[view_buf(env.data_of(self.raw()))]), view_offset(env.data_of(self.raw())) + 8 * index),
    {
        let (buf, off, count) = view_parts(env, self.0.raw);
        let _blen = buf_len(env, buf);
        proof {
            lemma_elem_in_bounds(
                off as int,
                count as int,
                8,
                index as int,
                buf_bytes(env.spec_slots()[buf as int]).len() as int,
            );
        }
        read64(env, buf, off + index * 8)
    }

    /// Write the element at `index` into the backing buffer's bytes in little-endian order;
    /// every other byte of the buffer and every other cell is untouched.
    pub fn set(&self, env: &mut Env, index: usize, value: u64)
        requires
            old(env).wf(),
            old(env).valid(self.raw()),
            old(env).data_of(self.raw()) is View,
            view_kind(old(env).data_of(self.raw())) == js_typedarray_type_t::js_biguint64array,
            index < view_count(old(env).data_of(self.raw())),
            !buf_detached(old(env).spec_slots()[view_buf(old(env).data_of(self.raw()))]),
        ensures
            final(env).wf(),
            writes_word(
                *old(env),
                *final(env),
                view_buf(old(env).data_of(self.raw())),
                view_offset(old(env).data_of(self.raw())) + 8 * index,
                8,
            ),
            final(env).valid(self.raw()),
            final(env).data_of(self.raw()) == old(env).data_of(self.raw()),
            le64_of(buf_bytes(final(env).spec_slots()[view_buf(old(env).data_of(self.raw()))]), view_offset(old(env).data_of(self.raw())) + 8 * index) == value,
    {
        let (buf, off, count) = view_parts(env, self.0.raw);
        let _blen = buf_len(env, buf);
        proof {
            lemma_elem_in_bounds(
                off as int,
                count as int,
                8,
                index as int,
                buf_bytes(env.spec_slots()[buf as int]).len() as int,
            );
            assert(old(env).spec_slots()[old(env).target_of(self.raw())] is View);
        }
        write64(env, buf, off + index * 8, value);
        proof {
            Env::lemma_valid_preserved(*old(env), *final(env), self.raw());
        }
    }

    pub fn as_value(self) -> (r: Value)
        ensures
            r.raw() == self.raw(),
    {
        self.0
    }

    pub fn from_value(value: Value) -> (r: Self)
        ensures
            r.raw() == value.raw(),
    {
        BigUint64Array(value)
    }

    /// A fresh handle to the backing array buffer.
    pub fn buffer(&self, env: &mut Env) -> (r: ArrayBuffer)
        requires
            old(env).wf(),
            old(env).has_open_scope(),
            old(env).valid(self.raw()),
            old(env).data_of(self.raw()) is View,
        ensures
            final(env).wf(),
            Env::aliases(*old(env), *final(env), r.raw(), view_buf(old(env).data_of(self.raw()))),
            final(env).valid(r.raw()),
            final(env).data_of(r.raw()) is Buf,
    {
        let (buf, _off, _count) = view_parts(env, self.0.raw);
        let raw = env.alias_cell(buf);
        ArrayBuffer(Value::from_raw(raw))
    }
}

/// A typed view of signed 16-bit elements over an array buffer.
#[derive(Clone, Copy, Debug)]
pub struct Int16Array(pub(crate) Value);

impl Int16Array {
    pub open(crate) spec fn raw(self) -> js_value_t {
        self.0.raw
    }

    /// A fresh view of `len` elements over a fresh zeroed buffer.
    pub fn new(env: &mut Env, len: usize) -> (r: Result<Self, Value>)
        requires
            old(env).wf(),
            old(env).has_open_scope(),
            len * 2 <= usize::MAX,
        ensures
            final(env).wf(),
            r is Ok,
            r matches Ok(a) ==> typedarray_created(
                *old(env),
                *final(env),
                a.raw(),
                js_typedarray_type_t::js_int16array,
                len,
            ),
    {
        let raw = typedarray_new(env, js_typedarray_type_t::js_int16array, len);
        Ok(Int16Array(Value::from_raw(raw)))
    }

    /// The element count.
    pub fn len(&self, env: &Env) -> (r: usize)
        requires
            env.wf(),
            env.valid(self.raw()),
            env.data_of(self.raw()) is View,
        ensures
            r == view_count(env.data_of(self.raw())),
    {
        let (_buf, _off, count) = view_parts(env, self.0.raw);
        count
    }

    /// The element at `index`, read from the backing buffer's bytes in little-endian order.
    pub fn get(&self, env: &Env, index: usize) -> (r: i16)
        requires
            env.wf(),
            env.valid(self.raw()),
            env.data_of(self.raw()) is View,
            view_kind(env.data_of(self.raw())) == js_typedarray_type_t::js_int16array,
            index < view_count(env.data_of(self.raw())),
            !buf_detached(env.spec_slots()[view_buf(env.data_of(self.raw()))]),
        ensures
            r as int == signed16(le16_of(buf_bytes(env.spec_slots()[view_buf(env.data_of(self.raw()))]), view_offset(env.data_of(self.raw())) + 2 * index)),
    {
        let (buf, off, count) = view_parts(env, self.0.raw);
        let _blen = buf_len(env, buf);
        proof {
            lemma_elem_in_bounds(
                off as int,
                count as int,
                2,
                index as int,
                buf_bytes(env.spec_slots()[buf as int]).len() as int,
            );
        }
        let m = read16(env, buf, off + index * 2);
        if m >= 32768 {
            ((m as i32) - 65536) as i16
        } else {
            m as i16
        }
    }

    /// Write the element at `index` into the backing buffer's bytes in little-endian order;
    /// every other byte of the buffer and every other cell is untouched.
    pub fn set(&self, env: &mut Env, index: usize, value: i16)
        requires
            old(env).wf(),
            old(env).valid(self.raw()),
            old(env).data_of(self.raw()) is View,
            view_kind(old(env).data_of(self.raw())) == js_typedarray_type_t::js_int16array,
            index < view_count(old(env).data_of(self.raw())),
            !buf_detached(old(env).spec_slots()[view_buf(old(env).data_of(self.raw()))]),
        ensures
            final(env).wf(),
            writes_word(
                *old(env),
                *final(env),
                view_buf(old(env).data_of(self.raw())),
                view_offset(old(env).data_of(self.raw())) + 2 * index,
                2,
            ),
            final(env).valid(self.raw()),
            final(env).data_of(self.raw()) == old(env).data_of(self.raw()),
            signed16(le16_of(buf_bytes(final(env).spec_slots()[view_buf(old(env).data_of(self.raw()))]), view_offset(old(env).data_of(self.raw())) + 2 * index)) == value as int,
    {
        let (buf, off, count) = view_parts(env, self.0.raw);
        let _blen = buf_len(env, buf);
        proof {
            lemma_elem_in_bounds(
                off as int,
                count as int,
                2,
                index as int,
                buf_bytes(env.spec_slots()[buf as int]).len() as int,
            );
            assert(old(env).spec_slots()[old(env).target_of(self.raw())] is View);
        }
        let m: u16 = if value >= 0 {
            value as u16
        } else {
            ((value as i32) + 65536) as u16
        };
        write16(env, buf, off + index * 2, m);
        proof {
            Env::lemma_valid_preserved(*old(env), *final(env), self.raw());
        }
    }

    pub fn as_value(self) -> (r: Value)
        ensures
            r.raw() == self.raw(),
    {
        self.0
    }

    pub fn from_value(value: Value) -> (r: Self)
        ensures
            r.raw() == value.raw(),
    {
        Int16Array(value)
    }

    /// A fresh handle to the backing array buffer.
    pub fn buffer(&self, env: &mut Env) -> (r: ArrayBuffer)
        requires
            old(env).wf(),
            old(env).has_open_scope(),
            old(env).valid(self.raw()),
            old(env).data_of(self.raw()) is View,
        ensures
            final(env).wf(),
            Env::aliases(*old(env), *final(env), r.raw(), view_buf(old(env).data_of(self.raw()))),
            final(env).valid(r.raw()),
            final(env).data_of(r.raw()) is Buf,
    {
        let (buf, _off, _count) = view_parts(env, self.0.raw);
        let raw = env.alias_cell(buf);
        ArrayBuffer(Value::from_raw(raw))
    }
}

/// A typed view of signed 32-bit elements over an array buffer.
#[derive(Clone, Copy, Debug)]
pub struct Int32Array(pub(crate) Value);

impl Int32Array {
    pub open(crate) spec fn raw(self) -> js_value_t {
        self.0.raw
    }

    /// A fresh view of `len` elements over a fresh zeroed buffer.
    pub fn new(env: &mut Env, len: usize) -> (r: Result<Self, Value>)
        requires
            old(env).wf(),
            old(env).has_open_scope(),
            len * 4 <= usize::MAX,
        ensures
            final(env).wf(),
            r is Ok,
            r matches Ok(a) ==> typedarray_created(
                *old(env),
                *final(env),
                a.raw(),
                js_typedarray_type_t::js_int32array,
                len,
            ),
    {
        let raw = typedarray_new(env, js_typedarray_type_t::js_int32array, len);
        Ok(Int32Array(Value::from_raw(raw)))
    }

    /// The element count.
    pub fn len(&self, env: &Env) -> (r: usize)
        requires
            env.wf(),
            env.valid(self.raw()),
            env.data_of(self.raw()) is View,
        ensures
            r == view_count(env.data_of(self.raw())),
    {
        let (_buf, _off, count) = view_parts(env, self.0.raw);
        count
    }

    /// The element at `index`, read from the backing buffer's bytes in little-endian order.
    pub fn get(&self, env: &Env, index: usize) -> (r: i32)
        requires
            env.wf(),
            env.valid(self.raw()),
            env.data_of(self.raw()) is View,
            view_kind(env.data_of(self.raw())) == js_typedarray_type_t::js_int32array,
            index < view_count(env.data_of(self.raw())),
            !buf_detached(env.spec_slots()[view_buf(env.data_of(self.raw()))]),
        ensures
            r as int == signed32(le32_of(buf_bytes(env.spec_slots()[view_buf(env.data_of(self.raw()))]), view_offset(env.data_of(self.raw())) + 4 * index)),
    {
        let (buf, off, count) = view_parts(env, self.0.raw);
        let _blen = buf_len(env, buf);
        proof {
            lemma_elem_in_bounds(
                off as int,
                count as int,
                4,
                index as int,
                buf_bytes(env.spec_slots()[buf as int]).len() as int,
            );
        }
        let m = read32(env, buf, off + index * 4);
        if m >= 2147483648 {
            ((m as i64) - 4294967296) as i32
        } else {
            m as i32
        }
    }

    /// Write the element at `index` into the backing buffer's bytes in little-endian order;
    /// every other byte of the buffer and every other cell is untouched.
    pub fn set(&self, env: &mut Env, index: usize, value: i32)
        requires
            old(env).wf(),
            old(env).valid(self.raw()),
            old(env).data_of(self.raw()) is View,
            view_kind(old(env).data_of(self.raw())) == js_typedarray_type_t::js_int32array,
            index < view_count(old(env).data_of(self.raw())),
            !buf_detached(old(env).spec_slots()[view_buf(old(env).data_of(self.raw()))]),
        ensures
            final(env).wf(),
            writes_word(
                *old(env),
                *final(env),
                view_buf(old(env).data_of(self.raw())),
                view_offset(old(env).data_of(self.raw())) + 4 * index,
                4,
            ),
            final(env).valid(self.raw()),
            final(env).data_of(self.raw()) == old(env).data_of(self.raw()),
            signed32(le32_of(buf_bytes(final(env).spec_slots()[view_buf(old(env).data_of(self.raw()))]), view_offset(old(env).data_of(self.raw())) + 4 * index)) == value as int,
    {
        let (buf, off, count) = view_parts(env, self.0.raw);
        let _blen = buf_len(env, buf);
        proof {
            lemma_elem_in_bounds(
                off as int,
                count as int,
                4,
                index as int,
                buf_bytes(env.spec_slots()[buf as int]).len() as int,
            );
            assert(old(env).spec_slots()[old(env).target_of(self.raw())] is View);
        }
        let m: u32 = if value >= 0 {
            value as u32
        } else {
            ((value as i64) + 4294967296) as u32
        };
        write32(env, buf, off + index * 4, m);
        proof {
            Env::lemma_valid_preserved(*old(env), *final(env), self.raw());
        }
    }

    pub fn as_value(self) -> (r: Value)
        ensures
            r.raw() == self.raw(),
    {
        self.0
    }

    pub fn from_value(value: Value) -> (r: Self)
        ensures
            r.raw() == value.raw(),
    {
        Int32Array(value)
    }

    /// A fresh handle to the backing array buffer.
    pub fn buffer(&self, env: &mut Env) -> (r: ArrayBuffer)
        requires
            old(env).wf(),
            old(env).has_open_scope(),
            old(env).valid(self.raw()),
            old(env).data_of(self.raw()) is View,
        ensures
            final(env).wf(),
            Env::aliases(*old(env), *final(env), r.raw(), view_buf(old(env).data_of(self.raw()))),
            final(env).valid(r.raw()),
            final(env).data_of(r.raw()) is Buf,
    {
        let (buf, _off, _count) = view_parts(env, self.0.raw);
        let raw = env.alias_cell(buf);
        ArrayBuffer(Value::from_raw(raw))
    }
}

/// A typed view of signed 64-bit big-integer elements over an array buffer.
#[derive(Clone, Copy, Debug)]
pub struct BigInt64Array(pub(crate) Value);

impl BigInt64Array {
    pub open(crate) spec fn raw(self) -> js_value_t {
        self.0.raw
    }

    /// A fresh view of `len` elements over a fresh zeroed buffer.
    pub fn new(env: &mut Env, len: usize) -> (r: Result<Self, Value>)
        requires
            old(env).wf(),
            old(env).has_open_scope(),
            len * 8 <= usize::MAX,
        ensures
            final(env).wf(),
            r is Ok,
            r matches Ok(a) ==> typedarray_created(
                *old(env),
                *final(env),
                a.raw(),
                js_typedarray_type_t::js_bigint64array,
                len,
            ),
    {
        let raw = typedarray_new(env, js_typedarray_type_t::js_bigint64array, len);
        Ok(BigInt64Array(Value::from_raw(raw)))
    }

    /// The element count.
    pub fn len(&self, env: &Env) -> (r: usize)
        requires
            env.wf(),
            env.valid(self.raw()),
            env.data_of(self.raw()) is View,
        ensures
            r == view_count(env.data_of(self.raw())),
    {
        let (_buf, _off, count) = view_parts(env, self.0.raw);
        count
    }

    /// The element at `index`, read from the backing buffer's bytes in little-endian order.
    pub fn get(&self, env: &Env, index: usize) -> (r: i64)
        requires
            env.wf(),
            env.valid(self.raw()),
            env.data_of(self.raw()) is View,
            view_kind(env.data_of(self.raw())) == js_typedarray_type_t::js_bigint64array,
            index < view_count(env.data_of(self.raw())),
            !buf_detached(env.spec_slots()[view_buf(env.data_of(self.raw()))]),
        ensures
            r as int == signed64(le64_of(buf_bytes(env.spec_slots()[view_buf(env.data_of(self.raw()))]), view_offset(env.data_of(self.raw())) + 8 * index)),
    {
        let (buf, off, count) = view_parts(env, self.0.raw);
        let _blen = buf_len(env, buf);
        proof {
            lemma_elem_in_bounds(
                off as int,
                count as int,
                8,
                index as int,
                buf_bytes(env.spec_slots()[buf as int]).len() as int,
            );
        }
        let m = read64(env, buf, off + index * 8);
        if m >= 9223372036854775808 {
            (((m - 9223372036854775808) as i64) - 9223372036854775807) - 1
        } else {
            m as i64
        }
    }

    /// Write the element at `index` into the backing buffer's bytes in little-endian order;
    /// every other byte of the buffer and every other cell is untouched.
    pub fn set(&self, env: &mut Env, index: usize, value: i64)
        requires
            old(env).wf(),
            old(env).valid(self.raw()),
            old(env).data_of(self.raw()) is View,
            view_kind(old(env).data_of(self.raw())) == js_typedarray_type_t::js_bigint64array,
            index < view_count(old(env).data_of(self.raw())),
            !buf_detached(old(env).spec_slots()[view_buf(old(env).data_of(self.raw()))]),
        ensures
            final(env).wf(),
            writes_word(
                *old(env),
                *final(env),
                view_buf(old(env).data_of(self.raw())),
                view_offset(old(env).data_of(self.raw())) + 8 * index,
                8,
            ),
            final(env).valid(self.raw()),
            final(env).data_of(self.raw()) == old(env).data_of(self.raw()),
            signed64(le64_of(buf_bytes(final(env).spec_slots()[view_buf(old(env).data_of(self.raw()))]), view_offset(old(env).data_of(self.raw())) + 8 * index)) == value as int,
    {
        let (buf, off, count) = view_parts(env, self.0.raw);
        let _blen = buf_len(env, buf);
        proof {
            lemma_elem_in_bounds(
                off as int,
                count as int,
                8,
                index as int,
                buf_bytes(env.spec_slots()[buf as int]).len() as int,
            );
            assert(old(env).spec_slots()[old(env).target_of(self.raw())] is View);
        }
        let m: u64 = if value >= 0 {
            value as u64
        } else {
            18446744073709551615 - ((-(value + 1)) as u64)
        };
        write64(env, buf, off + index * 8, m);
        proof {
            Env::lemma_valid_preserved(*old(env), *final(env), self.raw());
        }
    }

    pub fn as_value(self) -> (r: Value)
        ensures
            r.raw() == self.raw(),
    {
        self.0
    }

    pub fn from_value(value: Value) -> (r: Self)
        ensures
            r.raw() == value.raw(),
    {
        BigInt64Array(value)
    }

    /// A fresh handle to the backing array buffer.
    pub fn buffer(&self, env: &mut Env) -> (r: ArrayBuffer)
        requires
            old(env).wf(),
            old(env).has_open_scope(),
            old(env).valid(self.raw()),
            old(env).data_of(self.raw()) is View,
        ensures
            final(env).wf(),
            Env::aliases(*old(env), *final(env), r.raw(), view_buf(old(env).data_of(self.raw()))),
            final(env).valid(r.raw()),
            final(env).data_of(r.raw()) is Buf,
    {
        let (buf, _off, _count) = view_parts(env, self.0.raw);
        let raw = env.alias_cell(buf);
        ArrayBuffer(Value::from_raw(raw))
    }
}

} // verus!

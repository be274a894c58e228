//! Objects with their own-property maps, and arrays.
//!
//! An object's properties form a map from keys (names, indices, symbols) to
//! value cells, stored with unique keys. Every structural operation states
//! its effect on that map: what the touched key maps to afterwards, and that
//! every other key is untouched.

use vstd::prelude::*;

use vstd::string::StringSliceAdditionalSpecFns;

use crate::data::{
    cell_ok, key_eq, key_view, keys_unique, prop_ok, JsData, KeyView, Prop, PropKey,
    js_type_tag_t,
};
use crate::env::{Env, js_value_t};
use crate::string::{bytes_of_slice, Name};
use crate::value::Value;

verus! {

/// Whether some property of `props` has key `k`.
pub open spec fn has_key(props: Seq<Prop>, k: KeyView) -> bool {
    exists|i: int| 0 <= i < props.len() && key_view(props[i].key) == k
}

/// The position of the property with key `k`, where one exists.
pub open spec fn key_slot(props: Seq<Prop>, k: KeyView) -> int {
    choose|i: int| 0 <= i < props.len() && key_view(props[i].key) == k
}

/// The value cell a key maps to, if any.
pub open spec fn lookup(props: Seq<Prop>, k: KeyView) -> Option<usize> {
    if has_key(props, k) {
        Some(props[key_slot(props, k)].val)
    } else {
        None
    }
}

/// The property map of an object cell.
pub open spec fn props_of(d: JsData) -> Seq<Prop>
    recommends
        d is Obj,
{
    match d {
        JsData::Obj { props, .. } => props@,
        _ => Seq::empty(),
    }
}

/// The type tag of an object cell.
pub open spec fn tag_of(d: JsData) -> Option<js_type_tag_t>
    recommends
        d is Obj,
{
    match d {
        JsData::Obj { tag, .. } => tag,
        _ => None,
    }
}

/// The element cells of an array cell.
pub open spec fn elems_of(d: JsData) -> Seq<usize>
    recommends
        d is Arr,
{
    match d {
        JsData::Arr(elems) => elems@,
        _ => Seq::empty(),
    }
}

/// The key a string-or-symbol value denotes when used as a property name:
/// strings key by their bytes, symbols by their identity.
pub open spec fn name_key(env: Env, v: js_value_t) -> KeyView {
    match env.data_of(v) {
        JsData::Str(b) => KeyView::Name(b@),
        _ => KeyView::Sym(env.target_of(v)),
    }
}

/// With unique keys, two positions holding the same key are the same
/// position.
proof fn lemma_unique_witness(props: Seq<Prop>, a: int, b: int)
    requires
        keys_unique(props),
        0 <= a < props.len(),
        0 <= b < props.len(),
        key_view(props[a].key) == key_view(props[b].key),
    ensures
        a == b,
{
    if a < b {
        assert(key_view(props[a].key) != key_view(props[b].key));
    } else if b < a {
        assert(key_view(props[b].key) != key_view(props[a].key));
    }
}

/// Overwriting the property at `i` with one that carries the same key makes
/// that key map to the new value and leaves every other key untouched.
proof fn lemma_lookup_update(p1: Seq<Prop>, i: int, p: Prop)
    requires
        keys_unique(p1),
        0 <= i < p1.len(),
        key_view(p1[i].key) == key_view(p.key),
    ensures
        keys_unique(p1.update(i, p)),
        lookup(p1.update(i, p), key_view(p.key)) == Some(p.val),
        forall|k2: KeyView|
            k2 != key_view(p.key) ==> lookup(p1.update(i, p), k2) == lookup(p1, k2),
{
    let p2 = p1.update(i, p);
    assert(forall|x: int|
        0 <= x < p1.len() ==> key_view(#[trigger] p2[x].key) == key_view(p1[x].key));
    assert forall|a: int, b: int| 0 <= a < b < p2.len() implies key_view(#[trigger] p2[a].key)
        != key_view(#[trigger] p2[b].key) by {
        assert(key_view(p1[a].key) != key_view(p1[b].key));
    }
    let kp = key_view(p.key);
    assert(key_view(p2[i].key) == kp);
    assert(has_key(p2, kp));
    let j = key_slot(p2, kp);
    lemma_unique_witness(p2, j, i);
    assert(lookup(p2, kp) == Some(p.val));
    assert forall|k2: KeyView| k2 != kp implies lookup(p2, k2) == lookup(p1, k2) by {
        if has_key(p2, k2) {
            let a = key_slot(p2, k2);
            assert(key_view(p1[a].key) == k2);
            assert(has_key(p1, k2));
            let b = key_slot(p1, k2);
            lemma_unique_witness(p1, a, b);
            assert(a != i);
            assert(p2[a].val == p1[b].val);
        } else if has_key(p1, k2) {
            let b = key_slot(p1, k2);
            assert(key_view(p2[b].key) == k2);
            assert(has_key(p2, k2));
        }
    }
}

/// Appending a property whose key is absent makes that key map to its value
/// and leaves every other key untouched.
proof fn lemma_lookup_push(p1: Seq<Prop>, p: Prop)
    requires
        keys_unique(p1),
        !has_key(p1, key_view(p.key)),
    ensures
        keys_unique(p1.push(p)),
        lookup(p1.push(p), key_view(p.key)) == Some(p.val),
        forall|k2: KeyView| k2 != key_view(p.key) ==> lookup(p1.push(p), k2) == lookup(p1, k2),
{
    let p2 = p1.push(p);
    let kp = key_view(p.key);
    let n = p1.len() as int;
    assert(forall|x: int| 0 <= x < n ==> #[trigger] p2[x] == p1[x]);
    assert(p2[n] == p);
    assert forall|a: int, b: int| 0 <= a < b < p2.len() implies key_view(#[trigger] p2[a].key)
        != key_view(#[trigger] p2[b].key) by {
        if b < n {
            assert(key_view(p1[a].key) != key_view(p1[b].key));
        } else {
            assert(key_view(p2[a].key) == key_view(p1[a].key));
            if key_view(p1[a].key) == kp {
                assert(has_key(p1, kp));
            }
        }
    }
    assert(has_key(p2, kp));
    let j = key_slot(p2, kp);
    lemma_unique_witness(p2, j, n);
    assert forall|k2: KeyView| k2 != kp implies lookup(p2, k2) == lookup(p1, k2) by {
        if has_key(p2, k2) {
            let a = key_slot(p2, k2);
            assert(a != n);
            assert(key_view(p1[a].key) == k2);
            assert(has_key(p1, k2));
            let b = key_slot(p1, k2);
            lemma_unique_witness(p1, a, b);
        } else if has_key(p1, k2) {
            let b = key_slot(p1, k2);
            assert(key_view(p2[b].key) == k2);
            assert(has_key(p2, k2));
        }
    }
}

/// Removing the property at `i` erases its key and leaves every other key
/// untouched.
proof fn lemma_lookup_remove(p1: Seq<Prop>, i: int)
    requires
        keys_unique(p1),
        0 <= i < p1.len(),
    ensures
        keys_unique(p1.remove(i)),
        !has_key(p1.remove(i), key_view(p1[i].key)),
        forall|k2: KeyView|
            k2 != key_view(p1[i].key) ==> lookup(p1.remove(i), k2) == lookup(p1, k2),
{
    let p2 = p1.remove(i);
    let ki = key_view(p1[i].key);
    let back = |x: int| if x < i { x } else { x + 1 };
    assert(forall|x: int| 0 <= x < p2.len() ==> #[trigger] p2[x] == p1[back(x)]);
    assert forall|a: int, b: int| 0 <= a < b < p2.len() implies key_view(#[trigger] p2[a].key)
        != key_view(#[trigger] p2[b].key) by {
        assert(p2[a] == p1[back(a)]);
        assert(p2[b] == p1[back(b)]);
        assert(back(a) < back(b));
        assert(key_view(p1[back(a)].key) != key_view(p1[back(b)].key));
    }
    assert forall|x: int| 0 <= x < p2.len() implies key_view(#[trigger] p2[x].key) != ki by {
        assert(p2[x] == p1[back(x)]);
        assert(back(x) != i);
        if key_view(p1[back(x)].key) == ki {
            lemma_unique_witness(p1, back(x), i);
        }
    }
    assert forall|k2: KeyView| k2 != ki implies lookup(p2, k2) == lookup(p1, k2) by {
        if has_key(p2, k2) {
            let a = key_slot(p2, k2);
            assert(p2[a] == p1[back(a)]);
            assert(key_view(p1[back(a)].key) == k2);
            assert(has_key(p1, k2));
            let b = key_slot(p1, k2);
            lemma_unique_witness(p1, back(a), b);
        } else if has_key(p1, k2) {
            let b = key_slot(p1, k2);
            assert(b != i);
            if b < i {
                assert(p2[b] == p1[b]);
                assert(has_key(p2, k2));
            } else {
                assert(p2[b - 1] == p1[b]);
                assert(has_key(p2, k2));
            }
        }
    }
}

/// Linear search for a key among an object's properties. With unique keys
/// the found position carries exactly what `lookup` denotes.
fn find_prop(props: &Vec<Prop>, key: &PropKey) -> (r: Option<usize>)
    requires
        keys_unique(props@),
    ensures
        match r {
            Some(i) => {
                &&& i < props@.len()
                &&& key_view(props@[i as int].key) == key_view(*key)
                &&& lookup(props@, key_view(*key)) == Some(props@[i as int].val)
            },
            None => {
                &&& !has_key(props@, key_view(*key))
                &&& lookup(props@, key_view(*key)) is None
            },
        },
{
    let n = props.len();
    let mut i: usize = 0;
    while i < n
        invariant
            keys_unique(props@),
            n == props@.len(),
            i <= n,
            forall|j: int| 0 <= j < i ==> key_view(#[trigger] props@[j].key) != key_view(*key),
        decreases n - i,
    {
        if key_eq(&props[i].key, key) {
            proof {
                assert(has_key(props@, key_view(*key)));
                let j = key_slot(props@, key_view(*key));
                lemma_unique_witness(props@, j, i as int);
            }
            return Some(i);
        }
        i = i + 1;
    }
    None
}

/// The property key a `Name` denotes, together with its spec-level view.
fn key_of_name(env: &Env, name: &Name) -> (r: PropKey)
    requires
        env.wf(),
        env.valid(name.raw()),
        env.data_of(name.raw()) is Str || env.data_of(name.raw()) is Sym,
    ensures
        key_view(r) == name_key(*env, name.raw()),
        match r {
            PropKey::Sym(s) => s < env.spec_slots().len(),
            _ => true,
        },
{
    match env.cell_of(name.0.raw) {
        JsData::Str(b) => PropKey::Name(bytes_of_slice(b.as_slice())),
        JsData::Sym(_) => PropKey::Sym(env.target(name.0.raw)),
        _ => vstd::pervasive::unreached(),
    }
}

/// Read the property map of an object cell.
fn props_ref<'a>(env: &'a Env, obj: js_value_t) -> (r: &'a Vec<Prop>)
    requires
        env.wf(),
        env.valid(obj),
        env.data_of(obj) is Obj,
    ensures
        r@ == props_of(env.data_of(obj)),
        keys_unique(r@),
        forall|i: int| 0 <= i < r@.len() ==> prop_ok(env.spec_slots(), #[trigger] r@[i]),
{
    proof {
        assert(cell_ok(env.spec_slots(), env.data_of(obj)));
    }
    if let JsData::Obj { props, .. } = env.cell_of(obj) {
        props
    } else {
        vstd::pervasive::unreached()
    }
}

/// Hand out a handle to what `key` maps to on `obj`: the mapped cell, or
/// undefined where the key is absent.
pub(crate) fn obj_get(env: &mut Env, obj: js_value_t, key: &PropKey) -> (r: js_value_t)
    requires
        old(env).wf(),
        old(env).has_open_scope(),
        old(env).valid(obj),
        old(env).data_of(obj) is Obj,
    ensures
        final(env).wf(),
        Env::aliases(
            *old(env),
            *final(env),
            r,
            match lookup(props_of(old(env).data_of(obj)), key_view(*key)) {
                Some(t) => t as int,
                None => 0,
            },
        ),
        final(env).valid(r),
{
    let found = find_prop(props_ref(env, obj), key);
    match found {
        Some(i) => {
            let t = if let JsData::Obj { props, .. } = env.cell_of(obj) {
                props[i].val
            } else {
                vstd::pervasive::unreached()
            };
            env.alias_cell(t)
        },
        None => env.alias_cell(0),
    }
}

/// Whether `key` is present on `obj`.
pub(crate) fn obj_has(env: &Env, obj: js_value_t, key: &PropKey) -> (r: bool)
    requires
        env.wf(),
        env.valid(obj),
        env.data_of(obj) is Obj,
    ensures
        r == has_key(props_of(env.data_of(obj)), key_view(*key)),
{
    let found = find_prop(props_ref(env, obj), key);
    found.is_some()
}

/// Make `key` map to `value` on `obj`, replacing any prior mapping and
/// touching no other key.
pub(crate) fn obj_set(env: &mut Env, obj: js_value_t, key: PropKey, value: js_value_t)
    requires
        old(env).wf(),
        old(env).valid(obj),
        old(env).valid(value),
        old(env).data_of(obj) is Obj,
        match key {
            PropKey::Sym(s) => s < old(env).spec_slots().len(),
            _ => true,
        },
    ensures
        final(env).wf(),
        Env::updates_slot(
            *old(env),
            *final(env),
            old(env).target_of(obj),
            final(env).spec_slots()[old(env).target_of(obj)],
        ),
        final(env).valid(obj),
        final(env).data_of(obj) is Obj,
        tag_of(final(env).data_of(obj)) == tag_of(old(env).data_of(obj)),
        lookup(props_of(final(env).data_of(obj)), key_view(key)) == Some(
            old(env).target_of(value) as usize,
        ),
        forall|k2: KeyView|
            k2 != key_view(key) ==> lookup(props_of(final(env).data_of(obj)), k2) == lookup(
                props_of(old(env).data_of(obj)),
                k2,
            ),
{
    let ghost kv = key_view(key);
    let ghost old_slots = old(env).spec_slots();
    let ghost old_props = props_of(old(env).data_of(obj));
    let t = env.target(obj);
    let vt = env.target(value);
    let found = find_prop(props_ref(env, obj), &key);
    proof {
        assert(cell_ok(old_slots, old(env).data_of(obj)));
    }
    let mut cell = JsData::Undefined;
    let elem = &mut env.slots[t];
    core::mem::swap(elem, &mut cell);
    let (mut props, tag) = if let JsData::Obj { props, tag } = cell {
        (props, tag)
    } else {
        vstd::pervasive::unreached()
    };
    proof {
        assert(props@ == old_props);
    }
    match found {
        Some(i) => {
            props[i] = Prop { key, val: vt };
            proof {
                lemma_lookup_update(old_props, i as int, props@[i as int]);
            }
        },
        None => {
            props.push(Prop { key, val: vt });
            proof {
                lemma_lookup_push(old_props, props@[props@.len() - 1]);
            }
        },
    }
    let ghost new_props = props@;
    env.slots[t] = JsData::Obj { props, tag };
    proof {
        let ti = t as int;
        let new_cell = final(env).spec_slots()[ti];
        assert(final(env).spec_slots() =~= old_slots.update(ti, new_cell));
        assert(props_of(new_cell) == new_props);
        assert forall|i: int| 0 <= i < new_props.len() implies prop_ok(
            old_slots.update(ti, new_cell),
            #[trigger] new_props[i],
        ) by {
            if match found {
                Some(f) => i == f as int,
                None => i == new_props.len() - 1,
            } {
            } else {
                assert(new_props[i] == old_props[i]);
                assert(prop_ok(old_slots, old_props[i]));
            }
        }
        assert(cell_ok(old_slots.update(ti, new_cell), new_cell));
        crate::data::lemma_cells_ok_update(old_slots, ti, new_cell);
        assert(old_slots[ti] is Obj);
        assert(final(env).spec_slots()[0] == JsData::Undefined);
        assert(final(env).spec_slots()[1] == JsData::Null);
        assert(final(env).spec_slots()[2] == JsData::Boolean(false));
        assert(final(env).spec_slots()[3] == JsData::Boolean(true));
        let ow = old(env).owner_of(obj);
        let w = choose|w: int|
            0 <= w < old(env).spec_scopes().len() && old(env).spec_scopes()[w].id == ow;
        assert(final(env).spec_scopes()[w].id == ow);
        assert(final(env).scope_open(ow));
    }
}

/// Remove `key` from `obj` if present; afterwards the key maps to nothing
/// and every other key is untouched. Returns true, as the engine does for
/// every configurable property.
pub(crate) fn obj_delete(env: &mut Env, obj: js_value_t, key: &PropKey) -> (r: bool)
    requires
        old(env).wf(),
        old(env).valid(obj),
        old(env).data_of(obj) is Obj,
    ensures
        final(env).wf(),
        r == true,
        Env::updates_slot(
            *old(env),
            *final(env),
            old(env).target_of(obj),
            final(env).spec_slots()[old(env).target_of(obj)],
        ),
        final(env).valid(obj),
        final(env).data_of(obj) is Obj,
        tag_of(final(env).data_of(obj)) == tag_of(old(env).data_of(obj)),
        lookup(props_of(final(env).data_of(obj)), key_view(*key)) is None,
        forall|k2: KeyView|
            k2 != key_view(*key) ==> lookup(props_of(final(env).data_of(obj)), k2) == lookup(
                props_of(old(env).data_of(obj)),
                k2,
            ),
{
    let ghost old_slots = old(env).spec_slots();
    let ghost old_props = props_of(old(env).data_of(obj));
    let t = env.target(obj);
    let found = find_prop(props_ref(env, obj), key);
    proof {
        assert(cell_ok(old_slots, old(env).data_of(obj)));
    }
    let mut cell = JsData::Undefined;
    let elem = &mut env.slots[t];
    core::mem::swap(elem, &mut cell);
    let (mut props, tag) = if let JsData::Obj { props, tag } = cell {
        (props, tag)
    } else {
        vstd::pervasive::unreached()
    };
    proof {
        assert(props@ == old_props);
    }
    match found {
        Some(i) => {
            let _removed = props.remove(i);
            proof {
                lemma_lookup_remove(old_props, i as int);
            }
        },
        None => {},
    }
    let ghost new_props = props@;
    env.slots[t] = JsData::Obj { props, tag };
    proof {
        let ti = t as int;
        let new_cell = final(env).spec_slots()[ti];
        assert(final(env).spec_slots() =~= old_slots.update(ti, new_cell));
        assert(props_of(new_cell) == new_props);
        assert forall|i: int| 0 <= i < new_props.len() implies prop_ok(
            old_slots.update(ti, new_cell),
            #[trigger] new_props[i],
        ) by {
            match found {
                Some(f) => {
                    if i < f as int {
                        assert(new_props[i] == old_props[i]);
                    } else {
                        assert(new_props[i] == old_props[i + 1]);
                    }
                },
                None => {
                    assert(new_props[i] == old_props[i]);
                },
            }
        }
        assert(cell_ok(old_slots.update(ti, new_cell), new_cell));
        crate::data::lemma_cells_ok_update(old_slots, ti, new_cell);
        assert(old_slots[ti] is Obj);
        assert(final(env).spec_slots()[0] == JsData::Undefined);
        assert(final(env).spec_slots()[1] == JsData::Null);
        assert(final(env).spec_slots()[2] == JsData::Boolean(false));
        assert(final(env).spec_slots()[3] == JsData::Boolean(true));
        let ow = old(env).owner_of(obj);
        let w = choose|w: int|
            0 <= w < old(env).spec_scopes().len() && old(env).spec_scopes()[w].id == ow;
        assert(final(env).spec_scopes()[w].id == ow);
        assert(final(env).scope_open(ow));
    }
    true
}


/// An object value.
#[derive(Clone, Copy, Debug)]
pub struct Object(pub(crate) Value);

impl Object {
    pub open(crate) spec fn raw(self) -> js_value_t {
        self.0.raw
    }

    /// A fresh object with no properties and no type tag. The modelled
    /// engine never fails here, so the result is always the object.
    pub fn new(env: &mut Env) -> (r: Result<Self, Value>)
        requires
            old(env).wf(),
            old(env).has_open_scope(),
        ensures
            final(env).wf(),
            r is Ok,
            r matches Ok(o) ==> {
                &&& Env::creates(*old(env), *final(env), o.raw(), final(env).data_of(o.raw()))
                &&& final(env).valid(o.raw())
                &&& final(env).target_of(o.raw()) == old(env).spec_slots().len()
                &&& final(env).data_of(o.raw()) is Obj
                &&& props_of(final(env).data_of(o.raw())) == Seq::<Prop>::empty()
                &&& tag_of(final(env).data_of(o.raw())) is None
            },
    {
        let props: Vec<Prop> = Vec::new();
        let raw = env.alloc_cell(JsData::Obj { props, tag: None });
        Ok(Object(Value::from_raw(raw)))
    }

    /// The value `name` maps to, or undefined where it maps to nothing.
    pub fn get_property(&self, env: &mut Env, name: &Name) -> (r: Result<Value, Value>)
        requires
            old(env).wf(),
            old(env).has_open_scope(),
            old(env).valid(self.raw()),
            old(env).data_of(self.raw()) is Obj,
            old(env).valid(name.raw()),
            old(env).data_of(name.raw()) is Str || old(env).data_of(name.raw()) is Sym,
        ensures
            final(env).wf(),
            r is Ok,
            r matches Ok(v) ==> {
                &&& Env::aliases(
                    *old(env),
                    *final(env),
                    v.raw(),
                    match lookup(
                        props_of(old(env).data_of(self.raw())),
                        name_key(*old(env), name.raw()),
                    ) {
                        Some(t) => t as int,
                        None => 0,
                    },
                )
                &&& final(env).valid(v.raw())
            },
    {
        let key = key_of_name(env, name);
        let raw = obj_get(env, self.0.raw, &key);
        Ok(Value::from_raw(raw))
    }

    /// The value the UTF-8 name maps to, or undefined where it maps to
    /// nothing.
    pub fn get_named_property(&self, env: &mut Env, name: &str) -> (r: Result<Value, Value>)
        requires
            old(env).wf(),
            old(env).has_open_scope(),
            old(env).valid(self.raw()),
            old(env).data_of(self.raw()) is Obj,
        ensures
            final(env).wf(),
            r is Ok,
            r matches Ok(v) ==> {
                &&& Env::aliases(
                    *old(env),
                    *final(env),
                    v.raw(),
                    match lookup(
                        props_of(old(env).data_of(self.raw())),
                        KeyView::Name(name.spec_bytes()),
                    ) {
                        Some(t) => t as int,
                        None => 0,
                    },
                )
                &&& final(env).valid(v.raw())
            },
    {
        let key = PropKey::Name(bytes_of_slice(name.as_bytes()));
        let raw = obj_get(env, self.0.raw, &key);
        Ok(Value::from_raw(raw))
    }

    /// The value the indexed key maps to, or undefined where it maps to
    /// nothing.
    pub fn get_element(&self, env: &mut Env, index: u32) -> (r: Result<Value, Value>)
        requires
            old(env).wf(),
            old(env).has_open_scope(),
            old(env).valid(self.raw()),
            old(env).data_of(self.raw()) is Obj,
        ensures
            final(env).wf(),
            r is Ok,
            r matches Ok(v) ==> {
                &&& Env::aliases(
                    *old(env),
                    *final(env),
                    v.raw(),
                    match lookup(props_of(old(env).data_of(self.raw())), KeyView::Index(index)) {
                        Some(t) => t as int,
                        None => 0,
                    },
                )
                &&& final(env).valid(v.raw())
            },
    {
        let key = PropKey::Index(index);
        let raw = obj_get(env, self.0.raw, &key);
        Ok(Value::from_raw(raw))
    }

    /// Whether `name` maps to a value. The modelled object has no prototype
    /// chain, so this coincides with [`Object::has_own_property`].
    pub fn has_property(&self, env: &Env, name: &Name) -> (r: Result<bool, Value>)
        requires
            env.wf(),
            env.valid(self.raw()),
            env.data_of(self.raw()) is Obj,
            env.valid(name.raw()),
            env.data_of(name.raw()) is Str || env.data_of(name.raw()) is Sym,
        ensures
            r is Ok,
            r matches Ok(b) ==> b == has_key(
                props_of(env.data_of(self.raw())),
                name_key(*env, name.raw()),
            ),
    {
        let key = key_of_name(env, name);
        Ok(obj_has(env, self.0.raw, &key))
    }

    /// Whether `name` maps to a value among the object's own properties.
    pub fn has_own_property(&self, env: &Env, name: &Name) -> (r: Result<bool, Value>)
        requires
            env.wf(),
            env.valid(self.raw()),
            env.data_of(self.raw()) is Obj,
            env.valid(name.raw()),
            env.data_of(name.raw()) is Str || env.data_of(name.raw()) is Sym,
        ensures
            r is Ok,
            r matches Ok(b) ==> b == has_key(
                props_of(env.data_of(self.raw())),
                name_key(*env, name.raw()),
            ),
    {
        let key = key_of_name(env, name);
        Ok(obj_has(env, self.0.raw, &key))
    }

    /// Whether the UTF-8 name maps to a value.
    pub fn has_named_property(&self, env: &Env, name: &str) -> (r: Result<bool, Value>)
        requires
            env.wf(),
            env.valid(self.raw()),
            env.data_of(self.raw()) is Obj,
        ensures
            r is Ok,
            r matches Ok(b) ==> b == has_key(
                props_of(env.data_of(self.raw())),
                KeyView::Name(name.spec_bytes()),
            ),
    {
        let key = PropKey::Name(bytes_of_slice(name.as_bytes()));
        Ok(obj_has(env, self.0.raw, &key))
    }

    /// Whether the indexed key maps to a value.
    pub fn has_element(&self, env: &Env, index: u32) -> (r: Result<bool, Value>)
        requires
            env.wf(),
            env.valid(self.raw()),
            env.data_of(self.raw()) is Obj,
        ensures
            r is Ok,
            r matches Ok(b) ==> b == has_key(
                props_of(env.data_of(self.raw())),
                KeyView::Index(index),
            ),
    {
        let key = PropKey::Index(index);
        Ok(obj_has(env, self.0.raw, &key))
    }

    /// Make `name` map to `value`, replacing any prior mapping and touching
    /// no other key.
    pub fn set_property(&self, env: &mut Env, name: &Name, value: Value) -> (r: Result<(), Value>)
        requires
            old(env).wf(),
            old(env).valid(self.raw()),
            old(env).data_of(self.raw()) is Obj,
            old(env).valid(name.raw()),
            old(env).data_of(name.raw()) is Str || old(env).data_of(name.raw()) is Sym,
            old(env).valid(value.raw()),
        ensures
            final(env).wf(),
            r is Ok,
            Env::updates_slot(
                *old(env),
                *final(env),
                old(env).target_of(self.raw()),
                final(env).spec_slots()[old(env).target_of(self.raw())],
            ),
            final(env).valid(self.raw()),
            final(env).data_of(self.raw()) is Obj,
            tag_of(final(env).data_of(self.raw())) == tag_of(old(env).data_of(self.raw())),
            lookup(
                props_of(final(env).data_of(self.raw())),
                name_key(*old(env), name.raw()),
            ) == Some(old(env).target_of(value.raw()) as usize),
            forall|k2: KeyView|
                k2 != name_key(*old(env), name.raw()) ==> lookup(
                    props_of(final(env).data_of(self.raw())),
                    k2,
                ) == lookup(props_of(old(env).data_of(self.raw())), k2),
    {
        let key = key_of_name(env, name);
        obj_set(env, self.0.raw, key, value.raw);
        Ok(())
    }

    /// Make the UTF-8 name map to `value`, replacing any prior mapping and
    /// touching no other key.
    pub fn set_named_property(&self, env: &mut Env, name: &str, value: Value) -> (r: Result<
        (),
        Value,
    >)
        requires
            old(env).wf(),
            old(env).valid(self.raw()),
            old(env).data_of(self.raw()) is Obj,
            old(env).valid(value.raw()),
        ensures
            final(env).wf(),
            r is Ok,
            Env::updates_slot(
                *old(env),
                *final(env),
                old(env).target_of(self.raw()),
                final(env).spec_slots()[old(env).target_of(self.raw())],
            ),
            final(env).valid(self.raw()),
            final(env).data_of(self.raw()) is Obj,
            tag_of(final(env).data_of(self.raw())) == tag_of(old(env).data_of(self.raw())),
            lookup(
                props_of(final(env).data_of(self.raw())),
                KeyView::Name(name.spec_bytes()),
            ) == Some(old(env).target_of(value.raw()) as usize),
            forall|k2: KeyView|
                k2 != KeyView::Name(name.spec_bytes()) ==> lookup(
                    props_of(final(env).data_of(self.raw())),
                    k2,
                ) == lookup(props_of(old(env).data_of(self.raw())), k2),
    {
        let key = PropKey::Name(bytes_of_slice(name.as_bytes()));
        obj_set(env, self.0.raw, key, value.raw);
        Ok(())
    }

    /// Make the indexed key map to `value`, replacing any prior mapping and
    /// touching no other key.
    pub fn set_element(&self, env: &mut Env, index: u32, value: Value) -> (r: Result<(), Value>)
        requires
            old(env).wf(),
            old(env).valid(self.raw()),
            old(env).data_of(self.raw()) is Obj,
            old(env).valid(value.raw()),
        ensures
            final(env).wf(),
            r is Ok,
            Env::updates_slot(
                *old(env),
                *final(env),
                old(env).target_of(self.raw()),
                final(env).spec_slots()[old(env).target_of(self.raw())],
            ),
            final(env).valid(self.raw()),
            final(env).data_of(self.raw()) is Obj,
            tag_of(final(env).data_of(self.raw())) == tag_of(old(env).data_of(self.raw())),
            lookup(props_of(final(env).data_of(self.raw())), KeyView::Index(index)) == Some(
                old(env).target_of(value.raw()) as usize,
            ),
            forall|k2: KeyView|
                k2 != KeyView::Index(index) ==> lookup(
                    props_of(final(env).data_of(self.raw())),
                    k2,
                ) == lookup(props_of(old(env).data_of(self.raw())), k2),
    {
        let key = PropKey::Index(index);
        obj_set(env, self.0.raw, key, value.raw);
        Ok(())
    }

    /// Remove the mapping of `name`, if any; afterwards the key maps to
    /// nothing and every other key is untouched.
    pub fn delete_property(&self, env: &mut Env, name: &Name) -> (r: Result<bool, Value>)
        requires
            old(env).wf(),
            old(env).valid(self.raw()),
            old(env).data_of(self.raw()) is Obj,
            old(env).valid(name.raw()),
            old(env).data_of(name.raw()) is Str || old(env).data_of(name.raw()) is Sym,
        ensures
            final(env).wf(),
            r is Ok,
            r matches Ok(b) ==> b,
            Env::updates_slot(
                *old(env),
                *final(env),
                old(env).target_of(self.raw()),
                final(env).spec_slots()[old(env).target_of(self.raw())],
            ),
            final(env).valid(self.raw()),
            final(env).data_of(self.raw()) is Obj,
            tag_of(final(env).data_of(self.raw())) == tag_of(old(env).data_of(self.raw())),
            lookup(
                props_of(final(env).data_of(self.raw())),
                name_key(*old(env), name.raw()),
            ) is None,
            forall|k2: KeyView|
                k2 != name_key(*old(env), name.raw()) ==> lookup(
                    props_of(final(env).data_of(self.raw())),
                    k2,
                ) == lookup(props_of(old(env).data_of(self.raw())), k2),
    {
        let key = key_of_name(env, name);
        Ok(obj_delete(env, self.0.raw, &key))
    }

    /// Remove the mapping of the UTF-8 name, if any.
    pub fn delete_named_property(&self, env: &mut Env, name: &str) -> (r: Result<bool, Value>)
        requires
            old(env).wf(),
            old(env).valid(self.raw()),
            old(env).data_of(self.raw()) is Obj,
        ensures
            final(env).wf(),
            r is Ok,
            r matches Ok(b) ==> b,
            Env::updates_slot(
                *old(env),
                *final(env),
                old(env).target_of(self.raw()),
                final(env).spec_slots()[old(env).target_of(self.raw())],
            ),
            final(env).valid(self.raw()),
            final(env).data_of(self.raw()) is Obj,
            tag_of(final(env).data_of(self.raw())) == tag_of(old(env).data_of(self.raw())),
            lookup(
                props_of(final(env).data_of(self.raw())),
                KeyView::Name(name.spec_bytes()),
            ) is None,
            forall|k2: KeyView|
                k2 != KeyView::Name(name.spec_bytes()) ==> lookup(
                    props_of(final(env).data_of(self.raw())),
                    k2,
                ) == lookup(props_of(old(env).data_of(self.raw())), k2),
    {
        let key = PropKey::Name(bytes_of_slice(name.as_bytes()));
        Ok(obj_delete(env, self.0.raw, &key))
    }

    /// Remove the mapping of the indexed key, if any.
    pub fn delete_element(&self, env: &mut Env, index: u32) -> (r: Result<bool, Value>)
        requires
            old(env).wf(),
            old(env).valid(self.raw()),
            old(env).data_of(self.raw()) is Obj,
        ensures
            final(env).wf(),
            r is Ok,
            r matches Ok(b) ==> b,
            Env::updates_slot(
                *old(env),
                *final(env),
                old(env).target_of(self.raw()),
                final(env).spec_slots()[old(env).target_of(self.raw())],
            ),
            final(env).valid(self.raw()),
            final(env).data_of(self.raw()) is Obj,
            tag_of(final(env).data_of(self.raw())) == tag_of(old(env).data_of(self.raw())),
            lookup(props_of(final(env).data_of(self.raw())), KeyView::Index(index)) is None,
            forall|k2: KeyView|
                k2 != KeyView::Index(index) ==> lookup(
                    props_of(final(env).data_of(self.raw())),
                    k2,
                ) == lookup(props_of(old(env).data_of(self.raw())), k2),
    {
        let key = PropKey::Index(index);
        Ok(obj_delete(env, self.0.raw, &key))
    }

    pub fn as_value(self) -> (r: Value)
        ensures
            r.raw() == self.raw(),
    {
        self.0
    }

    pub fn from_value(value: Value) -> (r: Self)
        ensures
            r.raw() == value.raw(),
    {
        Object(value)
    }

    /// The checked conversion: succeeds exactly on plain object values.
    pub fn try_from_value(env: &Env, value: Value) -> (r: Option<Self>)
        requires
            env.wf(),
            env.valid(value.raw()),
        ensures
            r is Some <==> env.data_of(value.raw()) is Obj,
            r matches Some(o) ==> o.raw() == value.raw(),
    {
        if value.is_object(env) {
            Some(Object(value))
        } else {
            None
        }
    }

    /// Attach a type tag to the object. Tagging an already-tagged object is
    /// a caller error, excluded here; the properties are untouched.
    pub fn add_type_tag(&self, env: &mut Env, tag: &js_type_tag_t)
        requires
            old(env).wf(),
            old(env).valid(self.raw()),
            old(env).data_of(self.raw()) is Obj,
            tag_of(old(env).data_of(self.raw())) is None,
        ensures
            final(env).wf(),
            Env::updates_slot(
                *old(env),
                *final(env),
                old(env).target_of(self.raw()),
                final(env).spec_slots()[old(env).target_of(self.raw())],
            ),
            final(env).valid(self.raw()),
            final(env).data_of(self.raw()) is Obj,
            tag_of(final(env).data_of(self.raw())) == Some(*tag),
            props_of(final(env).data_of(self.raw())) == props_of(old(env).data_of(self.raw())),
    {
        let ghost old_slots = old(env).spec_slots();
        let t = env.target(self.0.raw);
        proof {
            assert(cell_ok(old_slots, old(env).data_of(self.raw())));
        }
        let mut cell = JsData::Undefined;
        let elem = &mut env.slots[t];
        core::mem::swap(elem, &mut cell);
        let (props, _old_tag) = if let JsData::Obj { props, tag } = cell {
            (props, tag)
        } else {
            vstd::pervasive::unreached()
        };
        env.slots[t] = JsData::Obj { props, tag: Some(*tag) };
        proof {
            let ti = t as int;
            let new_cell = final(env).spec_slots()[ti];
            assert(final(env).spec_slots() =~= old_slots.update(ti, new_cell));
            assert(cell_ok(old_slots.update(ti, new_cell), new_cell));
            crate::data::lemma_cells_ok_update(old_slots, ti, new_cell);
            Env::lemma_valid_preserved(*old(env), *final(env), self.raw());
        }
    }

    /// Whether the object carries exactly the given type tag.
    pub fn check_type_tag(&self, env: &Env, tag: &js_type_tag_t) -> (r: bool)
        requires
            env.wf(),
            env.valid(self.raw()),
            env.data_of(self.raw()) is Obj,
        ensures
            r == (tag_of(env.data_of(self.raw())) == Some(*tag)),
    {
        if let JsData::Obj { tag: stored, .. } = env.cell_of(self.0.raw) {
            match stored {
                Some(st) => st.lower == tag.lower && st.upper == tag.upper,
                None => false,
            }
        } else {
            vstd::pervasive::unreached()
        }
    }
}

/// An array value.
#[derive(Clone, Copy, Debug)]
pub struct Array(pub(crate) Value);

impl Array {
    pub open(crate) spec fn raw(self) -> js_value_t {
        self.0.raw
    }

    /// A fresh array of the given length, every element undefined. The
    /// engine's arrays are bounded by the unsigned 32-bit range.
    pub fn new(env: &mut Env, len: usize) -> (r: Result<Self, Value>)
        requires
            old(env).wf(),
            old(env).has_open_scope(),
            len <= 0xFFFF_FFFF,
        ensures
            final(env).wf(),
            r is Ok,
            r matches Ok(a) ==> {
                &&& Env::creates(*old(env), *final(env), a.raw(), final(env).data_of(a.raw()))
                &&& final(env).valid(a.raw())
                &&& final(env).target_of(a.raw()) == old(env).spec_slots().len()
                &&& final(env).data_of(a.raw()) is Arr
                &&& elems_of(final(env).data_of(a.raw())).len() == len
                &&& forall|i: int|
                    0 <= i < len ==> elems_of(final(env).data_of(a.raw()))[i] == 0
            },
    {
        let mut elems: Vec<usize> = Vec::new();
        let mut i: usize = 0;
        while i < len
            invariant
                i <= len,
                elems@.len() == i,
                forall|j: int| 0 <= j < i ==> elems@[j] == 0,
            decreases len - i,
        {
            elems.push(0);
            i = i + 1;
        }
        let raw = env.alloc_cell(JsData::Arr(elems));
        Ok(Array(Value::from_raw(raw)))
    }

    /// The array's length.
    pub fn len(&self, env: &Env) -> (r: u32)
        requires
            env.wf(),
            env.valid(self.raw()),
            env.data_of(self.raw()) is Arr,
        ensures
            r == elems_of(env.data_of(self.raw())).len(),
    {
        proof {
            assert(cell_ok(env.spec_slots(), env.data_of(self.raw())));
        }
        if let JsData::Arr(elems) = env.cell_of(self.0.raw) {
            elems.len() as u32
        } else {
            vstd::pervasive::unreached()
        }
    }

    /// The element at `index`, or undefined where the index is out of
    /// bounds.
    pub fn get(&self, env: &mut Env, index: u32) -> (r: Result<Value, Value>)
        requires
            old(env).wf(),
            old(env).has_open_scope(),
            old(env).valid(self.raw()),
            old(env).data_of(self.raw()) is Arr,
        ensures
            final(env).wf(),
            r is Ok,
            r matches Ok(v) ==> {
                &&& Env::aliases(
                    *old(env),
                    *final(env),
                    v.raw(),
                    if index < elems_of(old(env).data_of(self.raw())).len() {
                        elems_of(old(env).data_of(self.raw()))[index as int] as int
                    } else {
                        0
                    },
                )
                &&& final(env).valid(v.raw())
            },
    {
        proof {
            assert(cell_ok(old(env).spec_slots(), old(env).data_of(self.raw())));
        }
        let t = {
            if let JsData::Arr(elems) = env.cell_of(self.0.raw) {
                let idx = index as usize;
                if idx < elems.len() {
                    elems[idx]
                } else {
                    0
                }
            } else {
                vstd::pervasive::unreached()
            }
        };
        let raw = env.alias_cell(t);
        Ok(Value::from_raw(raw))
    }

    /// Write `value` at `index`, growing the array with undefined elements
    /// where the index lies past the end, as the engine's arrays do.
    pub fn set(&self, env: &mut Env, index: u32, value: Value) -> (r: Result<(), Value>)
        requires
            old(env).wf(),
            old(env).valid(self.raw()),
            old(env).data_of(self.raw()) is Arr,
            old(env).valid(value.raw()),
            index < 0xFFFF_FFFF,
        ensures
            final(env).wf(),
            r is Ok,
            Env::updates_slot(
                *old(env),
                *final(env),
                old(env).target_of(self.raw()),
                final(env).spec_slots()[old(env).target_of(self.raw())],
            ),
            final(env).valid(self.raw()),
            final(env).data_of(self.raw()) is Arr,
            ({
                let pre = elems_of(old(env).data_of(self.raw()));
                let post = elems_of(final(env).data_of(self.raw()));
                &&& post.len() == if index < pre.len() {
                    pre.len() as int
                } else {
                    index + 1
                }
                &&& post[index as int] == old(env).target_of(value.raw())
                &&& forall|j: int| 0 <= j < pre.len() && j != index ==> post[j] == pre[j]
                &&& forall|j: int| pre.len() <= j < post.len() && j != index ==> post[j] == 0
            }),
    {
        let ghost old_slots = old(env).spec_slots();
        let t = env.target(self.0.raw);
        let vt = env.target(value.raw);
        proof {
            assert(cell_ok(old_slots, old(env).data_of(self.raw())));
        }
        let mut cell = JsData::Undefined;
        let elem = &mut env.slots[t];
        core::mem::swap(elem, &mut cell);
        let mut elems = if let JsData::Arr(elems) = cell {
            elems
        } else {
            vstd::pervasive::unreached()
        };
        let ghost pre_elems = elems@;
        let idx = index as usize;
        if elems.len() <= idx {
            while elems.len() <= idx
                invariant
                    pre_elems.len() <= elems@.len() <= idx + 1,
                    idx == index,
                    index < 0xFFFF_FFFF,
                    forall|j: int| 0 <= j < pre_elems.len() ==> elems@[j] == pre_elems[j],
                    forall|j: int| pre_elems.len() <= j < elems@.len() ==> elems@[j] == 0,
                decreases idx + 1 - elems@.len(),
            {
                elems.push(0);
            }
        }
        let ghost grown = elems@;
        elems[idx] = vt;
        env.slots[t] = JsData::Arr(elems);
        proof {
            let ti = t as int;
            let new_cell = final(env).spec_slots()[ti];
            let ne = elems_of(new_cell);
            assert(ne == grown.update(idx as int, vt));
            assert(final(env).spec_slots() =~= old_slots.update(ti, new_cell));
            assert forall|j: int| 0 <= j < ne.len() implies (#[trigger] ne[j]) < old_slots.len() by {
                if j == idx as int {
                } else if j < pre_elems.len() {
                    assert(ne[j] == pre_elems[j]);
                } else {
                    assert(ne[j] == 0);
                }
            }
            assert(ne.len() <= 0xFFFF_FFFF);
            assert(cell_ok(old_slots.update(ti, new_cell), new_cell));
            crate::data::lemma_cells_ok_update(old_slots, ti, new_cell);
            Env::lemma_valid_preserved(*old(env), *final(env), self.raw());
        }
        Ok(())
    }

    pub fn as_value(self) -> (r: Value)
        ensures
            r.raw() == self.raw(),
    {
        self.0
    }

    pub fn from_value(value: Value) -> (r: Self)
        ensures
            r.raw() == value.raw(),
    {
        Array(value)
    }

    /// The checked conversion: succeeds exactly on array values.
    pub fn try_from_value(env: &Env, value: Value) -> (r: Option<Self>)
        requires
            env.wf(),
            env.valid(value.raw()),
        ensures
            r is Some <==> env.data_of(value.raw()) is Arr,
            r matches Some(a) ==> a.raw() == value.raw(),
    {
        if value.is_array(env) {
            Some(Array(value))
        } else {
            None
        }
    }
}

} // verus!

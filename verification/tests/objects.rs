//! Objects, arrays, buffers, typed views and the callback trampoline,
//! exercised through the public API.

use bare_js::buffer::{ArrayBuffer, BigInt64Array, BigUint64Array, Int16Array, Int32Array, Int8Array, Uint16Array, Uint32Array, Uint8Array, Uint8ClampedArray};
use bare_js::data::js_type_tag_t;
use bare_js::env::Env;
use bare_js::error::{Error, TypeError};
use bare_js::function::{CallError, Callback, Function, HostCallback, js_callback_info_t};
use bare_js::object::{Array, Object};
use bare_js::scope::Scope;
use bare_js::string::{JsString, Name, Symbol};
use bare_js::value::{Number, Undefined, Value};

#[test]
fn named_properties_set_get_has_delete() {
    let mut env = Env::new();
    let scope = Scope::new(&mut env);
    let obj = Object::new(&mut env).unwrap();
    let v = Number::with_i32(&mut env, 10);
    obj.set_named_property(&mut env, "answer", v.as_value()).unwrap();
    assert!(obj.has_named_property(&env, "answer").unwrap());
    assert!(!obj.has_named_property(&env, "other").unwrap());
    let got = obj.get_named_property(&mut env, "answer").unwrap();
    assert_eq!(Number::from_value(got).as_i32(&env), 10);
    let absent = obj.get_named_property(&mut env, "other").unwrap();
    assert!(absent.is_undefined(&env));
    assert!(obj.delete_named_property(&mut env, "answer").unwrap());
    assert!(!obj.has_named_property(&env, "answer").unwrap());
    scope.close(&mut env);
}

#[test]
fn overwriting_a_property_touches_no_other_key() {
    let mut env = Env::new();
    let scope = Scope::new(&mut env);
    let obj = Object::new(&mut env).unwrap();
    let one = Number::with_i32(&mut env, 1);
    let two = Number::with_i32(&mut env, 2);
    let three = Number::with_i32(&mut env, 3);
    obj.set_named_property(&mut env, "a", one.as_value()).unwrap();
    obj.set_named_property(&mut env, "b", two.as_value()).unwrap();
    obj.set_named_property(&mut env, "a", three.as_value()).unwrap();
    let a = obj.get_named_property(&mut env, "a").unwrap();
    let b = obj.get_named_property(&mut env, "b").unwrap();
    assert_eq!(Number::from_value(a).as_i32(&env), 3);
    assert_eq!(Number::from_value(b).as_i32(&env), 2);
    scope.close(&mut env);
}

#[test]
fn string_and_symbol_property_names() {
    let mut env = Env::new();
    let scope = Scope::new(&mut env);
    let obj = Object::new(&mut env).unwrap();
    let key = JsString::new(&mut env, "k").unwrap();
    let v = Number::with_i32(&mut env, 8);
    obj.set_property(&mut env, &Name::from_string(key), v.as_value()).unwrap();
    // A second string with the same bytes names the same property.
    let key2 = JsString::new(&mut env, "k").unwrap();
    let got = obj.get_property(&mut env, &Name::from_string(key2)).unwrap();
    assert_eq!(Number::from_value(got).as_i32(&env), 8);
    // Two symbols with the same description are distinct keys.
    let s1 = Symbol::new(&mut env, "s").unwrap();
    let s2 = Symbol::new(&mut env, "s").unwrap();
    let w = Number::with_i32(&mut env, 9);
    obj.set_property(&mut env, &Name::from_symbol(s1), w.as_value()).unwrap();
    assert!(obj.has_property(&env, &Name::from_symbol(s1)).unwrap());
    assert!(!obj.has_property(&env, &Name::from_symbol(s2)).unwrap());
    assert!(obj.has_own_property(&env, &Name::from_symbol(s1)).unwrap());
    scope.close(&mut env);
}

#[test]
fn object_elements_by_index() {
    let mut env = Env::new();
    let scope = Scope::new(&mut env);
    let obj = Object::new(&mut env).unwrap();
    let v = Number::with_i32(&mut env, 13);
    obj.set_element(&mut env, 2, v.as_value()).unwrap();
    assert!(obj.has_element(&env, 2).unwrap());
    assert!(!obj.has_element(&env, 3).unwrap());
    let got = obj.get_element(&mut env, 2).unwrap();
    assert_eq!(Number::from_value(got).as_i32(&env), 13);
    assert!(obj.delete_element(&mut env, 2).unwrap());
    assert!(!obj.has_element(&env, 2).unwrap());
    scope.close(&mut env);
}

#[test]
fn type_tags_attach_once_and_check_exactly() {
    let mut env = Env::new();
    let scope = Scope::new(&mut env);
    let obj = Object::new(&mut env).unwrap();
    let tag = js_type_tag_t { lower: 0x1234, upper: 0x5678 };
    let other = js_type_tag_t { lower: 0x1234, upper: 0x9999 };
    assert!(!obj.check_type_tag(&env, &tag));
    obj.add_type_tag(&mut env, &tag);
    assert!(obj.check_type_tag(&env, &tag));
    assert!(!obj.check_type_tag(&env, &other));
    scope.close(&mut env);
}

#[test]
fn array_set_get_and_growth() {
    let mut env = Env::new();
    let scope = Scope::new(&mut env);
    let arr = Array::new(&mut env, 3).unwrap();
    assert_eq!(arr.len(&env), 3);
    let v = Number::with_i32(&mut env, 21);
    arr.set(&mut env, 1, v.as_value()).unwrap();
    let got = arr.get(&mut env, 1).unwrap();
    assert_eq!(Number::from_value(got).as_i32(&env), 21);
    let hole = arr.get(&mut env, 0).unwrap();
    assert!(hole.is_undefined(&env));
    let oob = arr.get(&mut env, 9).unwrap();
    assert!(oob.is_undefined(&env));
    // Writing past the end grows the array, filling with undefined.
    let w = Number::with_i32(&mut env, 5);
    arr.set(&mut env, 5, w.as_value()).unwrap();
    assert_eq!(arr.len(&env), 6);
    let mid = arr.get(&mut env, 4).unwrap();
    assert!(mid.is_undefined(&env));
    let end = arr.get(&mut env, 5).unwrap();
    assert_eq!(Number::from_value(end).as_i32(&env), 5);
    scope.close(&mut env);
}

#[test]
fn uint8_view_write_aliases_the_backing_buffer() {
    let mut env = Env::new();
    let scope = Scope::new(&mut env);
    let view = Uint8Array::new(&mut env, 4).unwrap();
    view.set(&mut env, 0, 0xFF);
    let backing = view.buffer(&mut env);
    // The write through the view is visible in the buffer's raw memory:
    // the view aliases, it does not copy.
    assert_eq!(backing.as_slice(&env)[0], 0xFF);
    assert_eq!(backing.as_slice(&env)[1], 0x00);
    assert_eq!(view.get(&env, 0), 0xFF);
    scope.close(&mut env);
}

#[test]
fn wider_views_store_little_endian_words() {
    let mut env = Env::new();
    let scope = Scope::new(&mut env);
    let v16 = Uint16Array::new(&mut env, 2).unwrap();
    v16.set(&mut env, 1, 0x1234);
    assert_eq!(v16.get(&env, 1), 0x1234);
    let b16 = v16.buffer(&mut env);
    assert_eq!(b16.as_slice(&env)[2], 0x34);
    assert_eq!(b16.as_slice(&env)[3], 0x12);
    let v32 = Uint32Array::new(&mut env, 1).unwrap();
    v32.set(&mut env, 0, 0xDEADBEEF);
    assert_eq!(v32.get(&env, 0), 0xDEADBEEF);
    let b32 = v32.buffer(&mut env);
    assert_eq!(b32.as_slice(&env)[0], 0xEF);
    assert_eq!(b32.as_slice(&env)[3], 0xDE);
    let v64 = BigUint64Array::new(&mut env, 1).unwrap();
    v64.set(&mut env, 0, u64::MAX - 1);
    assert_eq!(v64.get(&env, 0), u64::MAX - 1);
    scope.close(&mut env);
}

#[test]
fn signed_views_round_trip_negative_values() {
    let mut env = Env::new();
    let scope = Scope::new(&mut env);
    let v8 = Int8Array::new(&mut env, 2).unwrap();
    v8.set(&mut env, 0, -1);
    v8.set(&mut env, 1, i8::MIN);
    assert_eq!(v8.get(&env, 0), -1);
    assert_eq!(v8.get(&env, 1), i8::MIN);
    let c8 = Uint8ClampedArray::new(&mut env, 1).unwrap();
    c8.set(&mut env, 0, 200);
    assert_eq!(c8.get(&env, 0), 200);
    let v16 = Int16Array::new(&mut env, 1).unwrap();
    v16.set(&mut env, 0, -12345);
    assert_eq!(v16.get(&env, 0), -12345);
    let v32 = Int32Array::new(&mut env, 1).unwrap();
    v32.set(&mut env, 0, i32::MIN);
    assert_eq!(v32.get(&env, 0), i32::MIN);
    // The 64-bit element kinds use full 64-bit host integers.
    let v64 = BigInt64Array::new(&mut env, 2).unwrap();
    v64.set(&mut env, 0, i64::MIN);
    v64.set(&mut env, 1, i64::MAX);
    assert_eq!(v64.get(&env, 0), i64::MIN);
    assert_eq!(v64.get(&env, 1), i64::MAX);
    scope.close(&mut env);
}

#[test]
fn arraybuffer_bytes_and_detach() {
    let mut env = Env::new();
    let scope = Scope::new(&mut env);
    let buf = ArrayBuffer::new(&mut env, 3).unwrap();
    assert_eq!(buf.byte_length(&env), 3);
    assert_eq!(buf.as_slice(&env), &[0u8, 0, 0]);
    buf.write_byte(&mut env, 2, 9);
    assert_eq!(buf.as_slice(&env), &[0u8, 0, 9]);
    assert!(!buf.is_detached(&env));
    buf.detach(&mut env);
    assert!(buf.is_detached(&env));
    assert_eq!(buf.byte_length(&env), 0);
    scope.close(&mut env);
}

/// Echoes the argument at a fixed index back as the result, or undefined
/// where the index lies past the argument count.
struct EchoArg {
    index: usize,
    saw_absent: bool,
}

impl HostCallback for EchoArg {
    fn on_call(&mut self, env: &mut Env, info: &Callback) -> Result<Value, Value> {
        match info.arg(self.index) {
            Some(v) => Ok(v),
            None => {
                self.saw_absent = true;
                Ok(Undefined::new(env).as_value())
            }
        }
    }
}

/// Always throws a type error with a fixed message.
struct AlwaysThrows;

impl HostCallback for AlwaysThrows {
    fn on_call(&mut self, env: &mut Env, _info: &Callback) -> Result<Value, Value> {
        Err(TypeError::new(env, "bad arg").as_value())
    }
}

#[test]
fn callback_echoes_the_selected_argument() {
    let mut env = Env::new();
    let scope = Scope::new(&mut env);
    let mut registry: Vec<EchoArg> = Vec::new();
    let f = Function::new(&mut env, &mut registry, EchoArg { index: 1, saw_absent: false }).unwrap();
    let recv = Undefined::new(&mut env).as_value();
    let a0 = Number::with_i32(&mut env, 10).as_value();
    let a1 = Number::with_i32(&mut env, 20).as_value();
    let a2 = Number::with_i32(&mut env, 30).as_value();
    let args = vec![a0, a1, a2];
    let result = f.call(&mut env, &mut registry, recv, &args).unwrap();
    assert_eq!(Number::from_value(result).as_i32(&env), 20);
    scope.close(&mut env);
}

#[test]
fn callback_sees_absence_past_the_argument_count() {
    let mut env = Env::new();
    let scope = Scope::new(&mut env);
    let mut registry: Vec<EchoArg> = Vec::new();
    let f = Function::new(&mut env, &mut registry, EchoArg { index: 5, saw_absent: false }).unwrap();
    let recv = Undefined::new(&mut env).as_value();
    let a0 = Number::with_i32(&mut env, 10).as_value();
    let a1 = Number::with_i32(&mut env, 20).as_value();
    let a2 = Number::with_i32(&mut env, 30).as_value();
    let args = vec![a0, a1, a2];
    let result = f.call(&mut env, &mut registry, recv, &args).unwrap();
    assert!(result.is_undefined(&env));
    assert!(registry[0].saw_absent);
    scope.close(&mut env);
}

#[test]
fn callback_argument_indexing_is_exact() {
    let mut env = Env::new();
    let scope = Scope::new(&mut env);
    let a = Number::with_i32(&mut env, 1).as_value().as_raw();
    let b = Number::with_i32(&mut env, 2).as_value().as_raw();
    let recv = Undefined::new(&mut env).as_value().as_raw();
    let info = js_callback_info_t { args: vec![a, b], receiver: recv, data: 0 };
    let cb = Callback::from_info(info);
    assert_eq!(cb.arg_count(), 2);
    assert!(cb.arg(0).is_some());
    assert!(cb.arg(1).is_some());
    assert!(cb.arg(2).is_none());
    assert!(cb.receiver().is_valid(&env));
    scope.close(&mut env);
}

#[test]
fn thrown_error_arrives_as_the_pending_exception() {
    let mut env = Env::new();
    let scope = Scope::new(&mut env);
    let mut registry: Vec<AlwaysThrows> = Vec::new();
    let f = Function::new(&mut env, &mut registry, AlwaysThrows).unwrap();
    let recv = Undefined::new(&mut env).as_value();
    let args: Vec<Value> = Vec::new();
    match f.call(&mut env, &mut registry, recv, &args) {
        Err(CallError::Exception(e)) => {
            let err = Error::from_value(e);
            assert_eq!(err.message(&env), b"bad arg".to_vec());
            // The exception was retrieved and cleared by the call itself.
            assert!(!env.is_exception_pending());
        }
        other => panic!("expected a pending exception, got {:?}", other.is_ok()),
    }
    scope.close(&mut env);
}

#[test]
fn receiver_reaches_the_callback() {
    struct GivesBackReceiver;
    impl HostCallback for GivesBackReceiver {
        fn on_call(&mut self, _env: &mut Env, info: &Callback) -> Result<Value, Value> {
            Ok(info.receiver())
        }
    }
    let mut env = Env::new();
    let scope = Scope::new(&mut env);
    let mut registry: Vec<GivesBackReceiver> = Vec::new();
    let f = Function::new(&mut env, &mut registry, GivesBackReceiver).unwrap();
    let recv = Number::with_i32(&mut env, 77).as_value();
    let args: Vec<Value> = Vec::new();
    let result = f.call(&mut env, &mut registry, recv, &args).unwrap();
    assert!(result.strict_equals(&env, &recv));
    scope.close(&mut env);
}

#[test]
fn object_identity_under_strict_equality() {
    let mut env = Env::new();
    let scope = Scope::new(&mut env);
    let obj = Object::new(&mut env).unwrap();
    let holder = Object::new(&mut env).unwrap();
    holder.set_named_property(&mut env, "o", obj.as_value()).unwrap();
    let again = holder.get_named_property(&mut env, "o").unwrap();
    assert!(obj.as_value().strict_equals(&env, &again));
    let other = Object::new(&mut env).unwrap();
    assert!(!obj.as_value().strict_equals(&env, &other.as_value()));
    assert!(Object::try_from_value(&env, again).is_some());
    assert!(Array::try_from_value(&env, again).is_none());
    scope.close(&mut env);
}

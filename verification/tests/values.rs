//! Primitive values, strings, scopes, references, promises, errors and the
//! status protocol, exercised through the public API.

use bare_js::env::Env;
use bare_js::error::{Error, RangeError, ReferenceError, SyntaxError, TypeError};
use bare_js::data::ErrorKind;
use bare_js::data::js_promise_state_t;
use bare_js::data::js_value_type_t;
use bare_js::promise::{create_promise, get_promise_result, get_promise_state, reject_deferred, resolve_deferred};
use bare_js::reference::Reference;
use bare_js::scope::{EscapableScope, Scope};
use bare_js::status::{classify, StatusClass, JS_PENDING_EXCEPTION, JS_UNCAUGHT_EXCEPTION};
use bare_js::string::{JsString, Symbol};
use bare_js::value::{BigInt, Boolean, Null, Number, Undefined};

#[test]
fn i32_round_trip_at_boundaries() {
    let mut env = Env::new();
    let scope = Scope::new(&mut env);
    for v in [0i32, 1, -1, i32::MIN, i32::MAX] {
        let n = Number::with_i32(&mut env, v);
        assert_eq!(n.as_i32(&env), v);
        assert_eq!(n.as_i64(&env), v as i64);
    }
    scope.close(&mut env);
}

#[test]
fn u32_round_trip_at_boundaries() {
    let mut env = Env::new();
    let scope = Scope::new(&mut env);
    for v in [0u32, 1, 0x7fff_ffff, 0x8000_0000, u32::MAX] {
        let n = Number::with_u32(&mut env, v);
        assert_eq!(n.as_u32(&env), v);
    }
    scope.close(&mut env);
}

#[test]
fn i64_round_trip_within_safe_range() {
    let mut env = Env::new();
    let scope = Scope::new(&mut env);
    for v in [0i64, 42, -42, 9007199254740992, -9007199254740992] {
        let n = Number::with_i64(&mut env, v);
        assert_eq!(n.as_i64(&env), v);
    }
    scope.close(&mut env);
}

#[test]
fn to_int32_reduces_modulo_two_to_the_thirty_second() {
    let mut env = Env::new();
    let scope = Scope::new(&mut env);
    let n = Number::with_i64(&mut env, 4294967296 + 5);
    assert_eq!(n.as_i32(&env), 5);
    let m = Number::with_i64(&mut env, -1);
    assert_eq!(m.as_u32(&env), u32::MAX);
    let k = Number::with_i64(&mut env, 2147483648);
    assert_eq!(k.as_i32(&env), i32::MIN);
    scope.close(&mut env);
}

#[test]
fn bigint_i64_round_trip() {
    let mut env = Env::new();
    let scope = Scope::new(&mut env);
    for v in [0i64, 1, -1, i64::MIN, i64::MAX] {
        let b = BigInt::with_i64(&mut env, v);
        assert_eq!(b.as_i64(&env), (v, true));
    }
    scope.close(&mut env);
}

#[test]
fn bigint_u64_round_trip_and_wrapping() {
    let mut env = Env::new();
    let scope = Scope::new(&mut env);
    let b = BigInt::with_u64(&mut env, u64::MAX);
    assert_eq!(b.as_u64(&env), (u64::MAX, true));
    // Reading u64::MAX back as a signed word wraps modulo two to the
    // sixty-fourth.
    assert_eq!(b.as_i64(&env), (-1, false));
    let c = BigInt::with_i64(&mut env, -1);
    assert_eq!(c.as_u64(&env), (u64::MAX, false));
    scope.close(&mut env);
}

#[test]
fn string_round_trip_including_empty() {
    let mut env = Env::new();
    let scope = Scope::new(&mut env);
    for text in ["", "hello", "h\u{e9}llo \u{2713}"] {
        let s = JsString::new(&mut env, text).unwrap();
        assert_eq!(s.utf8_len(&env), text.len());
        assert_eq!(s.to_bytes(&env), text.as_bytes().to_vec());
    }
    scope.close(&mut env);
}

#[test]
fn scope_close_invalidates_owned_handles() {
    let mut env = Env::new();
    let outer = Scope::new(&mut env);
    let kept = Number::with_i32(&mut env, 7);
    let inner = Scope::new(&mut env);
    let doomed = Number::with_i32(&mut env, 8);
    assert!(doomed.as_value().is_valid(&env));
    inner.close(&mut env);
    assert!(!doomed.as_value().is_valid(&env));
    assert!(kept.as_value().is_valid(&env));
    assert_eq!(kept.as_i32(&env), 7);
    outer.close(&mut env);
    assert!(!kept.as_value().is_valid(&env));
}

#[test]
fn escape_promotes_one_value_to_the_parent_scope() {
    let mut env = Env::new();
    let outer = Scope::new(&mut env);
    let child = EscapableScope::new(&mut env);
    let inside = Number::with_i32(&mut env, 99);
    let other = Number::with_i32(&mut env, 1);
    let escaped = child.escape(&mut env, inside.as_value());
    assert!(escaped.is_valid(&env));
    assert!(!inside.as_value().is_valid(&env));
    assert!(!other.as_value().is_valid(&env));
    assert_eq!(Number::from_value(escaped).as_i32(&env), 99);
    outer.close(&mut env);
}

#[test]
fn escapable_scope_close_without_escape() {
    let mut env = Env::new();
    let outer = Scope::new(&mut env);
    let child = EscapableScope::new(&mut env);
    let inside = Undefined::new(&mut env);
    child.close(&mut env);
    assert!(!inside.as_value().is_valid(&env));
    outer.close(&mut env);
}

#[test]
fn ref_then_unref_restores_the_prior_count() {
    let mut env = Env::new();
    let scope = Scope::new(&mut env);
    let n = Number::with_i32(&mut env, 5);
    let r = Reference::new(&mut env, n.as_value(), 1);
    assert_eq!(r.add_ref(&mut env), 2);
    assert_eq!(r.unref(&mut env), 1);
    assert_eq!(r.unref(&mut env), 0);
    scope.close(&mut env);
}

#[test]
fn value_of_still_answers_at_count_zero() {
    let mut env = Env::new();
    let scope = Scope::new(&mut env);
    let n = Number::with_i32(&mut env, 11);
    let r = Reference::new(&mut env, n.as_value(), 1);
    scope.close(&mut env);
    assert!(!n.as_value().is_valid(&env));
    let scope2 = Scope::new(&mut env);
    assert_eq!(r.unref(&mut env), 0);
    let again = r.value_of(&mut env);
    assert!(again.is_valid(&env));
    assert_eq!(Number::from_value(again).as_i32(&env), 11);
    r.delete(&mut env);
    scope2.close(&mut env);
}

#[test]
fn promise_resolves_to_fulfilled_with_its_value() {
    let mut env = Env::new();
    let scope = Scope::new(&mut env);
    let (deferred, promise) = create_promise(&mut env);
    assert_eq!(
        get_promise_state(&env, &promise),
        js_promise_state_t::js_promise_pending
    );
    // Result introspection is available at any time: a pending promise
    // answers undefined.
    let early = get_promise_result(&mut env, &promise);
    assert!(early.is_undefined(&env));
    let forty_two = Number::with_i32(&mut env, 42);
    resolve_deferred(&mut env, deferred, forty_two.as_value());
    assert_eq!(
        get_promise_state(&env, &promise),
        js_promise_state_t::js_promise_fulfilled
    );
    let result = get_promise_result(&mut env, &promise);
    assert_eq!(Number::from_value(result).as_i32(&env), 42);
    scope.close(&mut env);
}

#[test]
fn promise_rejects_to_rejected_with_its_reason() {
    let mut env = Env::new();
    let scope = Scope::new(&mut env);
    let (deferred, promise) = create_promise(&mut env);
    let reason = TypeError::new(&mut env, "nope");
    reject_deferred(&mut env, deferred, reason.as_value());
    assert_eq!(
        get_promise_state(&env, &promise),
        js_promise_state_t::js_promise_rejected
    );
    let result = get_promise_result(&mut env, &promise);
    let err = Error::from_value(result);
    assert_eq!(err.message(&env), b"nope".to_vec());
    scope.close(&mut env);
}

#[test]
fn error_kinds_and_messages() {
    let mut env = Env::new();
    let scope = Scope::new(&mut env);
    let e = Error::new(&mut env, "plain");
    assert_eq!(e.kind(&env), ErrorKind::Generic);
    assert_eq!(e.message(&env), b"plain".to_vec());
    let t = TypeError::new(&mut env, "t");
    assert_eq!(Error::from_value(t.as_value()).kind(&env), ErrorKind::Type);
    let r = RangeError::new(&mut env, "r");
    assert_eq!(Error::from_value(r.as_value()).kind(&env), ErrorKind::Range);
    let s = SyntaxError::new(&mut env, "s");
    assert_eq!(Error::from_value(s.as_value()).kind(&env), ErrorKind::Syntax);
    let f = ReferenceError::new(&mut env, "f");
    assert_eq!(
        Error::from_value(f.as_value()).kind(&env),
        ErrorKind::Reference
    );
    scope.close(&mut env);
}

#[test]
fn throw_and_retrieve_clears_the_pending_exception() {
    let mut env = Env::new();
    let scope = Scope::new(&mut env);
    assert!(!env.is_exception_pending());
    let e = Error::new(&mut env, "boom");
    env.throw(e.as_value());
    assert!(env.is_exception_pending());
    let caught = env.pending_exception();
    assert!(!env.is_exception_pending());
    assert_eq!(Error::from_value(caught).message(&env), b"boom".to_vec());
    scope.close(&mut env);
}

#[test]
fn status_classification() {
    assert_eq!(classify(0), StatusClass::Success);
    assert_eq!(classify(JS_PENDING_EXCEPTION), StatusClass::PendingException);
    assert_eq!(classify(JS_UNCAUGHT_EXCEPTION), StatusClass::Fatal);
    assert_eq!(classify(7), StatusClass::Fatal);
}

#[test]
fn typeof_and_predicates() {
    let mut env = Env::new();
    let scope = Scope::new(&mut env);
    let u = Undefined::new(&mut env);
    assert_eq!(u.as_value().type_of(&env), js_value_type_t::js_undefined);
    assert!(u.as_value().is_undefined(&env));
    let n = Null::new(&mut env);
    assert_eq!(n.as_value().type_of(&env), js_value_type_t::js_null);
    let b = Boolean::new(&mut env, true);
    assert!(b.as_bool(&env));
    assert_eq!(b.as_value().type_of(&env), js_value_type_t::js_boolean);
    let num = Number::with_i32(&mut env, 3);
    assert_eq!(num.as_value().type_of(&env), js_value_type_t::js_number);
    let s = JsString::new(&mut env, "x").unwrap();
    assert_eq!(s.as_value().type_of(&env), js_value_type_t::js_string);
    let sym = Symbol::new(&mut env, "tag").unwrap();
    assert_eq!(sym.as_value().type_of(&env), js_value_type_t::js_symbol);
    let big = BigInt::with_u64(&mut env, 9);
    assert_eq!(big.as_value().type_of(&env), js_value_type_t::js_bigint);
    assert!(Number::try_from_value(&env, num.as_value()).is_some());
    assert!(Number::try_from_value(&env, s.as_value()).is_none());
    assert!(JsString::try_from_value(&env, s.as_value()).is_some());
    assert!(Boolean::try_from_value(&env, n.as_value()).is_none());
    scope.close(&mut env);
}

#[test]
fn strict_equality_of_primitives_and_strings() {
    let mut env = Env::new();
    let scope = Scope::new(&mut env);
    let a = Number::with_i32(&mut env, 4).as_value();
    let b = Number::with_i32(&mut env, 4).as_value();
    let c = Number::with_i32(&mut env, 5).as_value();
    assert!(a.strict_equals(&env, &b));
    assert!(!a.strict_equals(&env, &c));
    let s1 = JsString::new(&mut env, "same").unwrap().as_value();
    let s2 = JsString::new(&mut env, "same").unwrap().as_value();
    assert!(s1.strict_equals(&env, &s2));
    let u1 = Undefined::new(&mut env).as_value();
    let u2 = Undefined::new(&mut env).as_value();
    assert!(u1.strict_equals(&env, &u2));
    assert!(!u1.strict_equals(&env, &a));
    let sym1 = Symbol::new(&mut env, "d").unwrap().as_value();
    let sym2 = Symbol::new(&mut env, "d").unwrap().as_value();
    assert!(!sym1.strict_equals(&env, &sym2));
    assert!(sym1.strict_equals(&env, &sym1));
    scope.close(&mut env);
}

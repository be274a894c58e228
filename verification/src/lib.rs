//! A verified binding core over a scoped-handle script-engine object model.
//!
//! The library projects an engine's handle-based value model into host types:
//! handle scopes with strict stack discipline, typed value wrappers over a
//! shared raw-handle representation, persistent ref-counted references,
//! native-callback dispatch with exception marshalling, zero-copy typed views
//! over array buffers, and a deferred/promise bridge. The engine instance is
//! an explicit, fully modelled state value, so every operation's effect on
//! handles, scopes and cells is stated in its contract and proved.

pub mod buffer;
pub mod data;
pub mod env;
pub mod error;
pub mod function;
pub mod object;
pub mod promise;
pub mod reference;
pub mod scope;
pub mod status;
pub mod string;
pub mod value;

pub use buffer::{
    ArrayBuffer, BigInt64Array, BigUint64Array, Int16Array, Int32Array, Int8Array, Uint16Array,
    Uint32Array, Uint8Array, Uint8ClampedArray,
};
pub use data::{ErrorKind, js_promise_state_t, js_type_tag_t, js_typedarray_type_t, js_value_type_t};
pub use env::{Env, js_deferred_t, js_escapable_handle_scope_t, js_handle_scope_t, js_ref_t, js_value_t};
pub use error::{Error, RangeError, ReferenceError, SyntaxError, TypeError};
pub use function::{CallError, Callback, Function, HostCallback, js_callback_info_t};
pub use object::{Array, Object};
pub use promise::{
    Deferred, create_promise, get_promise_result, get_promise_state, reject_deferred,
    resolve_deferred,
};
pub use reference::Reference;
pub use scope::{EscapableScope, Scope};
pub use status::{JS_PENDING_EXCEPTION, JS_UNCAUGHT_EXCEPTION, StatusClass, check_status, classify};
pub use string::{JsString, Name, Symbol};
pub use value::{BigInt, Boolean, Null, Number, Undefined, Value};

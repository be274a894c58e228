//! The status protocol: every engine-level call reports an integer status,
//! and the binding interprets it — success passes through, a pending script
//! exception is retrieved-and-cleared into an error result, and anything
//! else is fatal, a condition the binding does not try to recover from.

use vstd::prelude::*;

use crate::env::Env;
use crate::value::Value;

verus! {

/// The status an engine-level call reports when a script exception is
/// pending and recoverable.
pub const JS_PENDING_EXCEPTION: i32 = -1;

/// The status an engine-level call reports for an uncaught, unrecoverable
/// condition.
pub const JS_UNCAUGHT_EXCEPTION: i32 = -2;

/// The three classes of the protocol.
#[derive(Clone, Copy, Debug, PartialEq, Eq, Structural)]
pub enum StatusClass {
    Success,
    PendingException,
    Fatal,
}

/// Classify a raw status: zero is success, the pending-exception status is
/// recoverable, every other value is fatal.
pub fn classify(status: i32) -> (r: StatusClass)
    ensures
        (r == StatusClass::Success) <==> (status == 0),
        (r == StatusClass::PendingException) <==> (status == JS_PENDING_EXCEPTION),
        (r == StatusClass::Fatal) <==> (status != 0 && status != JS_PENDING_EXCEPTION),
{
    if status == 0 {
        StatusClass::Success
    } else if status == JS_PENDING_EXCEPTION {
        StatusClass::PendingException
    } else {
        StatusClass::Fatal
    }
}

/// Interpret a recoverable status: success passes through untouched, and a
/// pending-exception status retrieves and clears the exception into the
/// error result. A fatal status is an engine invariant violation, excluded
/// here; the callers that can meet one surface it as a value instead.
pub fn check_status(env: &mut Env, status: i32) -> (r: Result<(), Value>)
    requires
        old(env).wf(),
        old(env).has_open_scope(),
        status == 0 || status == JS_PENDING_EXCEPTION,
        status == JS_PENDING_EXCEPTION ==> old(env).spec_pending() is Some,
    ensures
        final(env).wf(),
        (r is Ok) <==> (status == 0),
        status == 0 ==> *final(env) == *old(env),
        status == JS_PENDING_EXCEPTION ==> {
            &&& final(env).spec_pending() is None
            &&& r matches Err(e) ==> {
                &&& final(env).valid(e.raw())
                &&& final(env).target_of(e.raw()) == old(env).spec_pending().unwrap()
            }
        },
{
    if status == 0 {
        Ok(())
    } else {
        Err(env.pending_exception())
    }
}

} // verus!

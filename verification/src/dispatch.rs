//! Dispatching a native event into a handler, and containing its exit.
//!
//! A dispatch is a synchronous call from the native event loop into a host
//! handler: marshal the raw arguments, invoke the handler, marshal its reply
//! back. The native caller has no unwind tables, so nothing may unwind into
//! it: an abnormal exit inside the handler is caught at this boundary and
//! turned into immediate process termination, never propagation. Invalid text
//! in the arguments is equally fatal — the dispatch fails as a whole rather
//! than hand the handler mangled text.

use crate::payload::EventPayload;
use crate::payload::MarshalError;
use crate::payload::RawEvent;
use crate::payload::marshal;
use crate::payload::spec_payload_of;
use crate::payload::spec_text_ok;
use crate::signal::Continue;
use crate::signal::Inhibit;
use crate::signal::spec_gboolean_of;
use crate::signal::gboolean_of;
use vstd::prelude::*;

verus! {

/// The return convention a signal expects from its handlers.
#[derive(Clone, Copy, Debug, Eq, PartialEq, Structural)]
pub enum ReturnShape {
    /// The signal returns nothing.
    NoValue,
    /// The signal returns an [`Inhibit`] propagation decision.
    Propagation,
    /// The signal returns a [`Continue`] re-arm decision.
    Rearm,
    /// The signal returns a plain truth value.
    Truth,
}

/// What a handler hands back to the bridge.
#[derive(Clone, Copy, Debug, Eq, PartialEq, Structural)]
pub enum HandlerReply {
    Done,
    Propagation(Inhibit),
    Rearm(Continue),
    Truth(bool),
}

/// A reply in the native representation: nothing, or a C truth value.
#[derive(Clone, Copy, Debug, Eq, PartialEq, Structural)]
pub enum RawReply {
    NoValue,
    GBoolean(i32),
}

/// How an invoked handler came back to the dispatch frame: with a reply, or
/// by unwinding. The unverified trampoline at the native edge reports which.
#[derive(Clone, Copy, Debug, Eq, PartialEq, Structural)]
pub enum ClosureOutcome {
    Returned(HandlerReply),
    Panicked,
}

/// Why a dispatch must terminate the process instead of returning.
#[derive(Clone, Copy, Debug, Eq, PartialEq, Structural)]
pub enum FatalReason {
    /// The handler unwound; an unwind must never cross into native code.
    ClosurePanicked,
    /// A string argument was not valid UTF-8.
    InvalidText,
}

/// The result of one dispatch: a reply for the native caller, or the decision
/// to terminate the process at once.
#[derive(Clone, Copy, Debug, Eq, PartialEq, Structural)]
pub enum DispatchOutcome {
    Completed(RawReply),
    Terminate(FatalReason),
}

/// Whether a reply obeys the signal's return convention.
pub open spec fn reply_fits(shape: ReturnShape, reply: HandlerReply) -> bool {
    match reply {
        HandlerReply::Done => shape == ReturnShape::NoValue,
        HandlerReply::Propagation(_) => shape == ReturnShape::Propagation,
        HandlerReply::Rearm(_) => shape == ReturnShape::Rearm,
        HandlerReply::Truth(_) => shape == ReturnShape::Truth,
    }
}

/// The native representation of a handler reply: each decision becomes the
/// canonical C truth value, a void reply stays void.
pub open spec fn spec_raw_reply_of(reply: HandlerReply) -> RawReply {
    match reply {
        HandlerReply::Done => RawReply::NoValue,
        HandlerReply::Propagation(Inhibit(b)) => RawReply::GBoolean(spec_gboolean_of(b)),
        HandlerReply::Rearm(Continue(b)) => RawReply::GBoolean(spec_gboolean_of(b)),
        HandlerReply::Truth(b) => RawReply::GBoolean(spec_gboolean_of(b)),
    }
}

/// Marshals a handler reply back into the native representation.
pub fn marshal_reply(reply: HandlerReply) -> (r: RawReply)
    ensures
        r == spec_raw_reply_of(reply),
{
    match reply {
        HandlerReply::Done => RawReply::NoValue,
        HandlerReply::Propagation(i) => RawReply::GBoolean(i.to_glib()),
        HandlerReply::Rearm(c) => RawReply::GBoolean(c.to_glib()),
        HandlerReply::Truth(b) => RawReply::GBoolean(gboolean_of(b)),
    }
}

/// Closes a dispatch frame: a handler that returned has its reply marshalled
/// for the native caller; a handler that unwound terminates the process —
/// the unwind is never allowed past this frame.
pub fn settle(outcome: ClosureOutcome) -> (r: DispatchOutcome)
    ensures
        outcome is Panicked <==> r == DispatchOutcome::Terminate(FatalReason::ClosurePanicked),
        outcome matches ClosureOutcome::Returned(reply) ==> r == DispatchOutcome::Completed(
            spec_raw_reply_of(reply),
        ),
{
    match outcome {
        ClosureOutcome::Returned(reply) => DispatchOutcome::Completed(marshal_reply(reply)),
        ClosureOutcome::Panicked => DispatchOutcome::Terminate(FatalReason::ClosurePanicked),
    }
}

/// One full dispatch of a verified handler: marshals the raw arguments,
/// invokes the handler on the typed payload, and marshals the reply back.
///
/// A verified handler cannot unwind, so the outcome is fatal exactly when a
/// string argument is not valid UTF-8; otherwise the native caller receives
/// the native form of a reply the handler can produce for this payload.
pub fn dispatch_payload<F: Fn(EventPayload) -> HandlerReply>(raw: RawEvent, handler: F) -> (r:
    DispatchOutcome)
    requires
        spec_text_ok(raw) ==> call_requires(handler, (spec_payload_of(raw),)),
    ensures
        !spec_text_ok(raw) ==> r == DispatchOutcome::Terminate(FatalReason::InvalidText),
        spec_text_ok(raw) ==> (exists|reply: HandlerReply|
            call_ensures(handler, (spec_payload_of(raw),), reply) && r
                == DispatchOutcome::Completed(spec_raw_reply_of(reply))),
{
    match marshal(raw) {
        Ok(payload) => {
            let reply = handler(payload);
            settle(ClosureOutcome::Returned(reply))
        },
        Err(MarshalError::InvalidText) => DispatchOutcome::Terminate(FatalReason::InvalidText),
    }
}

/// Reading a marshalled reply back under the signal's return convention
/// restores the reply: the native representation loses nothing.
pub open spec fn spec_reply_of_raw(shape: ReturnShape, raw: RawReply) -> HandlerReply {
    match raw {
        RawReply::NoValue => HandlerReply::Done,
        RawReply::GBoolean(g) => match shape {
            ReturnShape::Propagation => HandlerReply::Propagation(Inhibit(g != 0)),
            ReturnShape::Rearm => HandlerReply::Rearm(Continue(g != 0)),
            _ => HandlerReply::Truth(g != 0),
        },
    }
}

/// Round trip: a reply that obeys its signal's return convention is restored
/// exactly from its native representation.
pub proof fn lemma_reply_round_trip(shape: ReturnShape, reply: HandlerReply)
    requires
        reply_fits(shape, reply),
    ensures
        spec_reply_of_raw(shape, spec_raw_reply_of(reply)) == reply,
{
}

} // verus!

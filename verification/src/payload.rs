//! Event payloads and the marshalling of raw native arguments into them.
//!
//! Each signal delivers its arguments in one of a small number of shapes.
//! The native dispatcher hands the bridge the raw representation ([`RawEvent`]):
//! C integers, C truth values, enum tags, the fields read through a struct
//! pointer, or the bytes of a C string. Marshalling turns that into the typed
//! [`EventPayload`] a handler sees: truth values become booleans, tags become
//! variants, narrow counters widen, and string bytes are accepted only when
//! they are valid UTF-8 — a dispatch carrying invalid text fails as a whole
//! rather than hand the handler mangled text.

use crate::enums::DirectionType;
use crate::enums::MovementStep;
use crate::enums::spec_direction_from_i32;
use crate::enums::spec_direction_to_i32;
use crate::enums::spec_movement_step_from_i32;
use crate::enums::spec_movement_step_to_i32;
use crate::enums::direction_from_i32;
use crate::enums::movement_step_from_i32;
use crate::signal::spec_gboolean_of;
use crate::signal::bool_of_gboolean;
use crate::text::validate_utf8;
use vstd::prelude::*;
use vstd::utf8::valid_utf8;

verus! {

/// Bitmask of window-state flags, packed as the native toolkit packs them.
#[derive(Clone, Copy, Debug, Eq, PartialEq, Structural)]
pub struct WindowState(pub u32);

/// A window-state-change event: which flags changed and the new flag set.
#[derive(Clone, Copy, Debug, Eq, PartialEq, Structural)]
pub struct EventWindowState {
    pub changed_mask: WindowState,
    pub new_window_state: WindowState,
}

impl EventWindowState {
    /// The flags whose value changed in this event.
    pub fn get_changed_mask(&self) -> (r: WindowState)
        ensures
            r == self.changed_mask,
    {
        self.changed_mask
    }

    /// The full flag set after the change.
    pub fn get_new_window_state(&self) -> (r: WindowState)
        ensures
            r == self.new_window_state,
    {
        self.new_window_state
    }
}

/// The argument shape of a signal, recorded when a handler is connected and
/// used to pick the one trampoline that marshals that shape.
#[derive(Clone, Copy, Debug, Eq, PartialEq, Structural)]
pub enum PayloadShape {
    /// No arguments beyond the emitting object.
    NoArgs,
    /// A single enum tag: the direction of a focus move.
    Direction,
    /// A single native truth value.
    Flag,
    /// A single native counter or response code.
    Count,
    /// A single unsigned native value, widened for the handler.
    Accel,
    /// A tooltip query: a position and whether it came from the keyboard.
    Query,
    /// The fields read through a window-state event struct pointer.
    State,
    /// A cursor move: a movement-step tag, a count, and a truth value.
    MoveCursor,
    /// The bytes of a C string argument.
    Text,
}

/// Raw native arguments, exactly as the dispatcher hands them over the ABI.
#[derive(Clone, Debug, Eq, PartialEq)]
pub enum RawEvent {
    NoArgs,
    /// An enum argument as its native tag.
    EnumTag(i32),
    /// A native truth value: zero is false, anything else is true.
    Truth(i32),
    /// A native signed counter or response code.
    Int(i32),
    /// A native unsigned value.
    Uint(u32),
    /// A tooltip query position and a keyboard truth value.
    Query { x: i32, y: i32, keyboard: i32 },
    /// The two masks read through a window-state event struct pointer.
    State { changed_mask: u32, new_window_state: u32 },
    /// A cursor move: movement-step tag, count, extend-selection truth value.
    MoveCursor { step: i32, count: i32, extend: i32 },
    /// The bytes of a C string argument, without the terminating NUL.
    Text(Vec<u8>),
}

/// The typed arguments a handler receives.
#[derive(Clone, Debug, Eq, PartialEq)]
pub enum EventPayload {
    NoArgs,
    Direction(DirectionType),
    Flag(bool),
    Count(i32),
    /// A native unsigned value widened to the handler's word size.
    Accel(u64),
    Query { x: i32, y: i32, keyboard: bool },
    State(EventWindowState),
    MoveCursor { step: MovementStep, count: i32, extend: bool },
    /// Text bytes, guaranteed valid UTF-8 by marshalling.
    Text(Vec<u8>),
}

/// The only way marshalling can fail: string bytes that are not valid UTF-8.
#[derive(Clone, Copy, Debug, Eq, PartialEq, Structural)]
pub enum MarshalError {
    InvalidText,
}

/// Whether raw arguments carry the given shape.
pub open spec fn raw_fits(shape: PayloadShape, raw: RawEvent) -> bool {
    match raw {
        RawEvent::NoArgs => shape == PayloadShape::NoArgs,
        RawEvent::EnumTag(_) => shape == PayloadShape::Direction,
        RawEvent::Truth(_) => shape == PayloadShape::Flag,
        RawEvent::Int(_) => shape == PayloadShape::Count,
        RawEvent::Uint(_) => shape == PayloadShape::Accel,
        RawEvent::Query { .. } => shape == PayloadShape::Query,
        RawEvent::State { .. } => shape == PayloadShape::State,
        RawEvent::MoveCursor { .. } => shape == PayloadShape::MoveCursor,
        RawEvent::Text(_) => shape == PayloadShape::Text,
    }
}

/// The shape a typed payload has.
pub open spec fn shape_of_payload(p: EventPayload) -> PayloadShape {
    match p {
        EventPayload::NoArgs => PayloadShape::NoArgs,
        EventPayload::Direction(_) => PayloadShape::Direction,
        EventPayload::Flag(_) => PayloadShape::Flag,
        EventPayload::Count(_) => PayloadShape::Count,
        EventPayload::Accel(_) => PayloadShape::Accel,
        EventPayload::Query { .. } => PayloadShape::Query,
        EventPayload::State(_) => PayloadShape::State,
        EventPayload::MoveCursor { .. } => PayloadShape::MoveCursor,
        EventPayload::Text(_) => PayloadShape::Text,
    }
}

/// Whether the raw arguments' text, if any, is valid UTF-8 — exactly the
/// condition under which marshalling succeeds.
pub open spec fn spec_text_ok(raw: RawEvent) -> bool {
    raw matches RawEvent::Text(b) ==> valid_utf8(b@)
}

/// The typed payload that raw arguments marshal to.
pub open spec fn spec_payload_of(raw: RawEvent) -> EventPayload {
    match raw {
        RawEvent::NoArgs => EventPayload::NoArgs,
        RawEvent::EnumTag(t) => EventPayload::Direction(spec_direction_from_i32(t)),
        RawEvent::Truth(g) => EventPayload::Flag(g != 0),
        RawEvent::Int(v) => EventPayload::Count(v),
        RawEvent::Uint(u) => EventPayload::Accel(u as u64),
        RawEvent::Query { x, y, keyboard } => EventPayload::Query { x, y, keyboard: keyboard != 0 },
        RawEvent::State { changed_mask, new_window_state } => EventPayload::State(
            EventWindowState {
                changed_mask: WindowState(changed_mask),
                new_window_state: WindowState(new_window_state),
            },
        ),
        RawEvent::MoveCursor { step, count, extend } => EventPayload::MoveCursor {
            step: spec_movement_step_from_i32(step),
            count,
            extend: extend != 0,
        },
        RawEvent::Text(b) => EventPayload::Text(b),
    }
}

/// Marshals raw native arguments into the typed payload a handler receives.
///
/// Fails exactly when a string argument is not valid UTF-8; every other raw
/// value marshals, and to the one payload [`spec_payload_of`] gives.
pub fn marshal(raw: RawEvent) -> (r: Result<EventPayload, MarshalError>)
    ensures
        r is Ok <==> spec_text_ok(raw),
        r matches Ok(p) ==> p == spec_payload_of(raw),
        r is Err ==> r == Result::<EventPayload, MarshalError>::Err(MarshalError::InvalidText),
{
    match raw {
        RawEvent::NoArgs => Ok(EventPayload::NoArgs),
        RawEvent::EnumTag(t) => Ok(EventPayload::Direction(direction_from_i32(t))),
        RawEvent::Truth(g) => Ok(EventPayload::Flag(bool_of_gboolean(g))),
        RawEvent::Int(v) => Ok(EventPayload::Count(v)),
        RawEvent::Uint(u) => Ok(EventPayload::Accel(u as u64)),
        RawEvent::Query { x, y, keyboard } => Ok(
            EventPayload::Query { x, y, keyboard: bool_of_gboolean(keyboard) },
        ),
        RawEvent::State { changed_mask, new_window_state } => Ok(
            EventPayload::State(
                EventWindowState {
                    changed_mask: WindowState(changed_mask),
                    new_window_state: WindowState(new_window_state),
                },
            ),
        ),
        RawEvent::MoveCursor { step, count, extend } => Ok(
            EventPayload::MoveCursor {
                step: movement_step_from_i32(step),
                count,
                extend: bool_of_gboolean(extend),
            },
        ),
        RawEvent::Text(b) => {
            if validate_utf8(&b) {
                Ok(EventPayload::Text(b))
            } else {
                Err(MarshalError::InvalidText)
            }
        },
    }
}

/// Marshalling keeps the shape: raw arguments of a shape marshal to a payload
/// of the same shape.
pub proof fn lemma_marshal_keeps_shape(shape: PayloadShape, raw: RawEvent)
    requires
        raw_fits(shape, raw),
    ensures
        shape_of_payload(spec_payload_of(raw)) == shape,
{
}

/// The canonical raw form of a typed payload: what a faithful native
/// dispatcher would hand over so that the handler sees exactly this payload.
pub open spec fn spec_raw_of(p: EventPayload) -> RawEvent {
    match p {
        EventPayload::NoArgs => RawEvent::NoArgs,
        EventPayload::Direction(d) => RawEvent::EnumTag(spec_direction_to_i32(d)),
        EventPayload::Flag(b) => RawEvent::Truth(spec_gboolean_of(b)),
        EventPayload::Count(v) => RawEvent::Int(v),
        EventPayload::Accel(a) => RawEvent::Uint(a as u32),
        EventPayload::Query { x, y, keyboard } => RawEvent::Query {
            x,
            y,
            keyboard: spec_gboolean_of(keyboard),
        },
        EventPayload::State(e) => RawEvent::State {
            changed_mask: e.changed_mask.0,
            new_window_state: e.new_window_state.0,
        },
        EventPayload::MoveCursor { step, count, extend } => RawEvent::MoveCursor {
            step: spec_movement_step_to_i32(step),
            count,
            extend: spec_gboolean_of(extend),
        },
        EventPayload::Text(b) => RawEvent::Text(b),
    }
}

/// A payload that the native side can represent faithfully: enum variants
/// round-trip through their tags, widened values fit their native width, and
/// text is valid UTF-8.
pub open spec fn payload_wf(p: EventPayload) -> bool {
    match p {
        EventPayload::Direction(d) => spec_direction_from_i32(spec_direction_to_i32(d)) == d,
        EventPayload::Accel(a) => a <= u32::MAX,
        EventPayload::MoveCursor { step, .. } => spec_movement_step_from_i32(
            spec_movement_step_to_i32(step),
        ) == step,
        EventPayload::Text(b) => valid_utf8(b@),
        _ => true,
    }
}

/// Round trip: marshalling the canonical raw form of a representable payload
/// succeeds and hands the handler exactly that payload.
pub proof fn lemma_payload_round_trip(p: EventPayload)
    requires
        payload_wf(p),
    ensures
        spec_text_ok(spec_raw_of(p)),
        spec_payload_of(spec_raw_of(p)) == p,
{
}

} // verus!

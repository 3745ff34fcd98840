//! Signal-handler result conventions and their native boolean encoding.
//!
//! The native dispatcher understands only a C truth value (`gboolean`, an
//! `i32` that is zero for false and nonzero for true) or no value at all.
//! Handlers instead speak in two small conventions: [`Inhibit`], which tells
//! the dispatcher whether to stop propagating an event to later handlers, and
//! [`Continue`], which tells a recurring source whether to re-arm itself.

use vstd::prelude::*;

verus! {

/// Marker for a tooltip object handed to query-tooltip handlers.
///
/// The native tooltip is owned by the toolkit for the duration of the call;
/// the bridge exposes only this placeholder.
pub struct Tooltip;

/// Whether to propagate the signal to other handlers: `true` stops propagation.
#[derive(Clone, Copy, Debug, Default, Eq, PartialEq, Structural)]
pub struct Inhibit(pub bool);

/// Whether a recurring (timer or idle) source stays armed: `false` removes it.
#[derive(Clone, Copy, Debug, Default, Eq, PartialEq, Structural)]
pub struct Continue(pub bool);

/// The native encoding of a truth value: nonzero means true, zero means false.
pub open spec fn spec_gboolean_of(b: bool) -> i32 {
    if b {
        1
    } else {
        0
    }
}

/// What a native truth value means: every nonzero value is true.
pub open spec fn spec_bool_of_gboolean(g: i32) -> bool {
    g != 0
}

/// Encodes a host boolean as the canonical native truth value.
pub fn gboolean_of(b: bool) -> (r: i32)
    ensures
        r == spec_gboolean_of(b),
{
    if b {
        1
    } else {
        0
    }
}

/// Reads a native truth value as a host boolean.
pub fn bool_of_gboolean(g: i32) -> (r: bool)
    ensures
        r == spec_bool_of_gboolean(g),
{
    g != 0
}

impl Inhibit {
    /// The native encoding of this propagation decision.
    pub fn to_glib(&self) -> (r: i32)
        ensures
            r == spec_gboolean_of(self.0),
    {
        gboolean_of(self.0)
    }
}

impl Continue {
    /// The native encoding of this re-arm decision.
    pub fn to_glib(&self) -> (r: i32)
        ensures
            r == spec_gboolean_of(self.0),
    {
        gboolean_of(self.0)
    }
}

/// Encoding a boolean and reading it back yields the same boolean: the
/// canonical native truth values are faithful in both directions.
pub proof fn lemma_gboolean_round_trip(b: bool)
    ensures
        spec_bool_of_gboolean(spec_gboolean_of(b)) == b,
{
}

} // verus!

//! A safe, verified model of a GUI toolkit's signal (event callback) bridge.
//!
//! The bridge registers host closures against native event sources, hands out
//! subscription identifiers, marshals raw native arguments into typed event
//! payloads on each dispatch, marshals handler replies back into the native
//! representation, and contains any abnormal exit at the dispatch boundary.
//! The native toolkit itself (object construction, the event loop, the C ABI)
//! stays outside this crate; the library owns the bookkeeping and the
//! marshalling rules, and every rule is stated as a contract and proved.

pub mod bridge;
pub mod dispatch;
pub mod enums;
pub mod payload;
pub mod signal;
pub mod text;
pub mod timer;

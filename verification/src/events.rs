//! Outbound signaling events. On the wire each is wrapped in an envelope
//! `{event_type, data}`; the numeric tags are fixed by the protocol and
//! stated in the `event_type` contracts. Encoding the envelope is left to
//! the transport layer.

use vstd::prelude::*;

verus! {

/// Reason code carried by a close event when the host disconnected.
pub const HOST_DISCONNECT: u16 = 0;

/// Pushed to a participant when its signaling connection opens: tells it
/// the UDP port of the session's relay.
#[derive(Clone, Copy, PartialEq, Eq, Structural, Debug)]
pub struct HelloEvent {
    /// Bound port of the session's relay socket.
    pub port: u16,
}

impl HelloEvent {
    /// Wire tag of the ready event.
    pub fn event_type(&self) -> (t: u32)
        ensures
            t == 1,
    {
        1
    }
}

/// Pushed to every remaining participant of a session when it is torn
/// down.
#[derive(Clone, Copy, PartialEq, Eq, Structural, Debug)]
pub struct CloseConnectionEvent {
    /// Why the session closed; `HOST_DISCONNECT` when the host's signaling
    /// connection went away.
    pub reason: u16,
}

impl CloseConnectionEvent {
    /// Wire tag of the close event.
    pub fn event_type(&self) -> (t: u32)
        ensures
            t == 2,
    {
        2
    }
}

} // verus!

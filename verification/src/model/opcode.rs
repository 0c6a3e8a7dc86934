//! The opcodes of the main gateway that this client knows.

use vstd::prelude::*;

verus! {

/// An event.
pub const DISPATCH: u8 = 0;

/// A heartbeat, or the request for one.
pub const HEARTBEAT: u8 = 1;

/// Opens a session.
pub const IDENTIFY: u8 = 2;

/// Joins or leaves a voice channel.
pub const VOICE_STATE_UPDATE: u8 = 4;

/// Takes up a session again.
pub const RESUME: u8 = 6;

/// The server wants the client to reconnect.
pub const RECONNECT: u8 = 7;

/// The session cannot be taken up again.
pub const INVALID_SESSION: u8 = 9;

/// The greeting of the server.
pub const HELLO: u8 = 10;

/// A heartbeat was received.
pub const HEARTBEAT_ACK: u8 = 11;

} // verus!

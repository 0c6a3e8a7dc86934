//! The opcodes of the voice gateway that carry the group handshake.

use vstd::prelude::*;

verus! {

/// Server to client, JSON: a transition is coming.
pub const PREPARE_TRANSITION: u8 = 21;

/// Server to client, JSON: the announced transition happens now.
pub const EXECUTE_TRANSITION: u8 = 22;

/// Client to server, JSON: ready for the announced transition.
pub const READY_FOR_TRANSITION: u8 = 23;

/// Server to client, JSON: an epoch is coming.
pub const PREPARE_EPOCH: u8 = 24;

/// Server to client, binary: the external sender of the group.
pub const EXTERNAL_SENDER: u8 = 25;

/// Client to server, binary: a key package.
pub const KEY_PACKAGE: u8 = 26;

/// Server to client, binary: proposals.
pub const PROPOSALS: u8 = 27;

/// Client to server, binary: a commit and a welcome.
pub const COMMIT_WELCOME: u8 = 28;

/// Server to client, binary: a commit to follow.
pub const ANNOUNCE_COMMIT: u8 = 29;

/// Server to client, binary: a welcome into the group.
pub const WELCOME: u8 = 30;

/// Client to server, JSON: the commit or welcome was not valid.
pub const INVALID_COMMIT_WELCOME: u8 = 31;

} // verus!

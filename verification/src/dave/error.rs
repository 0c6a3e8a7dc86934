//! What can go wrong with encrypted frames and with the group handshake.

use vstd::prelude::*;

verus! {

/// Why a frame could not be decrypted or a handshake message was refused.
#[derive(Clone, Copy, Debug, PartialEq, Eq, Structural)]
pub enum DaveError {
    /// The frame is shorter than the smallest trailer.
    FrameTooShort,
    /// The frame does not end with the DAVE marker.
    BadMagic,
    /// The trailer size is smaller than a trailer, or larger than the frame.
    BadSupplementalSize,
    /// The counter in the trailer is not a LEB128 number.
    BadNonce,
    /// The authentication tag does not match.
    BadTag,
    /// The signature key pair could not be made.
    KeyPair,
    /// The external sender is malformed.
    ExternalSender,
    /// The key package could not be built or serialised.
    KeyPackage,
    /// A welcome is too short to hold its transition number.
    WelcomeTooShort,
    /// The welcome is malformed.
    WelcomeMalformed,
    /// The welcome is not for this client, or does not check out.
    WelcomeRefused,
    /// There is no group yet.
    NoGroup,
    /// The commit is not a well-formed message of the group protocol.
    CommitMalformed,
    /// The group refused the message.
    CommitRefused,
    /// The commit checked out but could not be merged.
    CommitMerge,
    /// The message that should hold a commit holds something else.
    NotACommit,
    /// The group could not export a secret.
    Export,
}

} // verus!

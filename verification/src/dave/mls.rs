//! The client's side of the group handshake (MLS): its credential, its key packages,
//! the group it has joined, and the secrets that the group exports.
//!
//! What is claimed of the `openmls` crate's work on a group holds of builds in which its debug
//! assertions are off, as they are in a release build. With them on, a welcome or a message that
//! does not check out can stop the program, where it is otherwise refused with an error.

use openmls::prelude::tls_codec::{Deserialize, DeserializeBytes, Serialize};
use openmls::prelude::{
    BasicCredential, Capabilities, Ciphersuite, CredentialType, CredentialWithKey, Extensions,
    ExternalSender, KeyPackage, Lifetime, MlsGroup, MlsGroupJoinConfig, MlsMessageIn,
    OpenMlsProvider, ProcessedMessageContent, ProtocolMessage, ProtocolVersion,
    StagedCommit, StagedWelcome, Welcome, PURE_PLAINTEXT_WIRE_FORMAT_POLICY,
};
use openmls_basic_credential::SignatureKeyPair;
use openmls_rust_crypto::OpenMlsRustCrypto;
use vstd::prelude::*;
use vstd::slice::{slice_subrange, slice_to_vec};

use crate::bytes::{
    be16, be64, holds_bytes, le64, lemma_be32_len, push_be64, push_le64,
};
use crate::dave::error::DaveError;
use crate::dave::kdf::KEY_BYTES;
use crate::dave::wire::{is_readable, readable, Part};
use crate::dave::EXPORTER_LABEL;

verus! {

broadcast use lemma_be32_len;

/// The cipher suite of DAVE: P-256, AES-128-GCM and SHA-256.
pub const CIPHERSUITE: u16 = 2;

/// The version of the group protocol: MLS 1.0.
pub const MLS_VERSION: u16 = 1;

/// The type of a credential that holds nothing but an identity.
pub const BASIC_CREDENTIAL: u16 = 1;

/// `OpenMlsRustCrypto` of the `openmls_rust_crypto` crate: the ciphers and the key store of
/// the handshake. Nothing is claimed of what it holds.
#[verifier::external_type_specification]
#[verifier::external_body]
pub struct ExProvider(OpenMlsRustCrypto);

/// `SignatureKeyPair` of the `openmls_basic_credential` crate. Nothing is claimed of what it
/// holds.
#[verifier::external_type_specification]
#[verifier::external_body]
pub struct ExSigner(SignatureKeyPair);

/// `ExternalSender` of the `openmls` crate. Nothing is claimed of what it holds.
#[verifier::external_type_specification]
#[verifier::external_body]
pub struct ExExternalSender(ExternalSender);

/// `Welcome` of the `openmls` crate. Nothing is claimed of what it holds.
#[verifier::external_type_specification]
#[verifier::external_body]
pub struct ExWelcome(Welcome);

/// `StagedWelcome` of the `openmls` crate: a welcome that was opened. Nothing is claimed of
/// what it holds.
#[verifier::external_type_specification]
#[verifier::external_body]
pub struct ExStagedWelcome(StagedWelcome);

/// `MlsGroup` of the `openmls` crate: a group that the client is in. What is claimed of it
/// is said through the secrets that it exports and the number of its epoch.
#[verifier::external_type_specification]
#[verifier::external_body]
pub struct ExGroup(MlsGroup);

/// `ProtocolMessage` of the `openmls` crate. Nothing is claimed of what it holds.
#[verifier::external_type_specification]
#[verifier::external_body]
pub struct ExProtocolMessage(ProtocolMessage);

/// `StagedCommit` of the `openmls` crate: a commit that checked out and can be merged. What
/// is claimed of it is said through the number of the epoch that it brings.
#[verifier::external_type_specification]
#[verifier::external_body]
pub struct ExStagedCommit(StagedCommit);

/// The secrets that a group can export in its current epoch, by label, context and
/// length.
pub uninterp spec fn group_exports(group: MlsGroup) -> Map<(Seq<char>, Seq<u8>, nat), Seq<u8>>;

/// The number of the epoch that a group is in.
pub uninterp spec fn group_epoch(group: MlsGroup) -> u64;

/// The number of the epoch that a commit brings.
pub uninterp spec fn staged_epoch(staged: StagedCommit) -> u64;

/// The bytes are, whole, an external sender.
pub uninterp spec fn external_sender_reads(bytes: Seq<u8>) -> bool;

/// The bytes are, whole, a welcome.
pub uninterp spec fn welcome_reads(bytes: Seq<u8>) -> bool;

/// The bytes are, whole, a message of the group protocol.
pub uninterp spec fn protocol_message_reads(bytes: Seq<u8>) -> bool;

/// The bytes are, whole, an external sender in which all lengths are of a class in use.
pub open spec fn is_external_sender(bytes: Seq<u8>) -> bool {
    readable(Part::ExternalSender, bytes) && external_sender_reads(bytes)
}

/// The bytes are, whole, a welcome in which all lengths are of a class in use.
pub open spec fn is_welcome(bytes: Seq<u8>) -> bool {
    readable(Part::Welcome, bytes) && welcome_reads(bytes)
}

/// The bytes are, whole, a message of the group protocol in which all lengths are of a class
/// in use.
pub open spec fn is_protocol_message(bytes: Seq<u8>) -> bool {
    readable(Part::Message, bytes) && protocol_message_reads(bytes)
}

/// Calls `OpenMlsRustCrypto::default`: a provider with an empty key store.
#[verifier::external_body]
fn fresh_provider() -> (r: OpenMlsRustCrypto) {
    OpenMlsRustCrypto::default()
}

/// Calls `SignatureKeyPair::new` with the signature scheme of the cipher suite. The key
/// pair is random; for the suite with P-256 there always is one.
#[verifier::external_body]
fn fresh_signer(suite: u16) -> (r: Option<SignatureKeyPair>)
    ensures
        suite == CIPHERSUITE ==> r is Some,
{
    let suite = Ciphersuite::try_from(suite).ok()?;
    SignatureKeyPair::new(suite.signature_algorithm()).ok()
}

/// Calls `SignatureKeyPair::store` on the key store of the provider, and tells whether
/// the store took it. The store is in memory and takes every key pair.
#[verifier::external_body]
fn store_signer(signer: &SignatureKeyPair, provider: &OpenMlsRustCrypto) -> (r: bool)
    ensures
        r,
{
    signer.store(provider.storage()).is_ok()
}

/// Calls `ExternalSender::tls_deserialize_exact`. Whether it succeeds is a function of
/// the bytes, in which the lengths must be such that they can be read.
#[verifier::external_body]
fn read_external_sender(bytes: &[u8]) -> (r: Option<ExternalSender>)
    requires
        readable(Part::ExternalSender, bytes@),
    ensures
        r is Some == external_sender_reads(bytes@),
{
    ExternalSender::tls_deserialize_exact(bytes).ok()
}

/// What a client says it can do, in a leaf of the group's tree: the one version, the one
/// suite, no extensions, no proposals, and the one type of credential, each list with its
/// length in bytes in front.
pub open spec fn capability_bytes(version: u16, suite: u16, credential: u16) -> Seq<u8> {
    seq![2u8] + be16(version) + seq![2u8] + be16(suite) + seq![0u8, 0u8, 2u8] + be16(credential)
}

/// Calls `KeyPackage::builder` and `build` for a basic credential with the identity, the
/// signer's public key, these capabilities and the lifetime in the given bytes, then
/// `tls_serialize_detached`. A key package starts with the protocol version, which is one,
/// and the suite, and holds the identity, the capabilities and the lifetime as they were
/// given. The rest is fresh random keys and a signature, of which nothing is claimed.
#[verifier::external_body]
fn build_key_package(
    provider: &OpenMlsRustCrypto,
    signer: &SignatureKeyPair,
    identity: Vec<u8>,
    version: u16,
    suite: u16,
    credential: u16,
    lifetime: &[u8],
) -> (r: Option<Vec<u8>>)
    requires
        identity@.len() == 8,
    ensures
        r is Some ==> {
            let bytes = r->Some_0@;
            &&& bytes.len() >= 4
            &&& bytes.take(4) == be16(1) + be16(suite)
            &&& holds_bytes(bytes, identity@)
            &&& holds_bytes(bytes, capability_bytes(version, suite, credential))
            &&& holds_bytes(bytes, lifetime@)
        },
{
    let suite = Ciphersuite::try_from(suite).ok()?;
    let types = [CredentialType::from(credential)];
    let versions = [ProtocolVersion::from(version)];
    let capabilities =
        Capabilities::new(Some(&versions), Some(&[suite]), Some(&[]), Some(&[]), Some(&types));
    let credential = BasicCredential::new(identity).into();
    let with_key = CredentialWithKey { credential, signature_key: signer.public().into() };
    let bundle = KeyPackage::builder()
        .key_package_extensions(Extensions::empty())
        .leaf_node_capabilities(capabilities)
        .key_package_lifetime(Lifetime::tls_deserialize_exact_bytes(lifetime).ok()?)
        .build(suite, provider, signer, with_key)
        .ok()?;
    bundle.key_package().tls_serialize_detached().ok()
}

/// The bytes are a key package of the user: they start with the version and the suite, and
/// hold the user's id, what the client can do, and a lifetime that spans all of time.
pub open spec fn is_key_package(bytes: Seq<u8>, user_id: u64) -> bool {
    &&& bytes.len() >= 4
    &&& bytes.take(4) == be16(MLS_VERSION) + be16(CIPHERSUITE)
    &&& holds_bytes(bytes, be64(user_id))
    &&& holds_bytes(bytes, capability_bytes(MLS_VERSION, CIPHERSUITE, BASIC_CREDENTIAL))
    &&& holds_bytes(bytes, be64(0) + be64(u64::MAX))
}

/// Calls `Welcome::tls_deserialize_exact`. Whether it succeeds is a function of the
/// bytes, in which the lengths must be such that they can be read.
#[verifier::external_body]
fn read_welcome(bytes: &[u8]) -> (r: Option<Welcome>)
    requires
        readable(Part::Welcome, bytes@),
    ensures
        r is Some == welcome_reads(bytes@),
{
    Welcome::tls_deserialize_exact(bytes).ok()
}

/// Calls `StagedWelcome::new_from_welcome` for a group with handshake messages in the
/// clear, whose own welcomes carry the ratchet tree where `tree_in_welcome` says so. What
/// comes back depends on the key packages in the provider's store, so nothing is claimed of
/// it. A welcome whose confirmation tag is wrong is refused; a build with debug assertions
/// stops at it instead, and at lengths out of class in what the welcome holds encrypted.
#[verifier::external_body]
fn stage_welcome(
    provider: &OpenMlsRustCrypto,
    welcome: Welcome,
    tree_in_welcome: bool,
) -> (r: Option<StagedWelcome>) {
    let config = MlsGroupJoinConfig::builder()
        .use_ratchet_tree_extension(tree_in_welcome)
        .wire_format_policy(PURE_PLAINTEXT_WIRE_FORMAT_POLICY)
        .build();
    StagedWelcome::new_from_welcome(provider, &config, welcome, None).ok()
}

/// Calls `StagedWelcome::into_group`, which writes the group to the provider's store.
/// Nothing is claimed of the group.
#[verifier::external_body]
fn enter_group(provider: &OpenMlsRustCrypto, staged: StagedWelcome) -> (r: Option<MlsGroup>) {
    staged.into_group(provider).ok()
}

/// Calls `MlsGroup::epoch` and `GroupEpoch::as_u64`: the number of the current epoch.
#[verifier::external_body]
fn epoch_of(group: &MlsGroup) -> (r: u64)
    ensures
        r == group_epoch(*group),
{
    group.epoch().as_u64()
}

/// Calls `MlsMessageIn::tls_deserialize_exact` and `try_into_protocol_message`. Whether both
/// succeed is a function of the bytes, in which the lengths must be such that they can be
/// read.
#[verifier::external_body]
fn read_protocol_message(bytes: &[u8]) -> (r: Option<ProtocolMessage>)
    requires
        readable(Part::Message, bytes@),
    ensures
        r is Some == protocol_message_reads(bytes@),
{
    MlsMessageIn::tls_deserialize_exact(bytes).ok()?.try_into_protocol_message().ok()
}

/// What the group made of a message.
#[derive(Clone, Copy, Debug, PartialEq, Eq, Structural)]
pub enum Processed {
    /// The group refused the message.
    Refused,
    /// The message holds something other than a commit.
    NotACommit,
    /// The message holds a commit that checked out.
    Commit,
}

/// Calls `MlsGroup::process_message` and `ProcessedMessage::into_content`, and hands out the
/// commit where the message holds one. It changes neither the epoch nor what the group
/// exports. A commit that checked out brings the next epoch, so there must be one. A message
/// that does not decrypt is refused, and so is a commit that does not fit the tree of the
/// group; a build with debug assertions can stop at them instead.
#[verifier::external_body]
fn process_message(
    group: &mut MlsGroup,
    provider: &OpenMlsRustCrypto,
    message: ProtocolMessage,
) -> (r: (Processed, Option<StagedCommit>))
    requires
        group_epoch(*old(group)) < u64::MAX,
    ensures
        group_epoch(*final(group)) == group_epoch(*old(group)),
        group_exports(*final(group)) == group_exports(*old(group)),
        r.1 is Some == (r.0 == Processed::Commit),
        r.1 is Some ==> staged_epoch(r.1->Some_0) == group_epoch(*old(group)) + 1,
{
    match group.process_message(provider, message).map(|m| m.into_content()) {
        Err(_) => (Processed::Refused, None),
        Ok(ProcessedMessageContent::StagedCommitMessage(staged)) => {
            (Processed::Commit, Some(*staged))
        }
        Ok(_) => (Processed::NotACommit, None),
    }
}

/// Calls `MlsGroup::merge_staged_commit`, and tells whether it succeeded: the group is then
/// in the epoch that the commit brings. What that one exports comes out of the commit and is
/// not stated, nor is what a merge that failed leaves behind.
#[verifier::external_body]
fn merge_commit(group: &mut MlsGroup, provider: &OpenMlsRustCrypto, staged: StagedCommit) -> (r:
    bool)
    ensures
        r ==> group_epoch(*final(group)) == staged_epoch(staged),
{
    group.merge_staged_commit(provider, staged).is_ok()
}

/// What became of a message that should hold a commit.
#[derive(Clone, Copy, Debug, PartialEq, Eq, Structural)]
pub enum Followed {
    /// The group refused the message.
    Refused,
    /// The message holds something else.
    NotACommit,
    /// The commit could not be merged.
    NotMerged,
    /// The commit was merged.
    Merged,
}

/// Calls `MlsGroup::export_secret`: the secret of the current epoch for the label, the
/// context and the length, where the group exports one. The label must fit a vector of the
/// wire format.
#[verifier::external_body]
fn export_secret(
    group: &MlsGroup,
    provider: &OpenMlsRustCrypto,
    label: &str,
    context: &[u8],
    length: usize,
) -> (r: Option<Vec<u8>>)
    requires
        label@.len() <= u16::MAX,
    ensures
        r is Some == group_exports(*group).contains_key((label@, context@, length as nat)),
        r is Some ==> r->Some_0@ == group_exports(*group)[(label@, context@, length as nat)],
{
    group.export_secret(provider, label, context, length).ok()
}

/// What became of a message, by what the group made of it and whether the commit in it, if
/// any, was merged.
pub fn followed(processed: Processed, merged: bool) -> (r: Followed)
    ensures
        r == (match processed {
            Processed::Refused => Followed::Refused,
            Processed::NotACommit => Followed::NotACommit,
            Processed::Commit => if merged {
                Followed::Merged
            } else {
                Followed::NotMerged
            },
        }),
{
    match processed {
        Processed::Refused => Followed::Refused,
        Processed::NotACommit => Followed::NotACommit,
        Processed::Commit => if merged {
            Followed::Merged
        } else {
            Followed::NotMerged
        },
    }
}

/// What following a message that should hold a commit comes to.
pub fn commit_result(followed: Followed) -> (r: Result<(), DaveError>)
    ensures
        r == (match followed {
            Followed::Refused => Err::<(), DaveError>(DaveError::CommitRefused),
            Followed::NotACommit => Err::<(), DaveError>(DaveError::NotACommit),
            Followed::NotMerged => Err::<(), DaveError>(DaveError::CommitMerge),
            Followed::Merged => Ok::<(), DaveError>(()),
        }),
{
    match followed {
        Followed::Refused => Err(DaveError::CommitRefused),
        Followed::NotACommit => Err(DaveError::NotACommit),
        Followed::NotMerged => Err(DaveError::CommitMerge),
        Followed::Merged => Ok(()),
    }
}

/// What following a welcome can come to, for the session before and after it. The payload is
/// the transition number, two bytes, and the welcome. Whether a welcome that reads as one
/// lets the client in is up to the group.
pub open spec fn welcome_outcome(
    before: MlsSession,
    after: MlsSession,
    payload: Seq<u8>,
    r: Result<(), DaveError>,
) -> bool {
    &&& after.user() == before.user()
    &&& after.knows_sender() == before.knows_sender()
    &&& if payload.len() < 2 {
        r == Err::<(), DaveError>(DaveError::WelcomeTooShort)
    } else if !is_welcome(payload.skip(2)) {
        r == Err::<(), DaveError>(DaveError::WelcomeMalformed)
    } else {
        r is Ok || r == Err::<(), DaveError>(DaveError::WelcomeRefused)
    }
    &&& r is Ok ==> after.in_group()
    &&& r is Err ==> after.same_group(&before)
}

/// What following a commit can come to, for the session before and after it. Whether a
/// message is accepted is up to the group.
pub open spec fn commit_outcome(
    before: MlsSession,
    after: MlsSession,
    message: Seq<u8>,
    r: Result<(), DaveError>,
) -> bool {
    &&& after.user() == before.user()
    &&& after.knows_sender() == before.knows_sender()
    &&& after.in_group() == before.in_group()
    &&& if !before.in_group() {
        r == Err::<(), DaveError>(DaveError::NoGroup)
    } else if !is_protocol_message(message) {
        r == Err::<(), DaveError>(DaveError::CommitMalformed)
    } else if before.epoch_number() == u64::MAX {
        r == Err::<(), DaveError>(DaveError::CommitRefused)
    } else {
        ||| r is Ok
        ||| r == Err::<(), DaveError>(DaveError::CommitRefused)
        ||| r == Err::<(), DaveError>(DaveError::NotACommit)
        ||| r == Err::<(), DaveError>(DaveError::CommitMerge)
    }
    &&& r is Ok ==> after.epoch_number() == before.epoch_number() + 1
    &&& r is Err && r != Err::<(), DaveError>(DaveError::CommitMerge) ==> after.same_group(
        &before,
    )
}

/// The exporter key for the media of a user: the label of DAVE, the user's id as eight
/// bytes, least significant first, and the length of an AES-128 key.
pub open spec fn media_export(user_id: u64) -> (Seq<char>, Seq<u8>, nat) {
    (EXPORTER_LABEL@, le64(user_id), 16)
}

/// The state of the client in the handshake of one call.
pub struct MlsSession {
    provider: OpenMlsRustCrypto,
    signer: SignatureKeyPair,
    identity: Vec<u8>,
    user_id: u64,
    external_sender: Option<ExternalSender>,
    group: Option<MlsGroup>,
}

impl MlsSession {
    /// The identity in the credential is the user's id, most significant byte first.
    pub closed spec fn wf(&self) -> bool {
        self.identity@ == be64(self.user_id)
    }

    /// The user that this client is.
    pub closed spec fn user(&self) -> u64 {
        self.user_id
    }

    /// The external sender of the group is known.
    pub closed spec fn knows_sender(&self) -> bool {
        self.external_sender is Some
    }

    /// The client has joined the group.
    pub closed spec fn in_group(&self) -> bool {
        self.group is Some
    }

    /// The epoch of the group; zero before there is one.
    pub closed spec fn epoch_number(&self) -> u64 {
        match self.group {
            Some(g) => group_epoch(g),
            None => 0,
        }
    }

    /// The secrets that the group exports; none before there is one.
    pub closed spec fn exports(&self) -> Map<(Seq<char>, Seq<u8>, nat), Seq<u8>> {
        match self.group {
            Some(g) => group_exports(g),
            None => Map::empty(),
        }
    }

    /// The base secret that the group gives for the media of a user.
    pub open spec fn media_secret(&self, user_id: u64) -> Option<Seq<u8>> {
        if self.in_group() && self.exports().contains_key(media_export(user_id)) {
            Some(self.exports()[media_export(user_id)])
        } else {
            None
        }
    }

    /// The group is the same, with the same secrets.
    pub open spec fn same_group(&self, other: &MlsSession) -> bool {
        &&& self.in_group() == other.in_group()
        &&& self.epoch_number() == other.epoch_number()
        &&& self.exports() == other.exports()
    }

    /// A session outside any group, with a fresh signature key.
    pub fn new(user_id: u64) -> (r: Result<MlsSession, DaveError>)
        ensures
            r is Ok,
            r->Ok_0.wf(),
            r->Ok_0.user() == user_id,
            !r->Ok_0.knows_sender(),
            !r->Ok_0.in_group(),
    {
        let provider = fresh_provider();
        let signer = match fresh_signer(CIPHERSUITE) {
            Some(signer) => signer,
            None => {
                return Err(DaveError::KeyPair);
            },
        };
        if !store_signer(&signer, &provider) {
            return Err(DaveError::KeyPair);
        }
        let mut identity: Vec<u8> = Vec::new();
        push_be64(&mut identity, user_id);
        assert(identity@ =~= be64(user_id));
        Ok(
            MlsSession {
                provider,
                signer,
                identity,
                user_id,
                external_sender: None,
                group: None,
            },
        )
    }

    /// Keeps the external sender that the gateway sends. Bytes that are not one are
    /// refused, and the session stays as it was.
    pub fn set_external_sender(&mut self, bytes: &[u8]) -> (r: Result<(), DaveError>)
        requires
            old(self).wf(),
        ensures
            final(self).wf(),
            final(self).user() == old(self).user(),
            final(self).same_group(old(self)),
            r == (if is_external_sender(bytes@) {
                Ok::<(), DaveError>(())
            } else {
                Err::<(), DaveError>(DaveError::ExternalSender)
            }),
            final(self).knows_sender() == (old(self).knows_sender() || is_external_sender(bytes@)),
    {
        if !is_readable(Part::ExternalSender, bytes) {
            return Err(DaveError::ExternalSender);
        }
        match read_external_sender(bytes) {
            Some(sender) => {
                self.external_sender = Some(sender);
                Ok(())
            },
            None => Err(DaveError::ExternalSender),
        }
    }

    /// A fresh key package for this client, to be sent to the gateway. Its lifetime spans
    /// all of time, so that no clock decides whether it is valid.
    pub fn key_package_bytes(&self) -> (r: Result<Vec<u8>, DaveError>)
        requires
            self.wf(),
        ensures
            match r {
                Ok(bytes) => is_key_package(bytes@, self.user()),
                Err(e) => e == DaveError::KeyPackage,
            },
    {
        let mut lifetime: Vec<u8> = Vec::new();
        push_be64(&mut lifetime, 0);
        push_be64(&mut lifetime, u64::MAX);
        assert(lifetime@ =~= be64(0) + be64(u64::MAX));
        let identity = slice_to_vec(self.identity.as_slice());
        match build_key_package(
            &self.provider,
            &self.signer,
            identity,
            MLS_VERSION,
            CIPHERSUITE,
            BASIC_CREDENTIAL,
            lifetime.as_slice(),
        ) {
            Some(bytes) => Ok(bytes),
            None => Err(DaveError::KeyPackage),
        }
    }

    /// Enters the group that joining gave, or says that there is none.
    pub fn adopt(&mut self, joined: Option<MlsGroup>) -> (r: Result<(), DaveError>)
        requires
            old(self).wf(),
        ensures
            final(self).wf(),
            final(self).user() == old(self).user(),
            final(self).knows_sender() == old(self).knows_sender(),
            match joined {
                Some(group) => {
                    &&& r == Ok::<(), DaveError>(())
                    &&& final(self).in_group()
                    &&& final(self).epoch_number() == group_epoch(group)
                    &&& final(self).exports() == group_exports(group)
                },
                None => {
                    &&& r == Err::<(), DaveError>(DaveError::WelcomeRefused)
                    &&& final(self).same_group(old(self))
                },
            },
    {
        match joined {
            Some(group) => {
                self.group = Some(group);
                Ok(())
            },
            None => Err(DaveError::WelcomeRefused),
        }
    }

    /// Follows a welcome into the group. The payload is the transition number, two bytes,
    /// and the welcome. Where it is refused, the session stays in the group it was in.
    pub fn process_welcome(&mut self, payload: &[u8]) -> (r: Result<(), DaveError>)
        requires
            old(self).wf(),
        ensures
            final(self).wf(),
            welcome_outcome(*old(self), *final(self), payload@, r),
    {
        if payload.len() < 2 {
            return Err(DaveError::WelcomeTooShort);
        }
        assert(payload@.skip(2) =~= payload@.subrange(2, payload@.len() as int));
        let bytes = slice_subrange(payload, 2, payload.len());
        if !is_readable(Part::Welcome, bytes) {
            return Err(DaveError::WelcomeMalformed);
        }
        let welcome = match read_welcome(bytes) {
            Some(welcome) => welcome,
            None => {
                return Err(DaveError::WelcomeMalformed);
            },
        };
        let joined = match stage_welcome(&self.provider, welcome, true) {
            Some(staged) => enter_group(&self.provider, staged),
            None => None,
        };
        self.adopt(joined)
    }

    /// Tells whether the client is in the group.
    pub fn has_group(&self) -> (r: bool)
        ensures
            r == self.in_group(),
    {
        self.group.is_some()
    }

    /// The epoch of the group; zero before there is one.
    pub fn epoch(&self) -> (r: u64)
        ensures
            r == self.epoch_number(),
    {
        match &self.group {
            Some(group) => epoch_of(group),
            None => 0,
        }
    }

    /// Follows a commit that the gateway announced: where it checks out, the group moves
    /// to the next epoch. A message that is refused, or is no commit, leaves the epoch and
    /// its secrets as they were. In the last epoch that there can be every message is refused.
    pub fn process_commit(&mut self, mls_message: &[u8]) -> (r: Result<(), DaveError>)
        requires
            old(self).wf(),
        ensures
            final(self).wf(),
            commit_outcome(*old(self), *final(self), mls_message@, r),
    {
        match &mut self.group {
            None => Err(DaveError::NoGroup),
            Some(group) => {
                if !is_readable(Part::Message, mls_message) {
                    return Err(DaveError::CommitMalformed);
                }
                let message = match read_protocol_message(mls_message) {
                    Some(message) => message,
                    None => {
                        return Err(DaveError::CommitMalformed);
                    },
                };
                if epoch_of(group) == u64::MAX {
                    return commit_result(Followed::Refused);
                }
                let (processed, staged) = process_message(group, &self.provider, message);
                let merged = match staged {
                    Some(staged) => merge_commit(group, &self.provider, staged),
                    None => false,
                };
                commit_result(followed(processed, merged))
            },
        }
    }

    /// The base secret for the media of a sender in the current epoch.
    pub fn media_base_secret_for(&self, user_id: u64) -> (r: Result<Vec<u8>, DaveError>)
        ensures
            match r {
                Ok(secret) => self.media_secret(user_id) == Some(secret@),
                Err(e) => self.media_secret(user_id) is None && e == (if self.in_group() {
                    DaveError::Export
                } else {
                    DaveError::NoGroup
                }),
            },
    {
        match &self.group {
            None => Err(DaveError::NoGroup),
            Some(group) => {
                let mut context: Vec<u8> = Vec::new();
                push_le64(&mut context, user_id);
                assert(context@ =~= le64(user_id));
                proof {
                    reveal_strlit("Discord Secure Frames v0");
                }
                assert(EXPORTER_LABEL@.len() == 24);
                match export_secret(
                    group,
                    &self.provider,
                    EXPORTER_LABEL,
                    context.as_slice(),
                    KEY_BYTES,
                ) {
                    Some(secret) => Ok(secret),
                    None => Err(DaveError::Export),
                }
            },
        }
    }

    /// The base secret for the media that this client sends.
    pub fn media_base_secret(&self) -> (r: Result<Vec<u8>, DaveError>)
        ensures
            match r {
                Ok(secret) => self.media_secret(self.user()) == Some(secret@),
                Err(e) => self.media_secret(self.user()) is None && e == (if self.in_group() {
                    DaveError::Export
                } else {
                    DaveError::NoGroup
                }),
            },
    {
        self.media_base_secret_for(self.user_id)
    }
}

} // verus!

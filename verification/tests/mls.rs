//! The group handshake against a real group.

use discord_lite::dave::error::DaveError;
use discord_lite::dave::mls::{commit_result, followed, Followed, MlsSession, Processed};
use discord_lite::dave::{FrameCryptor, EXPORTER_LABEL};
use discord_lite::json::Json;
use discord_lite::voice::keys::{MediaFrame, MediaKeys};
use discord_lite::voice::session::{VoiceAction, VoiceSession};
use discord_lite::voice::VoiceConnInfo;
use openmls::prelude::tls_codec::{Deserialize, Serialize};
use openmls::prelude::{
    BasicCredential, Capabilities, Ciphersuite, CredentialType, CredentialWithKey, KeyPackageIn,
    LeafNodeParameters, MlsGroup, MlsGroupCreateConfig, OpenMlsProvider, ProtocolVersion,
    PURE_PLAINTEXT_WIRE_FORMAT_POLICY,
};
use openmls_basic_credential::SignatureKeyPair;
use openmls_rust_crypto::OpenMlsRustCrypto;

const SUITE: Ciphersuite = Ciphersuite::MLS_128_DHKEMP256_AES128GCM_SHA256_P256;

struct Other {
    provider: OpenMlsRustCrypto,
    signer: SignatureKeyPair,
    group: MlsGroup,
}

fn other(user_id: u64) -> Other {
    let provider = OpenMlsRustCrypto::default();
    let signer = SignatureKeyPair::new(SUITE.signature_algorithm()).unwrap();
    signer.store(provider.storage()).unwrap();
    let credential = CredentialWithKey {
        credential: BasicCredential::new(user_id.to_be_bytes().to_vec()).into(),
        signature_key: signer.public().into(),
    };
    let config = MlsGroupCreateConfig::builder()
        .ciphersuite(SUITE)
        .use_ratchet_tree_extension(true)
        .wire_format_policy(PURE_PLAINTEXT_WIRE_FORMAT_POLICY)
        .capabilities(Capabilities::new(
            Some(&[ProtocolVersion::Mls10]),
            Some(&[SUITE]),
            Some(&[]),
            Some(&[]),
            Some(&[CredentialType::Basic]),
        ))
        .build();
    let group = MlsGroup::new(&provider, &signer, &config, credential).unwrap();
    Other { provider, signer, group }
}

/// Adds the session to the group; gives the payload of the welcome.
fn invite(other: &mut Other, package: &[u8]) -> Vec<u8> {
    let package = KeyPackageIn::tls_deserialize_exact(package)
        .unwrap()
        .validate(other.provider.crypto(), ProtocolVersion::Mls10)
        .unwrap();
    let (_, welcome, _) =
        other.group.add_members(&other.provider, &other.signer, &[package]).unwrap();
    other.group.merge_pending_commit(&other.provider).unwrap();
    // A message starts with its version and its wire format, two bytes each.
    let message = welcome.tls_serialize_detached().unwrap();
    let mut payload = vec![0u8, 9];
    payload.extend_from_slice(&message[4..]);
    payload
}

#[test]
fn fresh_session_has_no_group() {
    let session = MlsSession::new(7).unwrap();
    assert!(!session.has_group());
    assert_eq!(session.epoch(), 0);
    assert_eq!(session.media_base_secret(), Err(DaveError::NoGroup));
    assert_eq!(session.media_base_secret_for(1), Err(DaveError::NoGroup));
}

#[test]
fn key_package_carries_the_identity() {
    let id = 0x0102030405060708u64;
    let session = MlsSession::new(id).unwrap();
    let package = session.key_package_bytes().unwrap();
    assert!(package.windows(8).any(|w| w == id.to_be_bytes()));
    // The protocol version and the cipher suite come first.
    assert_eq!(&package[..4], &[0, 1, 0, 2]);
    // The lifetime spans all of time.
    let mut lifetime = vec![0u8; 8];
    lifetime.extend_from_slice(&[0xff; 8]);
    assert!(package.windows(16).any(|w| w == lifetime));
    // One version, one suite, no extensions, no proposals, basic credentials.
    let able = [2u8, 0, 1, 2, 0, 2, 0, 0, 2, 0, 1];
    assert!(package.windows(able.len()).any(|w| w == able));
}

#[test]
fn welcome_lets_the_session_in() {
    let mut session = MlsSession::new(42).unwrap();
    let mut host = other(99);
    let welcome = invite(&mut host, &session.key_package_bytes().unwrap());
    assert_eq!(session.process_welcome(&welcome), Ok(()));
    assert!(session.has_group());
    assert_eq!(session.epoch(), host.group.epoch().as_u64());
    for id in [42u64, 99] {
        let theirs = host
            .group
            .export_secret(&host.provider, EXPORTER_LABEL, &id.to_le_bytes(), 16)
            .unwrap();
        assert_eq!(session.media_base_secret_for(id), Ok(theirs));
    }
    assert_eq!(session.media_base_secret(), session.media_base_secret_for(42));
    assert_ne!(session.media_base_secret_for(42), session.media_base_secret_for(99));
}

#[test]
fn commit_moves_the_epoch_on() {
    let mut session = MlsSession::new(42).unwrap();
    let mut host = other(99);
    let welcome = invite(&mut host, &session.key_package_bytes().unwrap());
    session.process_welcome(&welcome).unwrap();
    let before = session.epoch();
    let old_secret = session.media_base_secret().unwrap();

    let guest = MlsSession::new(5).unwrap();
    let package = KeyPackageIn::tls_deserialize_exact(guest.key_package_bytes().unwrap())
        .unwrap()
        .validate(host.provider.crypto(), ProtocolVersion::Mls10)
        .unwrap();
    let (commit, _, _) = host.group.add_members(&host.provider, &host.signer, &[package]).unwrap();
    host.group.merge_pending_commit(&host.provider).unwrap();
    let commit = commit.tls_serialize_detached().unwrap();

    assert_eq!(session.process_commit(&commit), Ok(()));
    assert_eq!(session.epoch(), before + 1);
    let theirs = host
        .group
        .export_secret(&host.provider, EXPORTER_LABEL, &42u64.to_le_bytes(), 16)
        .unwrap();
    assert_eq!(session.media_base_secret(), Ok(theirs.clone()));
    assert_ne!(theirs, old_secret);
    // The same commit is of an epoch that is over.
    assert_eq!(session.process_commit(&commit), Err(DaveError::CommitRefused));
    assert_eq!(session.epoch(), before + 1);
    assert_eq!(session.media_base_secret(), Ok(theirs));
}

#[test]
fn outcomes_of_a_commit() {
    assert_eq!(commit_result(Followed::Merged), Ok(()));
    assert_eq!(commit_result(Followed::Refused), Err(DaveError::CommitRefused));
    assert_eq!(commit_result(Followed::NotACommit), Err(DaveError::NotACommit));
    assert_eq!(commit_result(Followed::NotMerged), Err(DaveError::CommitMerge));
    for merged in [false, true] {
        assert_eq!(followed(Processed::Refused, merged), Followed::Refused);
        assert_eq!(followed(Processed::NotACommit, merged), Followed::NotACommit);
    }
    assert_eq!(followed(Processed::Commit, true), Followed::Merged);
    assert_eq!(followed(Processed::Commit, false), Followed::NotMerged);
}

#[test]
fn a_proposal_is_no_commit() {
    let mut session = MlsSession::new(42).unwrap();
    let mut host = other(99);
    let welcome = invite(&mut host, &session.key_package_bytes().unwrap());
    session.process_welcome(&welcome).unwrap();
    let before = (session.epoch(), session.media_base_secret());
    let (proposal, _) = host.group.propose_self_update(
        &host.provider,
        &host.signer,
        LeafNodeParameters::default(),
    ).unwrap();
    let proposal = proposal.tls_serialize_detached().unwrap();
    assert_eq!(session.process_commit(&proposal), Err(DaveError::NotACommit));
    assert_eq!((session.epoch(), session.media_base_secret()), before);
}

#[test]
fn an_encrypted_message_is_no_commit() {
    let mut session = MlsSession::new(42).unwrap();
    let mut host = other(99);
    let welcome = invite(&mut host, &session.key_package_bytes().unwrap());
    session.process_welcome(&welcome).unwrap();
    let before = (session.epoch(), session.media_base_secret());
    let message = host.group.create_message(&host.provider, &host.signer, b"hello").unwrap();
    let message = message.tls_serialize_detached().unwrap();
    // It is of the encrypted kind.
    assert_eq!(&message[..4], &[0, 1, 0, 2]);
    assert_eq!(session.process_commit(&message), Err(DaveError::NotACommit));
    assert_eq!((session.epoch(), session.media_base_secret()), before);
    // It can be decrypted only once.
    assert_eq!(session.process_commit(&message), Err(DaveError::CommitRefused));
}

#[test]
fn refusals_leave_the_session_as_it_was() {
    let mut session = MlsSession::new(42).unwrap();
    assert_eq!(session.process_commit(&[1, 2, 3]), Err(DaveError::NoGroup));
    assert_eq!(session.process_welcome(&[1]), Err(DaveError::WelcomeTooShort));
    assert_eq!(session.process_welcome(&[0, 1, 2]), Err(DaveError::WelcomeMalformed));
    // A welcome for someone else.
    let mut host = other(99);
    let someone = MlsSession::new(8).unwrap();
    let welcome = invite(&mut host, &someone.key_package_bytes().unwrap());
    assert_eq!(session.process_welcome(&welcome), Err(DaveError::WelcomeRefused));
    assert!(!session.has_group());

    let mut host = other(99);
    let welcome = invite(&mut host, &session.key_package_bytes().unwrap());
    session.process_welcome(&welcome).unwrap();
    assert_eq!(session.process_commit(&[1, 2, 3]), Err(DaveError::CommitMalformed));
    assert!(session.has_group());
    // An encrypted message of another group: an empty name, epoch 0, application data, and
    // three empty parts.
    let private = [0, 1, 0, 2, 0, 0, 0, 0, 0, 0, 0, 0, 0, 1, 0, 0, 0];
    assert_eq!(session.process_commit(&private), Err(DaveError::CommitRefused));
    assert_eq!(session.process_commit(&private[..16]), Err(DaveError::CommitMalformed));
}

#[test]
fn lengths_out_of_class_are_refused() {
    let mut session = MlsSession::new(42).unwrap();
    assert_eq!(session.set_external_sender(&[0xC0, 1, 2, 3]), Err(DaveError::ExternalSender));
    assert_eq!(
        session.set_external_sender(&[2, 1, 2, 0, 1, 0xFF, 65]),
        Err(DaveError::ExternalSender)
    );
    assert_eq!(session.process_welcome(&[0, 1, 0, 2, 0xC1]), Err(DaveError::WelcomeMalformed));
    let mut host = other(99);
    let welcome = invite(&mut host, &session.key_package_bytes().unwrap());
    session.process_welcome(&welcome).unwrap();
    // In front of the group, in an encrypted message, and in the content of a commit.
    let mut messages = vec![vec![0, 1, 0, 1, 0xC0]];
    messages.push(vec![0, 1, 0, 2, 0, 0, 0, 0, 0, 0, 0, 0, 0, 1, 0, 0xD0, 0]);
    let mut commit = vec![0, 1, 0, 1, 0];
    commit.extend_from_slice(&[0; 8]);
    commit.extend_from_slice(&[1, 0, 0, 0, 0, 0, 3, 0xE0]);
    messages.push(commit);
    for message in messages {
        assert_eq!(session.process_commit(&message), Err(DaveError::CommitMalformed));
    }
}

#[test]
fn external_sender_is_read_or_refused() {
    let mut session = MlsSession::new(1).unwrap();
    assert_eq!(session.set_external_sender(&[]), Err(DaveError::ExternalSender));
    // A key of two bytes, a basic credential with an identity of one.
    assert_eq!(session.set_external_sender(&[2, 1, 2, 0, 1, 1, 65]), Ok(()));
    assert_eq!(session.set_external_sender(&[2, 1, 2, 0, 1, 1, 65, 0]), Err(DaveError::ExternalSender));
}

fn num(n: u64) -> Json {
    Json::Number { exact: Some(n), whole: n }
}

fn message(op: u64, d: Vec<(&str, Json)>) -> Json {
    let d = Json::Object(d.into_iter().map(|(k, v)| (k.to_string(), v)).collect());
    Json::Object(vec![("op".to_string(), num(op)), ("d".to_string(), d)])
}

fn binary(op: u8, payload: &[u8]) -> Vec<u8> {
    let mut out = vec![0, 1, op];
    out.extend_from_slice(payload);
    out
}

fn speaking(ssrc: u64, user: &str) -> Json {
    message(5, vec![("ssrc", num(ssrc)), ("user_id", Json::Text(user.to_string()))])
}

#[test]
fn call_is_encrypted_from_welcome_to_downgrade() {
    let info = VoiceConnInfo {
        guild_id: "1".to_string(),
        channel_id: "2".to_string(),
        user_id: "42".to_string(),
        session_id: "s".to_string(),
        endpoint: "e".to_string(),
        token: "t".to_string(),
    };
    let mut session = VoiceSession::new(info);
    let mut keys = MediaKeys::new();
    let step = session.on_text(&mut keys, &message(4, vec![("dave_protocol_version", num(1))]));
    let package = match &step.actions[..] {
        [VoiceAction::SendBinary(b)] => b[1..].to_vec(),
        _ => panic!("no key package"),
    };
    // A sender that speaks before the client is in the group.
    session.on_text(&mut keys, &speaking(700, "99"));

    let mut host = other(99);
    let welcome = invite(&mut host, &package);
    let step = session.on_binary(&mut keys, &binary(30, &welcome));
    match &step.actions[..] {
        [VoiceAction::Notify { connected, text }, VoiceAction::Send(_)] => {
            assert!(*connected);
            assert_eq!(text, "voz: conectado (E2EE)");
        }
        _ => panic!("not welcomed"),
    }
    assert!(keys.is_active());

    let base = |host: &Other, id: u64| {
        host.group
            .export_secret(&host.provider, EXPORTER_LABEL, &id.to_le_bytes(), 16)
            .unwrap()
    };
    // What the client sends, the others open with the client's key, and the other way round.
    let sealed = keys.seal(b"hello");
    let mine = FrameCryptor::from_base_secret(&base(&host, 42));
    assert_eq!(mine.decrypt(&sealed), Ok(b"hello".to_vec()));
    let mut theirs = FrameCryptor::from_base_secret(&base(&host, 99));
    let frame = theirs.encrypt(b"hi").unwrap();
    assert!(matches!(keys.open(700, frame.clone()), MediaFrame::Audio(o) if o == b"hi"));
    assert!(matches!(keys.open(701, frame.clone()), MediaFrame::NoKey));
    assert!(matches!(keys.open(700, b"silence".to_vec()), MediaFrame::Filler));
    let mut broken = frame.clone();
    broken[0] ^= 1;
    assert!(matches!(keys.open(700, broken), MediaFrame::Undecryptable));
    // A sender that becomes known later gets its key then.
    session.on_text(&mut keys, &speaking(701, "99"));
    assert!(matches!(keys.open(701, frame.clone()), MediaFrame::Audio(_)));

    // A commit announced under a number takes effect when that number is executed.
    let guest = MlsSession::new(5).unwrap();
    let package = KeyPackageIn::tls_deserialize_exact(guest.key_package_bytes().unwrap())
        .unwrap()
        .validate(host.provider.crypto(), ProtocolVersion::Mls10)
        .unwrap();
    let (commit, _, _) = host.group.add_members(&host.provider, &host.signer, &[package]).unwrap();
    host.group.merge_pending_commit(&host.provider).unwrap();
    let mut payload = vec![0u8, 3];
    payload.extend_from_slice(&commit.tls_serialize_detached().unwrap());
    let step = session.on_binary(&mut keys, &binary(29, &payload));
    assert_eq!(step.actions.len(), 1);
    assert!(matches!(keys.open(700, frame.clone()), MediaFrame::Audio(_)));
    session.on_text(&mut keys, &message(22, vec![("transition_id", num(4))]));
    assert!(matches!(keys.open(700, frame.clone()), MediaFrame::Audio(_)));
    session.on_text(&mut keys, &message(22, vec![("transition_id", num(3))]));
    assert!(matches!(keys.open(700, frame.clone()), MediaFrame::Undecryptable));
    let mut theirs = FrameCryptor::from_base_secret(&base(&host, 99));
    let frame = theirs.encrypt(b"new").unwrap();
    assert!(matches!(keys.open(700, frame), MediaFrame::Audio(o) if o == b"new"));

    // Leaving encryption is announced, then executed.
    let prepare = message(21, vec![("protocol_version", num(0)), ("transition_id", num(8))]);
    session.on_text(&mut keys, &prepare);
    assert!(keys.is_active());
    session.on_text(&mut keys, &message(22, vec![("transition_id", num(8))]));
    assert!(!keys.is_active());
    assert_eq!(keys.seal(b"plain"), b"plain".to_vec());
    assert!(matches!(keys.open(700, b"plain".to_vec()), MediaFrame::Audio(_)));
}

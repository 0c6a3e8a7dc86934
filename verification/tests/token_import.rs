//! The tokens in the files of the official client.

use aes_gcm::aead::{Aead, KeyInit};
use aes_gcm::{Aes256Gcm, Key, Nonce};
use base64::engine::general_purpose::STANDARD;
use base64::Engine;
use discord_lite::json::Json;
use discord_lite::token_import::{
    decrypt_token, extract_candidates, is_storage_file, open_blob, protected_key, scan_text,
    Storage,
};

fn blob(key: &[u8; 32], plain: &[u8]) -> Vec<u8> {
    let cipher = Aes256Gcm::new(Key::<Aes256Gcm>::from_slice(key));
    let nonce = [4u8; 12];
    let mut out = b"v10".to_vec();
    out.extend_from_slice(&nonce);
    out.extend_from_slice(&cipher.encrypt(Nonce::from_slice(&nonce), plain).unwrap());
    out
}

fn plain_token() -> String {
    format!("{}.{}.{}", "A".repeat(24), "B".repeat(6), "C".repeat(27))
}

#[test]
fn blobs_open_with_their_key() {
    let key = [3u8; 32];
    let b = blob(&key, b"token");
    assert_eq!(open_blob(&b, &key), Some("token".to_string()));
    assert_eq!(open_blob(&b, &[5u8; 32]), None);
    assert_eq!(open_blob(&b[..30], &key), None);
    assert_eq!(open_blob(&blob(&key, &[0xff]), &key), None);
    assert_eq!(decrypt_token(&STANDARD.encode(&b), &key), Some("token".to_string()));
    assert_eq!(decrypt_token("!!", &key), None);
}

#[test]
fn key_in_the_settings() {
    let state = |text: &str| {
        Json::object().with("os_crypt", Json::object().with("encrypted_key", Json::from_text(text)))
    };
    let mut raw = b"DPAPI".to_vec();
    raw.extend_from_slice(&[1, 2, 3]);
    assert_eq!(protected_key(&state(&STANDARD.encode(&raw))), Some(vec![1, 2, 3]));
    assert_eq!(protected_key(&state(&STANDARD.encode(b"DPAPI"))), None);
    assert_eq!(protected_key(&state(&STANDARD.encode(b"DPAPJxyz"))), None);
    assert_eq!(protected_key(&state("%")), None);
    assert_eq!(protected_key(&Json::object()), None);
    assert_eq!(protected_key(&Json::object().with("os_crypt", Json::Null)), None);
}

#[test]
fn texts_are_scanned() {
    let key = [3u8; 32];
    let mfa = format!("mfa.{}", "d".repeat(84));
    let text = format!(
        "x dQw4w9WgXcQ:{}\" {} y {} dQw4w9WgXcQ:AAAA",
        STANDARD.encode(blob(&key, b"secret")),
        plain_token(),
        mfa
    );
    assert_eq!(
        scan_text(&text, Some(&key)),
        vec!["secret".to_string(), plain_token(), mfa.clone()]
    );
    assert_eq!(scan_text(&text, None), vec![plain_token(), mfa]);
    assert!(scan_text("nada", Some(&key)).is_empty());
}

#[test]
fn candidates_are_unique() {
    let key = [3u8; 32];
    let enc = format!("\u{0}dQw4w9WgXcQ:{}\u{0}", STANDARD.encode(blob(&key, b"one")));
    let mut odd = vec![0xffu8];
    odd.extend_from_slice(plain_token().as_bytes());
    let storages = vec![
        Storage { key: Some(key), files: vec![enc.clone().into_bytes(), odd] },
        Storage { key: None, files: vec![plain_token().into_bytes(), enc.into_bytes()] },
    ];
    assert_eq!(extract_candidates(&storages), vec!["one".to_string(), plain_token()]);
    assert!(extract_candidates(&Vec::new()).is_empty());
}

#[test]
fn files_of_the_storage() {
    assert!(is_storage_file("ldb"));
    assert!(is_storage_file("LOG"));
    assert!(!is_storage_file("txt"));
    assert!(!is_storage_file(""));
}

//! Encrypted frames, the ciphers below them and the key schedule.

use discord_lite::dave::error::DaveError;
use discord_lite::dave::gcm::{inc32, gcm128_decrypt, gcm128_encrypt};
use discord_lite::dave::kdf::{expand_with_label, hash_ratchet_key, hkdf_expand, write_mls_vec};
use discord_lite::dave::leb128::{read_leb128, write_leb128};
use discord_lite::dave::{
    client_binary, has_dave_magic, op, user_id_context, FrameCryptor, MAGIC_MARKER,
};

fn unhex(s: &str) -> Vec<u8> {
    (0..s.len() / 2).map(|i| u8::from_str_radix(&s[2 * i..2 * i + 2], 16).unwrap()).collect()
}

#[test]
fn leb128_roundtrip() {
    for v in [0u64, 1, 127, 128, 300, 16384, 1 << 20, u32::MAX as u64] {
        let mut buf = Vec::new();
        write_leb128(&mut buf, v);
        let (decoded, n) = read_leb128(&buf).unwrap();
        assert_eq!(decoded, v);
        assert_eq!(n, buf.len());
    }
}

#[test]
fn leb128_edges() {
    let mut buf = Vec::new();
    write_leb128(&mut buf, 300);
    assert_eq!(buf, vec![0xAC, 0x02]);
    let mut buf = Vec::new();
    write_leb128(&mut buf, u64::MAX);
    assert_eq!(buf.len(), 10);
    assert_eq!(read_leb128(&buf), Some((u64::MAX, 10)));
    assert_eq!(read_leb128(&[]), None);
    assert_eq!(read_leb128(&[0x80]), None);
    assert_eq!(read_leb128(&[0x80; 11]), None);
    // The bits above the 64th are dropped.
    let mut long = vec![0x80u8; 9];
    long.push(0x7f);
    assert_eq!(read_leb128(&long), Some((1 << 63, 10)));
    // What follows the number is not read.
    assert_eq!(read_leb128(&[0x05, 0xff, 0xff]), Some((5, 1)));
}

#[test]
fn gcm_roundtrip_known_answer() {
    let key = [0x42u8; 16];
    let nonce = [0x24u8; 12];
    let pt = b"opus frame payload de prueba 123";
    let (ct, tag) = gcm128_encrypt(&key, &nonce, pt, &[]);
    assert_ne!(&ct[..], &pt[..]);
    let dec = gcm128_decrypt(&key, &nonce, &ct, &[], &tag).unwrap();
    assert_eq!(&dec[..], &pt[..]);
    let dec8 = gcm128_decrypt(&key, &nonce, &ct, &[], &tag[..8]).unwrap();
    assert_eq!(&dec8[..], &pt[..]);
    let mut bad = tag;
    bad[0] ^= 1;
    assert!(gcm128_decrypt(&key, &nonce, &ct, &[], &bad[..8]).is_err());
}

#[test]
fn gcm_published_vectors() {
    let key = [0u8; 16];
    let nonce = [0u8; 12];
    let (ct, tag) = gcm128_encrypt(&key, &nonce, &[], &[]);
    assert!(ct.is_empty());
    assert_eq!(tag.to_vec(), unhex("58e2fccefa7e3061367f1d57a4e7455a"));
    let (ct, tag) = gcm128_encrypt(&key, &nonce, &[0u8; 16], &[]);
    assert_eq!(ct, unhex("0388dace60b6a392f328c2b971b2fe78"));
    assert_eq!(tag.to_vec(), unhex("ab6e47d42cec13bdf53a67b21257bddf"));

    let mut key = [0u8; 16];
    key.copy_from_slice(&unhex("feffe9928665731c6d6a8f9467308308"));
    let mut nonce = [0u8; 12];
    nonce.copy_from_slice(&unhex("cafebabefacedbaddecaf888"));
    let pt = unhex(
        "d9313225f88406e5a55909c5aff5269a86a7a9531534f7da2e4c303d8a318a721c3c0c95956809532fcf0e2449a6b525b16aedf5aa0de657ba637b39",
    );
    let aad = unhex("feedfacedeadbeeffeedfacedeadbeefabaddad2");
    let (ct, tag) = gcm128_encrypt(&key, &nonce, &pt, &aad);
    assert_eq!(
        ct,
        unhex("42831ec2217774244b7221b784d0d49ce3aa212f2c02a4e035c17e2329aca12e21d514b25466931c7d8f6a5aac84aa051ba30b396a0aac973d58e091")
    );
    assert_eq!(tag.to_vec(), unhex("5bc94fbc3221a5db94fae95ae7121a47"));
}

#[test]
fn gcm_rejects_long_and_wrong_tags() {
    let key = [7u8; 16];
    let nonce = [9u8; 12];
    let (ct, tag) = gcm128_encrypt(&key, &nonce, b"x", b"header");
    assert_eq!(gcm128_decrypt(&key, &nonce, &ct, b"header", &tag), Ok(b"x".to_vec()));
    assert_eq!(gcm128_decrypt(&key, &nonce, &ct, b"other", &tag), Err(DaveError::BadTag));
    let mut long = tag.to_vec();
    long.push(0);
    assert_eq!(gcm128_decrypt(&key, &nonce, &ct, b"header", &long), Err(DaveError::BadTag));
    // An empty tag is the front of every tag.
    assert_eq!(gcm128_decrypt(&key, &nonce, &ct, b"header", &[]), Ok(b"x".to_vec()));
}

#[test]
fn counter_wraps_in_its_four_bytes() {
    let mut block = [0xAAu8; 16];
    block[12..].copy_from_slice(&[0xff; 4]);
    inc32(&mut block);
    assert_eq!(&block[..12], &[0xAAu8; 12]);
    assert_eq!(&block[12..], &[0u8; 4]);
}

#[test]
fn frame_roundtrip() {
    let base = [0x11u8; 16];
    let mut enc = FrameCryptor::from_base_secret(&base);
    let dec = FrameCryptor::from_base_secret(&base);
    let opus = b"\x78\x9a\xbc fake opus packet bytes...";
    let frame = enc.encrypt(opus).unwrap();
    assert_eq!(&frame[frame.len() - 2..], &MAGIC_MARKER.to_le_bytes());
    let out = dec.decrypt(&frame).unwrap();
    assert_eq!(&out[..], &opus[..]);
}

#[test]
fn nonce_layout() {
    let n = FrameCryptor::build_nonce(0x01020304);
    assert_eq!(&n[..8], &[0u8; 8]);
    assert_eq!(&n[8..], &0x01020304u32.to_le_bytes());
}

#[test]
fn frames_count_and_differ() {
    let base = [3u8; 16];
    let mut enc = FrameCryptor::from_base_secret(&base);
    let dec = FrameCryptor::from_base_secret(&base);
    let first = enc.encrypt(b"same").unwrap();
    let second = enc.encrypt(b"same").unwrap();
    assert_ne!(first, second);
    // [4 bytes][tag 8][counter][size 12][FA FA]
    assert_eq!(first.len(), 16);
    assert_eq!(first[12], 0);
    assert_eq!(second[12], 1);
    assert_eq!(first[13], 12);
    assert_eq!(dec.decrypt(&first), Ok(b"same".to_vec()));
    assert_eq!(dec.decrypt(&second), Ok(b"same".to_vec()));
    let other = FrameCryptor::from_base_secret(&[4u8; 16]);
    assert_eq!(other.decrypt(&first), Err(DaveError::BadTag));
}

#[test]
fn frame_errors() {
    let base = [3u8; 16];
    let mut enc = FrameCryptor::from_base_secret(&base);
    let frame = enc.encrypt(b"voice").unwrap();
    assert_eq!(enc.decrypt(&frame[..10]), Err(DaveError::FrameTooShort));
    let mut bad = frame.clone();
    *bad.last_mut().unwrap() = 0;
    assert_eq!(enc.decrypt(&bad), Err(DaveError::BadMagic));
    let n = frame.len();
    let mut bad = frame.clone();
    bad[n - 3] = 10;
    assert_eq!(enc.decrypt(&bad), Err(DaveError::BadSupplementalSize));
    bad[n - 3] = 200;
    assert_eq!(enc.decrypt(&bad), Err(DaveError::BadSupplementalSize));
    // A trailer that holds no end of a number.
    let mut bad = vec![0x80u8; 30];
    let m = bad.len();
    bad[m - 2] = 0xFA;
    bad[m - 1] = 0xFA;
    bad[m - 3] = 30;
    assert_eq!(enc.decrypt(&bad), Err(DaveError::BadNonce));
    let mut bad = frame;
    bad[0] ^= 1;
    assert_eq!(enc.decrypt(&bad), Err(DaveError::BadTag));
}

#[test]
fn clear_prefix_is_dropped() {
    let base = [5u8; 16];
    let mut enc = FrameCryptor::from_base_secret(&base);
    let frame = enc.encrypt(b"inner opus").unwrap();
    let mut prefixed = vec![0u8, 1, 0, 0, 0, 0, 0, 0];
    prefixed.extend_from_slice(&frame);
    assert_eq!(enc.decrypt(&prefixed), Ok(b"inner opus".to_vec()));
    let mut too_far = vec![0u8; 17];
    too_far.extend_from_slice(&frame);
    assert_eq!(enc.decrypt(&too_far), Err(DaveError::BadTag));
}

#[test]
fn hkdf_published_vector() {
    let prk = unhex("077709362c2e32df0ddc3f0dc47bba6390b6c73bb50f9c3122ec844ad7c2b3e5");
    let info = unhex("f0f1f2f3f4f5f6f7f8f9");
    assert_eq!(
        hkdf_expand(&prk, &info, 42),
        unhex("3cb25f25faacd57a90434f64d0362f2a2d2d0a90cf1a5a4c5db02d56ecc4c5bf34007208d5b887185865")
    );
    assert!(hkdf_expand(&prk, &info, 0).is_empty());
}

#[test]
fn label_expansion_is_hkdf_of_its_info() {
    // length, "MLS 1.0 key", context
    let mut info = vec![0u8, 16, 11];
    info.extend_from_slice(b"MLS 1.0 key");
    info.push(4);
    info.extend_from_slice(&[0, 0, 0, 0]);
    let secret = [1u8; 16];
    assert_eq!(
        expand_with_label(&secret, "key", &[0, 0, 0, 0], 16),
        hkdf_expand(&secret, &info, 16)
    );
}

#[test]
fn ratchet_follows_generations() {
    let base = [9u8; 16];
    let k0 = hash_ratchet_key(&base, 0);
    assert_eq!(k0.to_vec(), expand_with_label(&base, "key", &[0, 0, 0, 0], 16));
    let s1 = expand_with_label(&base, "secret", &[0, 0, 0, 0], 32);
    let k1 = hash_ratchet_key(&base, 1);
    assert_eq!(k1.to_vec(), expand_with_label(&s1, "key", &[0, 0, 0, 1], 16));
    assert_ne!(k0, k1);
}

#[test]
fn mls_vectors_have_short_medium_and_long_lengths() {
    let mut out = Vec::new();
    write_mls_vec(&mut out, &[1, 2, 3]);
    assert_eq!(out, vec![3, 1, 2, 3]);
    let mut out = Vec::new();
    write_mls_vec(&mut out, &[0u8; 64]);
    assert_eq!(&out[..2], &[0x40, 0x40]);
    assert_eq!(out.len(), 66);
    let mut out = Vec::new();
    write_mls_vec(&mut out, &vec![0u8; 16384]);
    assert_eq!(&out[..4], &[0x80, 0, 0x40, 0]);
    assert_eq!(out.len(), 16388);
}

#[test]
fn small_helpers() {
    assert!(has_dave_magic(&[0, 0xFA, 0xFA]));
    assert!(!has_dave_magic(&[0xFA]));
    assert!(!has_dave_magic(&[0xFA, 0xFB]));
    assert_eq!(user_id_context("258"), vec![2, 1, 0, 0, 0, 0, 0, 0]);
    assert_eq!(user_id_context("+1"), vec![1, 0, 0, 0, 0, 0, 0, 0]);
    assert_eq!(user_id_context("nadie"), vec![0u8; 8]);
    assert_eq!(user_id_context("18446744073709551616"), vec![0u8; 8]);
    assert_eq!(client_binary(op::KEY_PACKAGE, &[7, 8]), vec![26, 7, 8]);
}

#[test]
fn frames_carry_their_number() {
    let base = [7u8; 16];
    let mut c = FrameCryptor::from_base_secret(&base);
    for n in 0..200u32 {
        let frame = c.encrypt(b"opus").unwrap();
        let mut leb = Vec::new();
        write_leb128(&mut leb, n as u64);
        let key = hash_ratchet_key(&base, 0);
        let (ct, tag) = gcm128_encrypt(&key, &FrameCryptor::build_nonce(n), b"opus", &[]);
        assert_eq!(ct.len(), 4);
        let mut expected = ct;
        expected.extend_from_slice(&tag[..8]);
        expected.extend_from_slice(&leb);
        expected.push(8 + leb.len() as u8 + 3);
        expected.extend_from_slice(&[0xFA, 0xFA]);
        assert_eq!(frame, expected);
        // Whoever holds the secret decrypts it, without having seen the frames before it, as
        // often as they like.
        let other = FrameCryptor::from_base_secret(&base);
        assert_eq!(other.decrypt(&frame), Ok(b"opus".to_vec()));
        assert_eq!(other.decrypt(&frame), Ok(b"opus".to_vec()));
    }
    let empty = c.encrypt(&[]).unwrap();
    assert_eq!(c.decrypt(&empty), Ok(vec![]));
}

//! Taking over the user's own session from the official client on the same machine: what
//! its files hold, once they have been read.

use aes_gcm::aead::{Aead, KeyInit};
use aes_gcm::{Aes256Gcm, Key, Nonce};
use base64::engine::general_purpose::STANDARD;
use base64::Engine;
use regex::Regex;
use vstd::prelude::*;
use vstd::slice::slice_subrange;
use vstd::utf8::{decode_utf8, valid_utf8};

use crate::json::{Json, JsonView};
use crate::text::{
    from_utf8, from_utf8_lossy, lossy_text, lower_text, same_text, to_lowercase,
};

verus! {

/// What an encrypted token looks like: a marker and base64.
pub const ENCRYPTED_PATTERN: &'static str = "dQw4w9WgXcQ:([A-Za-z0-9+/=]+)";

/// What a token in the clear looks like: a user, a time and a code.
pub const PLAIN_PATTERN: &'static str =
    "([A-Za-z0-9_-]{23,28}\\.[A-Za-z0-9_-]{6,7}\\.[A-Za-z0-9_-]{27,})";

/// What a token of an account with a second factor looks like.
pub const MFA_PATTERN: &'static str = "(mfa\\.[A-Za-z0-9_-]{80,})";

/// The bytes that a text writes in base64.
pub uninterp spec fn base64_bytes(text: Seq<char>) -> Option<Seq<u8>>;

/// What AES-256-GCM finds in a ciphertext, where its tag is right.
pub uninterp spec fn aes256_gcm_open(key: Seq<u8>, nonce: Seq<u8>, ct: Seq<u8>) -> Option<Seq<u8>>;

/// The first group of each match of a pattern in a text, in order.
pub uninterp spec fn first_groups(pattern: Seq<char>, text: Seq<char>) -> Seq<Seq<char>>;

/// Calls `Engine::decode` of the `base64` crate with the standard alphabet and padding.
/// What comes back is a function of the text.
#[verifier::external_body]
fn decode_base64(text: &str) -> (r: Option<Vec<u8>>)
    ensures
        (match r {
            Some(bytes) => Some(bytes@),
            None => None,
        }) == base64_bytes(text@),
{
    STANDARD.decode(text.as_bytes()).ok()
}

/// Calls `Aead::decrypt` of `Aes256Gcm` with a nonce of twelve bytes. What comes back is a
/// function of the arguments.
#[verifier::external_body]
fn decrypt(key: &[u8], nonce: &[u8], ct: &[u8]) -> (r: Option<Vec<u8>>)
    requires
        key@.len() == 32,
        nonce@.len() == 12,
    ensures
        (match r {
            Some(plain) => Some(plain@),
            None => None,
        }) == aes256_gcm_open(key@, nonce@, ct@),
{
    let cipher = Aes256Gcm::new(Key::<Aes256Gcm>::from_slice(key));
    cipher.decrypt(Nonce::from_slice(nonce), ct).ok()
}

/// Calls `Regex::new` and `captures_iter` of the `regex` crate, and hands out the first
/// group of each match, empty where it took no part; a pattern that is none has no match.
/// What comes back is a function of the pattern and the text.
#[verifier::external_body]
fn find_groups(pattern: &str, text: &str) -> (r: Vec<String>)
    ensures
        r@.map_values(|s: String| s@) == first_groups(pattern@, text@),
{
    match Regex::new(pattern) {
        Ok(re) => re
            .captures_iter(text)
            .map(|c| c.get(1).map_or_else(String::new, |m| m.as_str().to_string()))
            .collect(),
        Err(_) => Vec::new(),
    }
}

/// A key that the system protects: what follows the word `DPAPI`.
pub open spec fn protected_part(raw: Seq<u8>) -> Option<Seq<u8>> {
    if raw.len() > 5 && raw.take(5) == seq![68u8, 80u8, 65u8, 80u8, 73u8] {
        Some(raw.skip(5))
    } else {
        None
    }
}

/// The text under `os_crypt` and `encrypted_key`.
pub open spec fn encrypted_key_text(state: JsonView) -> Option<Seq<char>> {
    match state.field("os_crypt"@) {
        Some(crypt) => crypt.text_field("encrypted_key"@),
        None => None,
    }
}

/// The key in the official client's settings, still protected by the system.
pub fn protected_key(state: &Json) -> (r: Option<Vec<u8>>)
    ensures
        (match r {
            Some(key) => Some(key@),
            None => None,
        }) == (match encrypted_key_text(state@) {
            Some(text) => match base64_bytes(text) {
                Some(raw) => protected_part(raw),
                None => None,
            },
            None => None,
        }),
{
    let text = match state.get("os_crypt") {
        Some(crypt) => match crypt.get_text("encrypted_key") {
            Some(text) => text,
            None => {
                return None;
            },
        },
        None => {
            return None;
        },
    };
    let raw = match decode_base64(text) {
        Some(raw) => raw,
        None => {
            return None;
        },
    };
    if raw.len() <= 5 {
        return None;
    }
    let ghost front = raw@.take(5);
    assert(front =~= seq![raw@[0], raw@[1], raw@[2], raw@[3], raw@[4]]);
    if raw[0] != 68 || raw[1] != 80 || raw[2] != 65 || raw[3] != 80 || raw[4] != 73 {
        assert(front[0] == raw@[0] && front[1] == raw@[1] && front[2] == raw@[2] && front[3]
            == raw@[3] && front[4] == raw@[4]);
        return None;
    }
    assert(raw@.skip(5) =~= raw@.subrange(5, raw@.len() as int));
    Some(vstd::slice::slice_to_vec(slice_subrange(raw.as_slice(), 5, raw.len())))
}

/// The token in a blob: a version of three bytes, a nonce of twelve, and a ciphertext with
/// its tag.
pub open spec fn token_in_blob(blob: Seq<u8>, key: Seq<u8>) -> Option<Seq<char>> {
    if blob.len() < 31 {
        None
    } else {
        match aes256_gcm_open(key, blob.subrange(3, 15), blob.skip(15)) {
            Some(plain) => if valid_utf8(plain) {
                Some(decode_utf8(plain))
            } else {
                None
            },
            None => None,
        }
    }
}

/// The token in a blob that is written in base64.
pub open spec fn token_in_text(b64: Seq<char>, key: Seq<u8>) -> Option<Seq<char>> {
    match base64_bytes(b64) {
        Some(blob) => token_in_blob(blob, key),
        None => None,
    }
}

/// The token in a blob.
pub fn open_blob(blob: &[u8], key: &[u8]) -> (r: Option<String>)
    requires
        key@.len() == 32,
    ensures
        (match r {
            Some(t) => Some(t@),
            None => None,
        }) == token_in_blob(blob@, key@),
{
    if blob.len() < 31 {
        return None;
    }
    assert(blob@.skip(15) =~= blob@.subrange(15, blob@.len() as int));
    let nonce = slice_subrange(blob, 3, 15);
    let ct = slice_subrange(blob, 15, blob.len());
    match decrypt(key, nonce, ct) {
        Some(plain) => match from_utf8(plain.as_slice()) {
            Some(text) => Some(text.to_owned()),
            None => None,
        },
        None => None,
    }
}

/// The token in a blob that is written in base64.
pub fn decrypt_token(b64: &str, key: &[u8]) -> (r: Option<String>)
    requires
        key@.len() == 32,
    ensures
        (match r {
            Some(t) => Some(t@),
            None => None,
        }) == token_in_text(b64@, key@),
{
    match decode_base64(b64) {
        Some(blob) => open_blob(blob.as_slice(), key),
        None => None,
    }
}

/// The tokens in texts that are encrypted; those that do not open are left out.
pub open spec fn opened(list: Seq<Seq<char>>, key: Seq<u8>) -> Seq<Seq<char>>
    decreases list.len(),
{
    if list.len() == 0 {
        Seq::empty()
    } else {
        match token_in_text(list.last(), key) {
            Some(token) => opened(list.drop_last(), key).push(token),
            None => opened(list.drop_last(), key),
        }
    }
}

/// The tokens in the text of a file: those that open with the key, where there is one, then
/// those in the clear.
pub open spec fn tokens_in(text: Seq<char>, key: Option<Seq<u8>>) -> Seq<Seq<char>> {
    (match key {
        Some(key) => opened(first_groups(ENCRYPTED_PATTERN@, text), key),
        None => Seq::empty(),
    }) + first_groups(PLAIN_PATTERN@, text) + first_groups(MFA_PATTERN@, text)
}

/// The tokens in several files, in order.
pub open spec fn tokens_in_all(files: Seq<Seq<u8>>, key: Option<Seq<u8>>) -> Seq<Seq<char>>
    decreases files.len(),
{
    if files.len() == 0 {
        Seq::empty()
    } else {
        tokens_in_all(files.drop_last(), key) + tokens_in(lossy_text(files.last()), key)
    }
}

/// The texts of a list, each once, where it came first.
pub open spec fn unique(list: Seq<Seq<char>>) -> Seq<Seq<char>>
    decreases list.len(),
{
    if list.len() == 0 {
        list
    } else {
        let front = unique(list.drop_last());
        if front.contains(list.last()) {
            front
        } else {
            front.push(list.last())
        }
    }
}

/// A file of the official client's storage, by the end of its name.
pub fn is_storage_file(extension: &str) -> (r: bool)
    ensures
        r == (lower_text(extension@) == "ldb"@ || lower_text(extension@) == "log"@),
{
    let ext = to_lowercase(extension);
    same_text(ext.as_str(), "ldb") || same_text(ext.as_str(), "log")
}

spec fn texts(list: Seq<String>) -> Seq<Seq<char>> {
    list.map_values(|s: String| s@)
}

fn append_texts(out: &mut Vec<String>, more: Vec<String>)
    ensures
        texts(final(out)@) == texts(old(out)@) + texts(more@),
{
    let mut more = more;
    let ghost added = more@;
    let ghost before = out@;
    out.append(&mut more);
    assert(texts(out@) =~= texts(before) + texts(added));
}

/// The tokens in the text of a file.
pub fn scan_text(text: &str, key: Option<&[u8]>) -> (r: Vec<String>)
    requires
        key is Some ==> key->Some_0@.len() == 32,
    ensures
        r@.map_values(|s: String| s@) == tokens_in(
            text@,
            match key {
                Some(key) => Some(key@),
                None => None,
            },
        ),
{
    let mut out: Vec<String> = Vec::new();
    assert(texts(out@) =~= Seq::<Seq<char>>::empty());
    if let Some(key) = key {
        let found = find_groups(ENCRYPTED_PATTERN, text);
        let ghost all = texts(found@);
        let mut i: usize = 0;
        assert(all.take(0) =~= Seq::<Seq<char>>::empty());
        while i < found.len()
            invariant
                i <= found@.len(),
                key@.len() == 32,
                all == texts(found@),
                texts(out@) == opened(all.take(i as int), key@),
            decreases found@.len() - i,
        {
            assert(all.take(i + 1).drop_last() =~= all.take(i as int));
            assert(all.take(i + 1).last() == found@[i as int]@);
            if let Some(token) = decrypt_token(found[i].as_str(), key) {
                let ghost before = out@;
                let ghost t = token@;
                out.push(token);
                assert(texts(out@) =~= texts(before).push(t));
            }
            i = i + 1;
        }
        assert(all.take(i as int) =~= all);
    }
    append_texts(&mut out, find_groups(PLAIN_PATTERN, text));
    append_texts(&mut out, find_groups(MFA_PATTERN, text));
    out
}

/// The storage of one official client: its key, where it could be had, and its files.
pub struct Storage {
    /// The key for encrypted tokens.
    pub key: Option<[u8; 32]>,
    /// What the files hold.
    pub files: Vec<Vec<u8>>,
}

/// The key of a storage, in contracts.
pub open spec fn storage_key(s: Storage) -> Option<Seq<u8>> {
    match s.key {
        Some(key) => Some(key@),
        None => None,
    }
}

/// All tokens in the storages, in order.
pub open spec fn tokens_in_storages(list: Seq<Storage>) -> Seq<Seq<char>>
    decreases list.len(),
{
    if list.len() == 0 {
        Seq::empty()
    } else {
        tokens_in_storages(list.drop_last()) + tokens_in_all(
            list.last().files@.map_values(|f: Vec<u8>| f@),
            storage_key(list.last()),
        )
    }
}

/// The tokens in the files of a storage.
pub fn scan_storage(storage: &Storage) -> (r: Vec<String>)
    ensures
        r@.map_values(|s: String| s@) == tokens_in_all(
            storage.files@.map_values(|f: Vec<u8>| f@),
            storage_key(*storage),
        ),
{
    let ghost all = storage.files@.map_values(|f: Vec<u8>| f@);
    let ghost k = storage_key(*storage);
    let mut out: Vec<String> = Vec::new();
    let mut i: usize = 0;
    assert(texts(out@) =~= Seq::<Seq<char>>::empty());
    assert(all.take(0) =~= Seq::<Seq<u8>>::empty());
    while i < storage.files.len()
        invariant
            i <= storage.files@.len(),
            all == storage.files@.map_values(|f: Vec<u8>| f@),
            k == storage_key(*storage),
            texts(out@) == tokens_in_all(all.take(i as int), k),
        decreases storage.files@.len() - i,
    {
        assert(all.take(i + 1).drop_last() =~= all.take(i as int));
        assert(all.take(i + 1).last() == storage.files@[i as int]@);
        let text = from_utf8_lossy(storage.files[i].as_slice());
        let found = match &storage.key {
            Some(key) => scan_text(text.as_str(), Some(key.as_slice())),
            None => scan_text(text.as_str(), None),
        };
        append_texts(&mut out, found);
        i = i + 1;
    }
    assert(all.take(i as int) =~= all);
    out
}

fn has_text(list: &Vec<String>, text: &str) -> (r: bool)
    ensures
        r == texts(list@).contains(text@),
{
    let mut i: usize = 0;
    while i < list.len()
        invariant
            i <= list@.len(),
            forall|k: int| 0 <= k < i ==> texts(list@)[k] != text@,
        decreases list@.len() - i,
    {
        if same_text(list[i].as_str(), text) {
            assert(texts(list@)[i as int] == text@);
            return true;
        }
        i = i + 1;
    }
    false
}

fn unique_texts(list: &Vec<String>) -> (r: Vec<String>)
    ensures
        texts(r@) == unique(texts(list@)),
{
    let ghost all = texts(list@);
    let mut out: Vec<String> = Vec::new();
    let mut i: usize = 0;
    assert(all.take(0) =~= Seq::<Seq<char>>::empty());
    assert(texts(out@) =~= Seq::<Seq<char>>::empty());
    while i < list.len()
        invariant
            i <= list@.len(),
            all == texts(list@),
            texts(out@) == unique(all.take(i as int)),
        decreases list@.len() - i,
    {
        assert(all.take(i + 1).drop_last() =~= all.take(i as int));
        assert(all.take(i + 1).last() == list@[i as int]@);
        if !has_text(&out, list[i].as_str()) {
            let ghost before = out@;
            out.push(list[i].clone());
            assert(texts(out@) =~= texts(before).push(list@[i as int]@));
        }
        i = i + 1;
    }
    assert(all.take(i as int) =~= all);
    out
}

/// The tokens in the storages of the official clients, each once, where it came first.
/// Whether one is still good is for the service to say.
pub fn extract_candidates(storages: &Vec<Storage>) -> (r: Vec<String>)
    ensures
        r@.map_values(|s: String| s@) == unique(tokens_in_storages(storages@)),
{
    let mut out: Vec<String> = Vec::new();
    let mut i: usize = 0;
    assert(storages@.take(0) =~= Seq::<Storage>::empty());
    assert(texts(out@) =~= Seq::<Seq<char>>::empty());
    while i < storages.len()
        invariant
            i <= storages@.len(),
            texts(out@) == tokens_in_storages(storages@.take(i as int)),
        decreases storages@.len() - i,
    {
        assert(storages@.take(i + 1).drop_last() =~= storages@.take(i as int));
        append_texts(&mut out, scan_storage(&storages[i]));
        i = i + 1;
    }
    assert(storages@.take(i as int) =~= storages@);
    unique_texts(&out)
}

/// No token is offered twice, and every token that was found is offered.
pub proof fn lemma_unique(list: Seq<Seq<char>>)
    ensures
        unique(list).no_duplicates(),
        forall|t: Seq<char>| #[trigger] unique(list).contains(t) == list.contains(t),
    decreases list.len(),
{
    if list.len() > 0 {
        let front = list.drop_last();
        let last = list.last();
        lemma_unique(front);
        let u = unique(front);
        assert(list =~= front.push(last));
        assert forall|t: Seq<char>| #[trigger] unique(list).contains(t) == list.contains(t) by {
            assert(u.contains(t) == front.contains(t));
            if list.contains(t) {
                let i = choose|i: int| 0 <= i < list.len() && list[i] == t;
                if i < front.len() {
                    assert(front[i] == t);
                }
            }
            if front.contains(t) {
                let i = choose|i: int| 0 <= i < front.len() && front[i] == t;
                assert(list[i] == t);
            }
            assert(list[list.len() - 1] == last);
            if !u.contains(last) {
                let g = u.push(last);
                assert(g[u.len() as int] == last);
                if u.contains(t) {
                    let i = choose|i: int| 0 <= i < u.len() && u[i] == t;
                    assert(g[i] == t);
                }
                if g.contains(t) {
                    let i = choose|i: int| 0 <= i < g.len() && g[i] == t;
                    if i < u.len() {
                        assert(u[i] == t);
                    }
                }
            }
        }
    }
}

} // verus!

//! The key schedule of a sender: HKDF-Expand over HMAC-SHA256, the labelled expansion
//! of MLS, and the hash ratchet that gives each generation its key.

use hmac::{Hmac, Mac};
use sha2::Sha256;
use vstd::prelude::*;
use vstd::utf8::encode_utf8;

use crate::bytes::{be16, be32, lemma_be32_len, push_all, push_be16, push_be32};

verus! {

broadcast use lemma_be32_len;

/// The bytes in an AES-128 key.
pub const KEY_BYTES: usize = 16;

/// The bytes in an HMAC-SHA256 code.
pub const HASH_BYTES: usize = 32;

/// The HMAC-SHA256 code of a message under a key.
pub uninterp spec fn hmac_sha256(key: Seq<u8>, message: Seq<u8>) -> Seq<u8>;

/// Calls `Mac::new_from_slice`, `update` and `finalize` of the `hmac` crate with the
/// SHA-256 of the `sha2` crate. Every key length is accepted, and the code is a function
/// of the key and the message, which is all that is claimed of it.
#[verifier::external_body]
fn hmac_of(key: &[u8], message: &[u8]) -> (r: [u8; 32])
    ensures
        r@ == hmac_sha256(key@, message@),
{
    let mut mac = <Hmac<Sha256> as Mac>::new_from_slice(key).expect("any key length");
    mac.update(message);
    mac.finalize().into_bytes().into()
}

/// The block `n` of HKDF-Expand, counted from one; the block before the first is empty.
/// The counter is one byte and wraps.
pub open spec fn hkdf_block(prk: Seq<u8>, info: Seq<u8>, n: nat) -> Seq<u8>
    decreases n,
{
    if n == 0 {
        Seq::empty()
    } else {
        hmac_sha256(prk, hkdf_block(prk, info, (n - 1) as nat) + info + seq![(n % 256) as u8])
    }
}

/// The first `length` bytes of the blocks of HKDF-Expand, one after the other.
pub open spec fn hkdf_bytes(prk: Seq<u8>, info: Seq<u8>, length: nat) -> Seq<u8> {
    Seq::new(length, |i: int| hkdf_block(prk, info, (i / 32 + 1) as nat)[i % 32])
}

/// The length in front of a vector: one, two or four bytes, the top two bits of the
/// first telling which.
pub open spec fn mls_length(len: nat) -> Seq<u8> {
    if len < 64 {
        seq![len as u8]
    } else if len < 16384 {
        be16((0x4000 + len) as u16)
    } else {
        be32((len as u32) | 0x8000_0000u32)
    }
}

/// A vector of variable length as MLS writes it.
pub open spec fn mls_vector(data: Seq<u8>) -> Seq<u8> {
    mls_length(data.len()) + data
}

/// What HKDF-Expand is given for a label and a context.
pub open spec fn label_info(label: Seq<char>, context: Seq<u8>, length: nat) -> Seq<u8> {
    be16((length % 0x1_0000) as u16) + mls_vector(encode_utf8("MLS 1.0 "@ + label)) + mls_vector(
        context,
    )
}

/// The labelled expansion of a secret.
pub open spec fn labelled(secret: Seq<u8>, label: Seq<char>, context: Seq<u8>, length: nat) -> Seq<
    u8,
> {
    hkdf_bytes(secret, label_info(label, context, length), length)
}

/// The secret of generation `n`: each is derived from the one before, with the
/// number of that one as the context.
pub open spec fn ratchet_secret(base: Seq<u8>, n: nat) -> Seq<u8>
    decreases n,
{
    if n == 0 {
        base
    } else {
        labelled(ratchet_secret(base, (n - 1) as nat), "secret"@, be32((n - 1) as u32), 32)
    }
}

/// The key of a generation.
pub open spec fn ratchet_key(base: Seq<u8>, generation: u32) -> Seq<u8> {
    labelled(ratchet_secret(base, generation as nat), "key"@, be32(generation), 16)
}

/// HKDF-Expand with HMAC-SHA256, for a key of any length.
pub fn hkdf_expand(prk: &[u8], info: &[u8], length: usize) -> (r: Vec<u8>)
    ensures
        r@ == hkdf_bytes(prk@, info@, length as nat),
{
    let mut okm: Vec<u8> = Vec::new();
    let mut block: Vec<u8> = Vec::new();
    let mut counter: u8 = 0;
    let ghost mut n: nat = 0;
    while okm.len() < length
        invariant
            okm@.len() == n * 32,
            block@ == hkdf_block(prk@, info@, n),
            okm@ == hkdf_bytes(prk@, info@, n * 32),
            counter == n % 256,
        decreases length + 32 - okm@.len(),
    {
        let ghost before = okm@;
        counter = counter.wrapping_add(1);
        let mut message: Vec<u8> = Vec::new();
        push_all(&mut message, block.as_slice());
        push_all(&mut message, info);
        message.push(counter);
        assert(message@ =~= hkdf_block(prk@, info@, n) + info@ + seq![counter]);
        let code = hmac_of(prk, message.as_slice());
        block = Vec::new();
        push_all(&mut block, code.as_slice());
        push_all(&mut okm, code.as_slice());
        proof {
            n = n + 1;
            assert(block@ =~= code@);
            assert(block@ == hkdf_block(prk@, info@, n));
            assert forall|i: int| 0 <= i < n * 32 implies okm@[i] == hkdf_block(
                prk@,
                info@,
                (i / 32 + 1) as nat,
            )[i % 32] by {
                if i < before.len() {
                    assert(okm@[i] == before[i]);
                } else {
                    assert(i / 32 + 1 == n && i % 32 == i - before.len());
                }
            }
            assert(okm@ =~= hkdf_bytes(prk@, info@, n * 32));
        }
    }
    okm.truncate(length);
    assert(okm@ =~= hkdf_bytes(prk@, info@, length as nat));
    okm
}

/// Appends `data` with its length in front.
pub fn write_mls_vec(out: &mut Vec<u8>, data: &[u8])
    ensures
        final(out)@ == old(out)@ + mls_vector(data@),
{
    let len: usize = data.len();
    if len < 64 {
        out.push(len as u8);
        assert(out@ =~= old(out)@ + mls_length(data@.len()));
    } else if len < 16384 {
        push_be16(out, 0x4000 + len as u16);
    } else {
        push_be32(out, (len as u32) | 0x8000_0000u32);
    }
    push_all(out, data);
    assert(out@ =~= old(out)@ + mls_vector(data@));
}

/// The labelled expansion of a secret.
pub fn expand_with_label(secret: &[u8], label: &str, context: &[u8], length: usize) -> (r: Vec<u8>)
    ensures
        r@ == labelled(secret@, label@, context@, length as nat),
{
    let mut full_label = String::from_str("MLS 1.0 ");
    full_label.append(label);
    let mut info: Vec<u8> = Vec::new();
    push_be16(&mut info, (length % 0x1_0000) as u16);
    write_mls_vec(&mut info, full_label.as_str().as_bytes());
    write_mls_vec(&mut info, context);
    assert(info@ =~= label_info(label@, context@, length as nat));
    hkdf_expand(secret, info.as_slice(), length)
}

fn be_bytes(x: u32) -> (r: Vec<u8>)
    ensures
        r@ == be32(x),
{
    let mut r: Vec<u8> = Vec::new();
    push_be32(&mut r, x);
    assert(r@ =~= be32(x));
    r
}

/// The key of a generation of the sender whose base secret is given.
pub fn hash_ratchet_key(base_secret: &[u8], generation: u32) -> (r: [u8; 16])
    ensures
        r@ == ratchet_key(base_secret@, generation),
{
    let mut secret: Vec<u8> = Vec::new();
    push_all(&mut secret, base_secret);
    assert(secret@ =~= base_secret@);
    let mut i: u32 = 0;
    while i < generation
        invariant
            i <= generation,
            secret@ == ratchet_secret(base_secret@, i as nat),
        decreases generation - i,
    {
        secret = expand_with_label(secret.as_slice(), "secret", be_bytes(i).as_slice(), HASH_BYTES);
        i = i + 1;
    }
    let context = be_bytes(generation);
    let key = expand_with_label(secret.as_slice(), "key", context.as_slice(), KEY_BYTES);
    let mut out: [u8; 16] = [0u8; 16];
    let mut k: usize = 0;
    while k < KEY_BYTES
        invariant
            k <= KEY_BYTES,
            key@.len() == KEY_BYTES,
            forall|j: int| 0 <= j < k ==> out@[j] == key@[j],
        decreases KEY_BYTES - k,
    {
        out[k] = key[k];
        k = k + 1;
    }
    assert(out@ =~= key@);
    out
}

} // verus!

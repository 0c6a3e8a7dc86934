//! AES-128 in Galois/Counter mode with a tag of any length up to 16 bytes, out of
//! the AES block function and GHASH.

use aes::cipher::generic_array::GenericArray;
use aes::cipher::{BlockEncrypt, KeyInit};
use aes::Aes128;
use ghash::universal_hash::UniversalHash;
use ghash::GHash;
use vstd::prelude::*;
use vstd::slice::slice_subrange;

use crate::bytes::{
    be32, be64, bytes_equal, lemma_be32_len, lemma_be32_read, lemma_be32_written, push_be64,
    read_be32, u32_be_at,
};
use crate::dave::error::DaveError;

verus! {

broadcast use lemma_be32_len;

/// The AES-128 encryption of one block under a key.
pub uninterp spec fn aes128(key: Seq<u8>, block: Seq<u8>) -> Seq<u8>;

/// GHASH under the subkey `h` of the padded associated data, the padded ciphertext and
/// the length block.
pub uninterp spec fn ghash(h: Seq<u8>, aad: Seq<u8>, ct: Seq<u8>, lengths: Seq<u8>) -> Seq<u8>;

/// Calls `Aes128::new` and `BlockEncrypt::encrypt_block` of the `aes` crate. The
/// encrypted block is a function of the key and the block, which is all that is
/// claimed of it.
#[verifier::external_body]
fn aes_block(key: &[u8; 16], input: [u8; 16]) -> (r: [u8; 16])
    ensures
        r@ == aes128(key@, input@),
{
    let cipher = Aes128::new(GenericArray::from_slice(key));
    let mut block = GenericArray::clone_from_slice(&input);
    cipher.encrypt_block(&mut block);
    block.into()
}

/// Calls `GHash::new`, `update_padded`, `update` and `finalize` of the `ghash` crate on
/// the associated data, the ciphertext and the length block, in this order. The hash is
/// a function of these and of the subkey, which is all that is claimed of it.
#[verifier::external_body]
fn ghash_of(h: &[u8; 16], aad: &[u8], ct: &[u8], lengths: &[u8; 16]) -> (r: [u8; 16])
    ensures
        r@ == ghash(h@, aad@, ct@, lengths@),
{
    let mut gh = GHash::new(GenericArray::from_slice(h));
    gh.update_padded(aad);
    gh.update_padded(ct);
    gh.update(&[GenericArray::clone_from_slice(lengths)]);
    gh.finalize().into()
}

/// The block with its last four bytes, as a big-endian number, moved `n` steps on; the
/// number wraps, and the other bytes stay.
pub open spec fn counter_at(block: Seq<u8>, n: nat) -> Seq<u8> {
    block.take(12) + be32(((u32_be_at(block, 12) + n) % 0x1_0000_0000) as u32)
}

/// The byte at `i` of the key stream that starts with the counter block `ctr`.
pub open spec fn key_stream(key: Seq<u8>, ctr: Seq<u8>, i: int) -> u8 {
    aes128(key, counter_at(ctr, (i / 16) as nat))[i % 16]
}

/// The data combined with the key stream that starts with the counter block `ctr`.
pub open spec fn ctr_stream(key: Seq<u8>, ctr: Seq<u8>, data: Seq<u8>) -> Seq<u8> {
    Seq::new(data.len(), |i: int| data[i] ^ key_stream(key, ctr, i))
}

/// The first counter block for a nonce of twelve bytes.
pub open spec fn first_block(nonce: Seq<u8>) -> Seq<u8> {
    nonce + be32(1)
}

/// What encryption and decryption both do to the data.
pub open spec fn gcm_stream(key: Seq<u8>, nonce: Seq<u8>, data: Seq<u8>) -> Seq<u8> {
    ctr_stream(key, counter_at(first_block(nonce), 1), data)
}

/// A length in bits, as the length block holds it: the low 64 bits of the number.
pub open spec fn bit_length(bytes: nat) -> u64 {
    (bytes * 8 % 0x1_0000_0000_0000_0000) as u64
}

/// The block with the two lengths in bits.
pub open spec fn length_block(aad_len: nat, ct_len: nat) -> Seq<u8> {
    be64(bit_length(aad_len)) + be64(bit_length(ct_len))
}

/// The full tag of sixteen bytes over the associated data and the ciphertext.
pub open spec fn gcm_tag_of(key: Seq<u8>, nonce: Seq<u8>, aad: Seq<u8>, ct: Seq<u8>) -> Seq<u8> {
    let mask = aes128(key, first_block(nonce));
    let h = aes128(key, Seq::new(16, |i: int| 0u8));
    let s = ghash(h, aad, ct, length_block(aad.len(), ct.len()));
    Seq::new(16, |i: int| mask[i] ^ s[i])
}

/// A tag is right when it is the full tag or the front of it.
pub open spec fn tag_matches(full: Seq<u8>, tag: Seq<u8>) -> bool {
    tag.len() <= full.len() && tag == full.take(tag.len() as int)
}

/// What decryption gives: the plaintext, where the tag is right.
pub open spec fn gcm_open(
    key: Seq<u8>,
    nonce: Seq<u8>,
    ct: Seq<u8>,
    aad: Seq<u8>,
    tag: Seq<u8>,
) -> Result<Seq<u8>, DaveError> {
    if tag_matches(gcm_tag_of(key, nonce, aad, ct), tag) {
        Ok(gcm_stream(key, nonce, ct))
    } else {
        Err(DaveError::BadTag)
    }
}

proof fn lemma_xor_twice(a: u8, b: u8)
    ensures
        (a ^ b) ^ b == a,
{
    assert((a ^ b) ^ b == a) by (bit_vector);
}

/// Applying the key stream twice gives the data back.
pub proof fn lemma_gcm_stream_twice(key: Seq<u8>, nonce: Seq<u8>, data: Seq<u8>)
    ensures
        gcm_stream(key, nonce, gcm_stream(key, nonce, data)) == data,
{
    let ctr = counter_at(first_block(nonce), 1);
    assert forall|i: int| 0 <= i < data.len() implies (data[i] ^ key_stream(key, ctr, i))
        ^ key_stream(key, ctr, i) == data[i] by {
        lemma_xor_twice(data[i], key_stream(key, ctr, i));
    }
    assert(gcm_stream(key, nonce, gcm_stream(key, nonce, data)) =~= data);
}

/// Decryption gives back what was encrypted, with the full tag or with its first `n`
/// bytes.
pub proof fn lemma_gcm_roundtrip(key: Seq<u8>, nonce: Seq<u8>, pt: Seq<u8>, aad: Seq<u8>, n: nat)
    requires
        n <= 16,
    ensures
        ({
            let ct = gcm_stream(key, nonce, pt);
            let tag = gcm_tag_of(key, nonce, aad, ct);
            gcm_open(key, nonce, ct, aad, tag.take(n as int)) == Ok::<Seq<u8>, DaveError>(pt)
        }),
{
    lemma_gcm_stream_twice(key, nonce, pt);
}

/// Moves the counter in the last four bytes one step on.
pub fn inc32(block: &mut [u8; 16])
    ensures
        final(block)@ == counter_at(old(block)@, 1),
{
    let c: u32 = read_be32(block.as_slice(), 12).wrapping_add(1);
    block[12] = (c / 0x100_0000) as u8;
    block[13] = (c / 0x1_0000 % 256) as u8;
    block[14] = (c / 0x100 % 256) as u8;
    block[15] = (c % 256) as u8;
    proof {
        reveal(be32);
        let n = (u32_be_at(old(block)@, 12) + 1) % 0x1_0000_0000;
        assert(c as int == n);
        assert(block@ =~= counter_at(old(block)@, 1));
    }
}

proof fn lemma_counter_step(block: Seq<u8>, n: nat)
    requires
        block.len() == 16,
    ensures
        counter_at(counter_at(block, n), 1) == counter_at(block, n + 1),
{
    let b = counter_at(block, n);
    let c = ((u32_be_at(block, 12) + n) % 0x1_0000_0000) as u32;
    assert(b.subrange(12, 16) =~= be32(c));
    lemma_be32_read(b, 12, c);
    assert(b.take(12) =~= block.take(12));
    vstd::arithmetic::div_mod::lemma_add_mod_noop(u32_be_at(block, 12) + n, 1, 0x1_0000_0000);
}

/// Combines the data with the key stream that starts with the block `counter`.
pub fn ctr_xor(key: &[u8; 16], counter: [u8; 16], data: &[u8]) -> (r: Vec<u8>)
    ensures
        r@ == ctr_stream(key@, counter@, data@),
{
    let ghost start = counter@;
    let mut counter = counter;
    let mut out: Vec<u8> = Vec::new();
    let mut ks: [u8; 16] = [0u8; 16];
    let mut i: usize = 0;
    proof {
        lemma_be32_written(start, 12);
        assert(counter_at(start, 0) =~= start);
    }
    while i < data.len()
        invariant
            i <= data@.len(),
            start.len() == 16,
            out@ == ctr_stream(key@, start, data@.take(i as int)),
            counter@ == counter_at(start, ((i + 15) / 16) as nat),
            i % 16 != 0 ==> ks@ == aes128(key@, counter_at(start, (i / 16) as nat)),
        decreases data@.len() - i,
    {
        if i % 16 == 0 {
            ks = aes_block(key, counter);
            inc32(&mut counter);
            proof {
                lemma_counter_step(start, (i / 16) as nat);
            }
        }
        out.push(data[i] ^ ks[i % 16]);
        i = i + 1;
        assert(out@ =~= ctr_stream(key@, start, data@.take(i as int)));
    }
    assert(data@.take(i as int) =~= data@);
    out
}

fn zero_block() -> (r: [u8; 16])
    ensures
        r@ == Seq::new(16, |i: int| 0u8),
{
    let r: [u8; 16] = [0u8; 16];
    assert(r@ =~= Seq::new(16, |i: int| 0u8));
    r
}

fn to_block(data: &[u8]) -> (r: [u8; 16])
    requires
        data@.len() == 16,
    ensures
        r@ == data@,
{
    let mut r: [u8; 16] = [0u8; 16];
    let mut i: usize = 0;
    while i < 16
        invariant
            i <= 16,
            data@.len() == 16,
            forall|k: int| 0 <= k < i ==> r@[k] == data@[k],
        decreases 16 - i,
    {
        r[i] = data[i];
        i = i + 1;
    }
    assert(r@ =~= data@);
    r
}

/// The first counter block for the nonce.
fn initial_block(nonce: &[u8; 12]) -> (r: [u8; 16])
    ensures
        r@ == first_block(nonce@),
{
    let mut r: [u8; 16] = [0u8; 16];
    let mut i: usize = 0;
    while i < 12
        invariant
            i <= 12,
            forall|k: int| 0 <= k < i ==> r@[k] == nonce@[k],
            forall|k: int| i <= k < 16 ==> r@[k] == 0,
        decreases 12 - i,
    {
        r[i] = nonce[i];
        i = i + 1;
    }
    r[15] = 1;
    proof {
        reveal(be32);
    }
    assert(r@ =~= first_block(nonce@));
    r
}

/// The full tag over the associated data and the ciphertext.
pub fn gcm_tag(key: &[u8; 16], nonce: &[u8; 12], aad: &[u8], ct: &[u8]) -> (r: [u8; 16])
    ensures
        r@ == gcm_tag_of(key@, nonce@, aad@, ct@),
{
    let h = aes_block(key, zero_block());
    let mut lengths: Vec<u8> = Vec::new();
    push_be64(&mut lengths, (aad.len() as u64).wrapping_mul(8));
    push_be64(&mut lengths, (ct.len() as u64).wrapping_mul(8));
    assert(lengths@ =~= length_block(aad@.len(), ct@.len()));
    let s = ghash_of(&h, aad, ct, &to_block(lengths.as_slice()));
    let mask = aes_block(key, initial_block(nonce));
    let mut tag: [u8; 16] = [0u8; 16];
    let mut i: usize = 0;
    while i < 16
        invariant
            i <= 16,
            forall|k: int| 0 <= k < i ==> tag@[k] == mask@[k] ^ s@[k],
        decreases 16 - i,
    {
        tag[i] = mask[i] ^ s[i];
        i = i + 1;
    }
    assert(tag@ =~= gcm_tag_of(key@, nonce@, aad@, ct@));
    tag
}

fn apply_stream(key: &[u8; 16], nonce: &[u8; 12], data: &[u8]) -> (r: Vec<u8>)
    ensures
        r@ == gcm_stream(key@, nonce@, data@),
{
    let mut ctr = initial_block(nonce);
    inc32(&mut ctr);
    ctr_xor(key, ctr, data)
}

/// Encrypts `pt`; the result is the ciphertext and the full tag.
pub fn gcm128_encrypt(key: &[u8; 16], nonce: &[u8; 12], pt: &[u8], aad: &[u8]) -> (r: (
    Vec<u8>,
    [u8; 16],
))
    ensures
        r.0@ == gcm_stream(key@, nonce@, pt@),
        r.1@ == gcm_tag_of(key@, nonce@, aad@, r.0@),
{
    let ct = apply_stream(key, nonce, pt);
    let tag = gcm_tag(key, nonce, aad, ct.as_slice());
    (ct, tag)
}

/// Decrypts `ct` where the tag, of up to sixteen bytes, is the front of the full one.
pub fn gcm128_decrypt(
    key: &[u8; 16],
    nonce: &[u8; 12],
    ct: &[u8],
    aad: &[u8],
    trunc_tag: &[u8],
) -> (r: Result<Vec<u8>, DaveError>)
    ensures
        match r {
            Ok(pt) => gcm_open(key@, nonce@, ct@, aad@, trunc_tag@) == Ok::<_, DaveError>(pt@),
            Err(e) => gcm_open(key@, nonce@, ct@, aad@, trunc_tag@) == Err::<Seq<u8>, _>(e),
        },
{
    let full = gcm_tag(key, nonce, aad, ct);
    if trunc_tag.len() > 16 {
        return Err(DaveError::BadTag);
    }
    if !bytes_equal(slice_subrange(full.as_slice(), 0, trunc_tag.len()), trunc_tag) {
        return Err(DaveError::BadTag);
    }
    Ok(apply_stream(key, nonce, ct))
}

} // verus!

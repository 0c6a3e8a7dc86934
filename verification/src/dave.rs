//! DAVE, the end-to-end encryption of voice: the frames that carry encrypted Opus
//! packets, and the session of the group handshake.
//!
//! An encrypted frame is `[prefix][ciphertext][tag, 8 bytes][counter, LEB128]
//! [trailer size, 1 byte][0xFA 0xFA]`. The prefix is left in the clear; the frames made
//! here have none.

use vstd::prelude::*;
use vstd::slice::slice_subrange;

use crate::bytes::{le32, le64, push_all, push_le64};
use crate::dave::error::DaveError;
use crate::dave::gcm::{
    gcm128_decrypt, gcm128_encrypt, gcm_stream, gcm_tag_of, lemma_gcm_roundtrip, tag_matches,
};
use crate::dave::kdf::{hash_ratchet_key, ratchet_key};
use crate::dave::leb128::{
    leb128_bytes, leb128_parse, lemma_leb128_roundtrip, read_leb128, write_leb128,
};
use crate::text::{parse_u64, u64_of_text};

pub mod error;
pub mod gcm;
pub mod kdf;
pub mod leb128;
pub mod mls;
pub mod op;
pub mod wire;

verus! {

/// The DAVE protocol version this client speaks.
pub const PROTOCOL_VERSION: u16 = 1;

/// The bytes of the tag that a frame carries.
pub const TRUNCATED_TAG_BYTES: usize = 8;

/// The smallest trailer: a tag, its own size and the marker.
pub const MIN_TRAILER_BYTES: usize = 11;

/// The marker at the end of a frame.
pub const MAGIC_MARKER: u16 = 0xFAFA;

/// The longest prefix in the clear that is looked for.
pub const MAX_UNENCRYPTED_PREFIX: usize = 16;

/// The label under which the group exports the base secret of a sender.
pub const EXPORTER_LABEL: &'static str = "Discord Secure Frames v0";

/// A frame carries the marker `0xFAFA` in its last two bytes.
pub open spec fn ends_with_magic(frame: Seq<u8>) -> bool {
    frame.len() >= 2 && frame[frame.len() - 2] == 0xFA && frame[frame.len() - 1] == 0xFA
}

/// The nonce for a counter: eight zeros and the counter, least significant byte first.
pub open spec fn nonce_of(counter: u32) -> Seq<u8> {
    Seq::new(8, |i: int| 0u8) + le32(counter)
}

/// The key generation that a counter belongs to: its top byte.
pub open spec fn generation_of(counter: u32) -> u32 {
    counter / 0x100_0000
}

/// The trailer of a frame.
pub open spec fn trailer_bytes(tag: Seq<u8>, counter: u32) -> Seq<u8> {
    let nonce = leb128_bytes(counter as nat);
    tag.take(8) + nonce + seq![(11 + nonce.len()) as u8, 0xFAu8, 0xFAu8]
}

/// The frame that carries the packet `opus` under a counter.
pub open spec fn seal_frame(base: Seq<u8>, counter: u32, opus: Seq<u8>) -> Seq<u8> {
    let key = ratchet_key(base, generation_of(counter));
    let ct = gcm_stream(key, nonce_of(counter), opus);
    let tag = gcm_tag_of(key, nonce_of(counter), Seq::empty(), ct);
    ct + trailer_bytes(tag, counter)
}

/// The ciphertext that starts after `prefix` bytes is authentic.
pub open spec fn authentic_at(
    key: Seq<u8>,
    nonce: Seq<u8>,
    body: Seq<u8>,
    tag: Seq<u8>,
    prefix: int,
) -> bool {
    tag_matches(gcm_tag_of(key, nonce, Seq::empty(), body.skip(prefix)), tag)
}

/// What the part of a frame before its trailer decrypts to: the shortest prefix under
/// which the rest is authentic is dropped, and the rest decrypted.
pub open spec fn open_body(
    key: Seq<u8>,
    nonce: Seq<u8>,
    body: Seq<u8>,
    tag: Seq<u8>,
    prefix: nat,
) -> Result<Seq<u8>, DaveError>
    decreases 17 - prefix,
{
    if prefix > body.len() || prefix > 16 {
        Err(DaveError::BadTag)
    } else if authentic_at(key, nonce, body, tag, prefix as int) {
        Ok(gcm_stream(key, nonce, body.skip(prefix as int)))
    } else {
        open_body(key, nonce, body, tag, prefix + 1)
    }
}

/// What a frame decrypts to, under the base secret of its sender.
pub open spec fn open_frame(base: Seq<u8>, frame: Seq<u8>) -> Result<Seq<u8>, DaveError> {
    let n = frame.len();
    if n < 11 {
        Err(DaveError::FrameTooShort)
    } else if !ends_with_magic(frame) {
        Err(DaveError::BadMagic)
    } else if frame[n - 3] > n || frame[n - 3] < 11 {
        Err(DaveError::BadSupplementalSize)
    } else {
        let start = n - frame[n - 3];
        match leb128_parse(frame.skip(start + 8)) {
            None => Err(DaveError::BadNonce),
            Some((value, _)) => {
                let counter = (value % 0x1_0000_0000) as u32;
                open_body(
                    ratchet_key(base, generation_of(counter)),
                    nonce_of(counter),
                    frame.take(start),
                    frame.subrange(start, start + 8),
                    0,
                )
            },
        }
    }
}

/// A frame decrypts to the packet it was made from, whatever the counter was.
pub proof fn lemma_frame_roundtrip(base: Seq<u8>, counter: u32, opus: Seq<u8>)
    ensures
        open_frame(base, seal_frame(base, counter, opus)) == Ok::<Seq<u8>, DaveError>(opus),
        ends_with_magic(seal_frame(base, counter, opus)),
{
    let key = ratchet_key(base, generation_of(counter));
    let nonce = nonce_of(counter);
    let ct = gcm_stream(key, nonce, opus);
    let tag = gcm_tag_of(key, nonce, Seq::empty(), ct);
    let leb = leb128_bytes(counter as nat);
    let end = seq![(11 + leb.len()) as u8, 0xFAu8, 0xFAu8];
    let frame = seal_frame(base, counter, opus);
    lemma_leb128_roundtrip(counter as u64, end);
    assert(frame =~= ct + tag.take(8) + leb + end);
    assert(frame.len() == ct.len() + 11 + leb.len());
    assert(frame[frame.len() - 3] == 11 + leb.len());
    assert(frame.skip(ct.len() as int + 8) =~= leb + end);
    assert(frame.take(ct.len() as int) =~= ct);
    assert(frame.subrange(ct.len() as int, ct.len() as int + 8) =~= tag.take(8));
    assert(ct.skip(0) =~= ct);
    lemma_gcm_roundtrip(key, nonce, opus, Seq::empty(), 8);
}

/// Frames with different counters have different nonces.
pub proof fn lemma_nonces_differ(a: u32, b: u32)
    requires
        a != b,
    ensures
        nonce_of(a) != nonce_of(b),
{
    let x = nonce_of(a);
    let y = nonce_of(b);
    assert(x[8] == (a % 256) as u8 && y[8] == (b % 256) as u8);
    assert(x[9] == (a / 0x100 % 256) as u8 && y[9] == (b / 0x100 % 256) as u8);
    assert(x[10] == (a / 0x1_0000 % 256) as u8 && y[10] == (b / 0x1_0000 % 256) as u8);
    assert(x[11] == (a / 0x100_0000) as u8 && y[11] == (b / 0x100_0000) as u8);
}

/// The counter that a new cryptor has reached after `n` frames.
pub open spec fn counter_after(n: nat) -> u32
    decreases n,
{
    if n == 0 {
        0
    } else {
        ((counter_after((n - 1) as nat) + 1) % 0x1_0000_0000) as u32
    }
}

proof fn lemma_counter_after(n: nat)
    requires
        n < 0x1_0000_0000,
    ensures
        counter_after(n) == n,
    decreases n,
{
    if n > 0 {
        lemma_counter_after((n - 1) as nat);
    }
}

/// The frame that follows `n` others, for fewer than `2^32` of them: the ciphertext, as
/// long as the packet, the first eight bytes of the tag, the number `n` as LEB128, the size
/// of the trailer, and the marker.
pub proof fn lemma_frame_layout(base: Seq<u8>, n: nat, opus: Seq<u8>)
    requires
        n < 0x1_0000_0000,
    ensures
        ({
            let key = ratchet_key(base, (n / 0x100_0000) as u32);
            let ct = gcm_stream(key, nonce_of(n as u32), opus);
            let tag = gcm_tag_of(key, nonce_of(n as u32), Seq::empty(), ct);
            let leb = leb128_bytes(n);
            &&& ct.len() == opus.len()
            &&& 1 <= leb.len() <= 10
            &&& seal_frame(base, counter_after(n), opus) == ct + tag.take(8) + leb
                + seq![(8 + leb.len() + 3) as u8] + seq![0xFAu8, 0xFAu8]
        }),
{
    lemma_counter_after(n);
    lemma_leb128_roundtrip(n as u64, Seq::empty());
    let key = ratchet_key(base, (n / 0x100_0000) as u32);
    let ct = gcm_stream(key, nonce_of(n as u32), opus);
    let tag = gcm_tag_of(key, nonce_of(n as u32), Seq::empty(), ct);
    let leb = leb128_bytes(n);
    assert(seal_frame(base, counter_after(n), opus) =~= ct + tag.take(8) + leb + seq![
        (8 + leb.len() + 3) as u8,
    ] + seq![0xFAu8, 0xFAu8]);
}

/// No two of the first `2^32` frames of a cryptor share a nonce.
pub proof fn lemma_first_frames_have_own_nonces(i: nat, j: nat)
    requires
        i < j < 0x1_0000_0000,
    ensures
        nonce_of(counter_after(i)) != nonce_of(counter_after(j)),
{
    lemma_counter_after(i);
    lemma_counter_after(j);
    lemma_nonces_differ(i as u32, j as u32);
}

/// Encrypts and decrypts the frames of one sender.
pub struct FrameCryptor {
    base_secret: Vec<u8>,
    send_counter: u32,
}

impl FrameCryptor {
    /// The base secret of the sender.
    pub closed spec fn base(&self) -> Seq<u8> {
        self.base_secret@
    }

    /// The counter that the next frame will carry.
    pub closed spec fn counter(&self) -> u32 {
        self.send_counter
    }

    /// A cryptor with the base secret that the group exported for the sender.
    pub fn from_base_secret(base_secret: &[u8]) -> (r: FrameCryptor)
        ensures
            r.base() == base_secret@,
            r.counter() == 0,
    {
        let mut base: Vec<u8> = Vec::new();
        push_all(&mut base, base_secret);
        assert(base@ =~= base_secret@);
        FrameCryptor { base_secret: base, send_counter: 0 }
    }

    fn key_for(&self, generation: u32) -> (r: [u8; 16])
        ensures
            r@ == ratchet_key(self.base(), generation),
    {
        hash_ratchet_key(self.base_secret.as_slice(), generation)
    }

    /// The nonce for a counter.
    pub fn build_nonce(counter: u32) -> (r: [u8; 12])
        ensures
            r@ == nonce_of(counter),
    {
        let mut n: [u8; 12] = [0u8; 12];
        n[8] = (counter % 256) as u8;
        n[9] = (counter / 0x100 % 256) as u8;
        n[10] = (counter / 0x1_0000 % 256) as u8;
        n[11] = (counter / 0x100_0000) as u8;
        proof {
            assert(n@ =~= nonce_of(counter));
        }
        n
    }

    /// The frame for a packet, encrypted whole; the counter moves on.
    pub(crate) fn seal(&mut self, opus: &[u8]) -> (r: Vec<u8>)
        ensures
            r@ == seal_frame(old(self).base(), old(self).counter(), opus@),
            final(self).base() == old(self).base(),
            final(self).counter() == (old(self).counter() + 1) % 0x1_0000_0000,
    {
        let counter: u32 = self.send_counter;
        self.send_counter = counter.wrapping_add(1);
        let key = self.key_for(counter / 0x100_0000);
        let nonce = FrameCryptor::build_nonce(counter);
        let aad: Vec<u8> = Vec::new();
        let (ciphertext, tag) = gcm128_encrypt(&key, &nonce, opus, aad.as_slice());
        assert(aad@ =~= Seq::<u8>::empty());
        let mut nonce_leb: Vec<u8> = Vec::new();
        write_leb128(&mut nonce_leb, counter as u64);
        assert(nonce_leb@ =~= leb128_bytes(counter as nat));
        proof {
            lemma_leb128_roundtrip(counter as u64, Seq::empty());
        }
        let mut out = ciphertext;
        push_all(&mut out, slice_subrange(tag.as_slice(), 0, TRUNCATED_TAG_BYTES));
        push_all(&mut out, nonce_leb.as_slice());
        out.push((MIN_TRAILER_BYTES + nonce_leb.len()) as u8);
        out.push((MAGIC_MARKER % 256) as u8);
        out.push((MAGIC_MARKER / 256) as u8);
        assert(tag@.subrange(0, 8) =~= tag@.take(8));
        assert(out@ =~= seal_frame(old(self).base(), old(self).counter(), opus@));
        out
    }

    /// Encrypts a packet whole, and moves the counter on. There is no packet for which this
    /// fails, and every holder of the base secret decrypts the frame to the packet.
    pub fn encrypt(&mut self, opus: &[u8]) -> (r: Result<Vec<u8>, DaveError>)
        ensures
            r is Ok,
            r->Ok_0@ == seal_frame(old(self).base(), old(self).counter(), opus@),
            open_frame(old(self).base(), r->Ok_0@) == Ok::<Seq<u8>, DaveError>(opus@),
            final(self).base() == old(self).base(),
            final(self).counter() == (old(self).counter() + 1) % 0x1_0000_0000,
    {
        proof {
            lemma_frame_roundtrip(self.base(), self.counter(), opus@);
        }
        Ok(self.seal(opus))
    }

    /// Decrypts a frame to the packet it carries. A prefix in the clear, as other clients
    /// put before the ciphertext, is looked for and dropped.
    pub fn decrypt(&self, frame: &[u8]) -> (r: Result<Vec<u8>, DaveError>)
        ensures
            match r {
                Ok(opus) => open_frame(self.base(), frame@) == Ok::<Seq<u8>, DaveError>(opus@),
                Err(e) => open_frame(self.base(), frame@) == Err::<Seq<u8>, DaveError>(e),
            },
    {
        let n: usize = frame.len();
        if n < MIN_TRAILER_BYTES {
            return Err(DaveError::FrameTooShort);
        }
        if !has_dave_magic(frame) {
            return Err(DaveError::BadMagic);
        }
        let size: usize = frame[n - 3] as usize;
        if size > n || size < MIN_TRAILER_BYTES {
            return Err(DaveError::BadSupplementalSize);
        }
        let start: usize = n - size;
        let tag = slice_subrange(frame, start, start + TRUNCATED_TAG_BYTES);
        assert(frame@.skip(start + 8) =~= frame@.subrange(start + 8, n as int));
        let value: u64 = match read_leb128(slice_subrange(frame, start + TRUNCATED_TAG_BYTES, n)) {
            None => {
                return Err(DaveError::BadNonce);
            },
            Some((value, _)) => value,
        };
        let counter: u32 = (value % 0x1_0000_0000) as u32;
        let key = self.key_for(counter / 0x100_0000);
        let nonce = FrameCryptor::build_nonce(counter);
        let aad: Vec<u8> = Vec::new();
        let ghost body = frame@.take(start as int);
        assert(aad@ =~= Seq::<u8>::empty());
        let mut prefix: usize = 0;
        while prefix <= start && prefix <= MAX_UNENCRYPTED_PREFIX
            invariant
                prefix <= 17,
                n == frame@.len(),
                start <= n,
                aad@ == Seq::<u8>::empty(),
                body == frame@.take(start as int),
                open_frame(self.base(), frame@) == open_body(
                    key@,
                    nonce@,
                    body,
                    tag@,
                    prefix as nat,
                ),
            decreases 17 - prefix,
        {
            let ct = slice_subrange(frame, prefix, start);
            assert(ct@ =~= body.skip(prefix as int));
            if let Ok(payload) = gcm128_decrypt(&key, &nonce, ct, aad.as_slice(), tag) {
                return Ok(payload);
            }
            prefix = prefix + 1;
        }
        Err(DaveError::BadTag)
    }
}

/// Tells whether the frame ends with the DAVE marker. The filler that a sender puts in
/// place of silence does not.
pub fn has_dave_magic(frame: &[u8]) -> (r: bool)
    ensures
        r == ends_with_magic(frame@),
{
    let n: usize = frame.len();
    n >= 2 && frame[n - 2] == 0xFA && frame[n - 1] == 0xFA
}

/// The exporter context of a user: the id as eight bytes, least significant first. An id
/// that is not a number counts as zero.
pub fn user_id_context(user_id: &str) -> (r: Vec<u8>)
    ensures
        r@ == le64(
            match u64_of_text(user_id@) {
                Some(n) => n,
                None => 0,
            },
        ),
{
    let n: u64 = match parse_u64(user_id) {
        Some(n) => n,
        None => 0,
    };
    let mut out: Vec<u8> = Vec::new();
    push_le64(&mut out, n);
    assert(out@ =~= le64(n));
    out
}

/// Frames a binary message to the voice gateway: the opcode, then the payload.
pub fn client_binary(opcode: u8, payload: &[u8]) -> (r: Vec<u8>)
    ensures
        r@ == seq![opcode] + payload@,
{
    let mut out: Vec<u8> = Vec::new();
    out.push(opcode);
    push_all(&mut out, payload);
    assert(out@ =~= seq![opcode] + payload@);
    out
}

} // verus!

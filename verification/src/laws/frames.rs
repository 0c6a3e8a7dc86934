//! Encrypted frames and what they are built on: numbers as bytes, the cipher, the key schedule
//! and the secrets of the group.

use vstd::prelude::*;

use crate::bytes::{
    be16, be32, be64, bytes_equal, le32, le64, lemma_be32_len, lemma_be32_read, push_all, push_be16,
    push_be32, push_be64, push_le32, push_le64, read_be16, read_be32, u32_be_at,
};
use crate::dave::error::DaveError;
use crate::dave::gcm::{
    aes128, bit_length, counter_at, ctr_xor, first_block, gcm128_decrypt, gcm128_encrypt,
    gcm_stream, gcm_tag, gcm_tag_of, ghash, inc32, length_block,
};
use crate::dave::kdf::{
    expand_with_label, hash_ratchet_key, hkdf_block, hkdf_expand, hmac_sha256, label_info, labelled,
    mls_length, mls_vector, ratchet_key, ratchet_secret, write_mls_vec,
};
use crate::dave::leb128::{leb128_bytes, lemma_leb128_roundtrip, read_leb128, write_leb128};
use crate::dave::mls::{media_export, MlsSession};
use crate::dave::{
    authentic_at, client_binary, generation_of, nonce_of, open_body, seal_frame, user_id_context,
    FrameCryptor,
};
use crate::laws::packets::{number16, number32};
use crate::text::u64_of_text;

verus! {

broadcast use lemma_be32_len;

/// The number in four bytes, least significant first.
pub open spec fn little32(s: Seq<u8>) -> int {
    s[0] + s[1] * 0x100 + s[2] * 0x1_0000 + s[3] * 0x100_0000
}

/// Numbers are written most significant byte first, or least significant byte first, and read
/// back so.
pub proof fn law_numbers_as_bytes(x: u32, y: u64)
    ensures
        number32(be32(x)[0], be32(x)[1], be32(x)[2], be32(x)[3]) == x,
        le32(x).len() == 4,
        little32(le32(x)) == x,
        be64(y).len() == 8,
        number64(be64(y), 0) == y,
        le64(y).len() == 8,
        little32(le64(y).take(4)) + little32(le64(y).skip(4)) * 0x1_0000_0000 == y,
{
    lemma_be_number(x);
    lemma_be64_number(y);
    let hi = (y / 0x1_0000_0000) as u32;
    let lo = (y % 0x1_0000_0000) as u32;
    lemma_le_number(x);
    lemma_le_number(hi);
    lemma_le_number(lo);
    assert(le64(y).take(4) =~= le32(lo));
    assert(le64(y).skip(4) =~= le32(hi));
}

proof fn lemma_be_number(x: u32)
    ensures
        number32(be32(x)[0], be32(x)[1], be32(x)[2], be32(x)[3]) == x,
{
    let s = be32(x);
    assert(s.subrange(0, 4) =~= s);
    lemma_be32_read(s, 0, x);
    reveal(u32_be_at);
}

proof fn lemma_le_number(x: u32)
    ensures
        little32(le32(x)) == x,
{
}

/// The nonce of a frame: eight zeros, then the counter, least significant byte first.
pub proof fn law_frame_nonce(counter: u32, r: [u8; 12])
    requires
        call_ensures(FrameCryptor::build_nonce, (counter,), r),
    ensures
        forall|i: int| 0 <= i < 8 ==> #[trigger] r@[i] == 0,
        little32(r@.skip(8)) == counter,
{
    lemma_le_number(counter);
    assert(r@.skip(8) =~= le32(counter));
}

/// The generation of a counter is its top byte.
pub proof fn law_generation(counter: u32)
    ensures
        crate::dave::generation_of(counter) * 0x100_0000 <= counter,
        counter < (crate::dave::generation_of(counter) + 1) * 0x100_0000,
{
}

/// The block of the cipher's counter: the nonce of twelve bytes, and a number.
pub open spec fn is_counter_block(block: Seq<u8>, nonce: Seq<u8>, n: int) -> bool {
    &&& block.len() == 16
    &&& forall|i: int| 0 <= i < 12 ==> #[trigger] block[i] == nonce[i]
    &&& number32(block[12], block[13], block[14], block[15]) == n
}

/// Two lengths in bits, as two numbers of eight bytes.
pub open spec fn is_length_block(block: Seq<u8>, a: nat, b: nat) -> bool {
    &&& block.len() == 16
    &&& number64(block, 0) == a * 8
    &&& number64(block, 8) == b * 8
}

/// Encryption in Galois/Counter mode: each byte is combined with the key stream of the blocks
/// from two on, and the tag is the hash of the associated data, the ciphertext and their
/// lengths, combined with block one.
pub proof fn law_gcm(
    key: &[u8; 16],
    nonce: &[u8; 12],
    pt: &[u8],
    aad: &[u8],
    r: (Vec<u8>, [u8; 16]),
    i: int,
    block: Seq<u8>,
    first: Seq<u8>,
    lengths: Seq<u8>,
    k: int,
)
    requires
        call_ensures(gcm128_encrypt, (key, nonce, pt, aad), r),
        pt@.len() <= 0x1000_0000,
        aad@.len() <= 0x1000_0000,
        0 <= i < pt@.len(),
        is_counter_block(block, nonce@, 2 + i / 16),
        is_counter_block(first, nonce@, 1),
        is_length_block(lengths, aad@.len(), pt@.len()),
        0 <= k < 16,
    ensures
        r.0@.len() == pt@.len(),
        r.0@[i] == pt@[i] ^ aes128(key@, block)[i % 16],
        r.1@[k] == aes128(key@, first)[k] ^ ghash(
            aes128(key@, Seq::new(16, |j: int| 0u8)),
            aad@,
            r.0@,
            lengths,
        )[k],
{
    lemma_first_block(nonce@, first);
    lemma_stream_block(nonce@, i / 16, block);
    lemma_length_block(aad@.len(), pt@.len(), lengths);
}

proof fn lemma_first_block(nonce: Seq<u8>, first: Seq<u8>)
    requires
        nonce.len() == 12,
        is_counter_block(first, nonce, 1),
    ensures
        first == first_block(nonce),
{
    let f = first_block(nonce);
    lemma_be_number(1);
    assert(f[12] == be32(1)[0] && f[13] == be32(1)[1] && f[14] == be32(1)[2] && f[15]
        == be32(1)[3]);
    lemma_block_unique(first, f, nonce, 1);
}

proof fn lemma_counter_block(block: Seq<u8>, nonce: Seq<u8>, n: int, by: nat)
    requires
        nonce.len() == 12,
        is_counter_block(block, nonce, n),
        0 <= n + by < 0x1_0000_0000,
        0 <= n,
    ensures
        is_counter_block(counter_at(block, by), nonce, n + by),
{
    let m = (n + by) as u32;
    let at = counter_at(block, by);
    assert(u32_be_at(block, 12) == n) by {
        reveal(u32_be_at);
    }
    lemma_be_number(m);
    assert((n + by) % 0x1_0000_0000 == n + by);
    assert(at =~= block.take(12) + be32(m));
    assert(at[12] == be32(m)[0] && at[13] == be32(m)[1] && at[14] == be32(m)[2] && at[15]
        == be32(m)[3]);
    assert forall|i: int| 0 <= i < 12 implies #[trigger] at[i] == nonce[i] by {
        assert(at[i] == block[i]);
    }
}

proof fn lemma_stream_block(nonce: Seq<u8>, i: int, block: Seq<u8>)
    requires
        nonce.len() == 12,
        0 <= i <= 0x1000_0000,
        is_counter_block(block, nonce, 2 + i),
    ensures
        block == counter_at(counter_at(first_block(nonce), 1), i as nat),
{
    let f = first_block(nonce);
    lemma_be_number(1);
    assert(f[12] == be32(1)[0] && f[13] == be32(1)[1] && f[14] == be32(1)[2] && f[15]
        == be32(1)[3]);
    lemma_counter_block(f, nonce, 1, 1);
    lemma_counter_block(counter_at(f, 1), nonce, 2, i as nat);
    lemma_block_unique(block, counter_at(counter_at(f, 1), i as nat), nonce, 2 + i);
}

proof fn lemma_length_block(a: nat, b: nat, lengths: Seq<u8>)
    requires
        a <= 0x1000_0000,
        b <= 0x1000_0000,
        is_length_block(lengths, a, b),
    ensures
        lengths == length_block(a, b),
{
    let x = be64((a * 8) as u64);
    let y = be64((b * 8) as u64);
    let want = length_block(a, b);
    assert(bit_length(a) == a * 8 && bit_length(b) == b * 8);
    assert(want == x + y);
    lemma_be64_number((a * 8) as u64);
    lemma_be64_number((b * 8) as u64);
    assert(want.len() == 16);
    assert forall|i: int| 0 <= i < 8 implies want[i] == x[i] && want[8 + i] == #[trigger] y[i] by {}
    assert(number64(want, 0) == number64(x, 0)) by {
        assert(want[0] == x[0] && want[1] == x[1] && want[2] == x[2] && want[3] == x[3]);
        assert(want[4] == x[4] && want[5] == x[5] && want[6] == x[6] && want[7] == x[7]);
    }
    assert(number64(want, 8) == number64(y, 0)) by {
        assert(want[8] == y[0] && want[9] == y[1] && want[10] == y[2] && want[11] == y[3]);
        assert(want[12] == y[4] && want[13] == y[5] && want[14] == y[6] && want[15] == y[7]);
    }
    lemma_lengths_unique(lengths, want, a, b);
}

/// The number in eight bytes from a place on, most significant first.
pub open spec fn number64(s: Seq<u8>, i: int) -> int {
    number32(s[i], s[i + 1], s[i + 2], s[i + 3]) * 0x1_0000_0000 + number32(
        s[i + 4],
        s[i + 5],
        s[i + 6],
        s[i + 7],
    )
}

proof fn lemma_be64_number(y: u64)
    ensures
        be64(y).len() == 8,
        number64(be64(y), 0) == y,
{
    let hi = (y / 0x1_0000_0000) as u32;
    let lo = (y % 0x1_0000_0000) as u32;
    lemma_be_number(hi);
    lemma_be_number(lo);
    let s = be64(y);
    assert(s[0] == be32(hi)[0] && s[1] == be32(hi)[1] && s[2] == be32(hi)[2] && s[3] == be32(
        hi,
    )[3]);
    assert(s[4] == be32(lo)[0] && s[5] == be32(lo)[1] && s[6] == be32(lo)[2] && s[7] == be32(
        lo,
    )[3]);
}

proof fn lemma_four(a: u8, b: u8, c: u8, d: u8, e: u8, f: u8, g: u8, h: u8)
    requires
        number32(a, b, c, d) == number32(e, f, g, h),
    ensures
        a == e && b == f && c == g && d == h,
{
}

proof fn lemma_block_unique(a: Seq<u8>, b: Seq<u8>, nonce: Seq<u8>, n: int)
    requires
        is_counter_block(a, nonce, n),
        is_counter_block(b, nonce, n),
    ensures
        a == b,
{
    lemma_four(a[12], a[13], a[14], a[15], b[12], b[13], b[14], b[15]);
    assert forall|i: int| 0 <= i < 16 implies a[i] == b[i] by {
        if i < 12 {
            assert(a[i] == nonce[i] && b[i] == nonce[i]);
        }
    }
    assert(a =~= b);
}

proof fn lemma_lengths_unique(a: Seq<u8>, b: Seq<u8>, m: nat, n: nat)
    requires
        m <= 0x1000_0000,
        n <= 0x1000_0000,
        is_length_block(a, m, n),
        is_length_block(b, m, n),
    ensures
        a == b,
{
    lemma_four(a[0], a[1], a[2], a[3], b[0], b[1], b[2], b[3]);
    lemma_four(a[4], a[5], a[6], a[7], b[4], b[5], b[6], b[7]);
    lemma_four(a[8], a[9], a[10], a[11], b[8], b[9], b[10], b[11]);
    lemma_four(a[12], a[13], a[14], a[15], b[12], b[13], b[14], b[15]);
    assert(a =~= b);
}

/// What was encrypted is decrypted with the front of its tag, of any length, and with no other
/// tag.
pub proof fn law_gcm_decrypts(
    key: &[u8; 16],
    nonce: &[u8; 12],
    pt: &[u8],
    aad: &[u8],
    made: (Vec<u8>, [u8; 16]),
    ct: &[u8],
    tag: &[u8],
    r: Result<Vec<u8>, DaveError>,
)
    requires
        call_ensures(gcm128_encrypt, (key, nonce, pt, aad), made),
        ct@ == made.0@,
        call_ensures(gcm128_decrypt, (key, nonce, ct, aad, tag), r),
    ensures
        tag@.len() <= 16 && tag@ == made.1@.take(tag@.len() as int) ==> r is Ok && r->Ok_0@ == pt@,
        tag@.len() > 16 || tag@ != made.1@.take(tag@.len() as int) ==> r is Err,
{
    crate::dave::gcm::lemma_gcm_stream_twice(key@, nonce@, pt@);
}

/// The counter of a block moves on by one, and wraps, and the rest of the block stays.
pub proof fn law_counter_moves(block: &mut [u8; 16], done: ())
    requires
        call_ensures(inc32, (block,), done),
    ensures
        forall|i: int| 0 <= i < 12 ==> #[trigger] final(block)@[i] == old(block)@[i],
        number32(
            final(block)@[12],
            final(block)@[13],
            final(block)@[14],
            final(block)@[15],
        ) == (number32(
            old(block)@[12],
            old(block)@[13],
            old(block)@[14],
            old(block)@[15],
        ) + 1) % 0x1_0000_0000,
{
    reveal(u32_be_at);
    let n = ((u32_be_at(old(block)@, 12) + 1) % 0x1_0000_0000) as u32;
    lemma_be_number(n);
    let b = final(block)@;
    assert(b[12] == be32(n)[0] && b[13] == be32(n)[1] && b[14] == be32(n)[2] && b[15]
        == be32(n)[3]);
}

/// HKDF-Expand: the first block is the code of the information and a one, and each further one
/// is the code of the block before it, the information and its number.
pub proof fn law_hkdf(prk: &[u8], info: &[u8], length: usize, r: Vec<u8>, i: int, n: nat)
    requires
        call_ensures(hkdf_expand, (prk, info, length), r),
        0 <= i < length,
        0 < n < 256,
    ensures
        r@.len() == length,
        r@[i] == hkdf_block(prk@, info@, (i / 32 + 1) as nat)[i % 32],
        hkdf_block(prk@, info@, 1) == hmac_sha256(prk@, info@ + seq![1u8]),
        hkdf_block(prk@, info@, n + 1) == hmac_sha256(
            prk@,
            hkdf_block(prk@, info@, n) + info@ + seq![((n + 1) % 256) as u8],
        ),
{
    assert(hkdf_block(prk@, info@, 0) == Seq::<u8>::empty());
    assert(Seq::<u8>::empty() + info@ + seq![1u8] =~= info@ + seq![1u8]);
}

/// A vector is its length, then its bytes. A length below 64 takes one byte, one below 16384
/// two, with the top bits saying which; and what was there before stays in front.
pub proof fn law_vectors(out: &mut Vec<u8>, data: &[u8], done: ())
    requires
        call_ensures(write_mls_vec, (out, data), done),
    ensures
        ({
            let n = old(out)@.len() as int;
            let m = data@.len() as int;
            let w = final(out)@;
            &&& w.take(n) == old(out)@
            &&& w.skip(w.len() - m) == data@
            &&& m < 64 ==> w.len() == n + 1 + m && w[n] == m
            &&& 64 <= m < 16384 ==> w.len() == n + 2 + m && w[n] * 0x100 + w[n + 1] == 0x4000 + m
            &&& m >= 16384 ==> w.len() == n + 4 + m
        }),
{
    let n = old(out)@.len() as int;
    let m = data@.len() as int;
    let w = final(out)@;
    assert(w =~= old(out)@ + (mls_length(data@.len()) + data@));
    assert(w.take(n) =~= old(out)@);
    assert(w.skip(w.len() - m) =~= data@);
    if m < 64 {
        assert(w[n] == mls_length(data@.len())[0]);
    } else if m < 16384 {
        assert(w[n] == mls_length(data@.len())[0]);
        assert(w[n + 1] == mls_length(data@.len())[1]);
    }
}

/// The expansion of a secret under a label: the length as two bytes, the label behind the name
/// of the protocol and the context, each as a vector.
pub proof fn law_labels(
    secret: &[u8],
    label: &str,
    context: &[u8],
    length: usize,
    r: Vec<u8>,
    info: &[u8],
    expanded: Vec<u8>,
)
    requires
        call_ensures(expand_with_label, (secret, label, context, length), r),
        length <= 0xffff,
        info@ == seq![(length / 256) as u8, (length % 256) as u8] + mls_vector(
            vstd::utf8::encode_utf8("MLS 1.0 "@ + label@),
        ) + mls_vector(context@),
        call_ensures(hkdf_expand, (secret, info, length), expanded),
    ensures
        r@ == expanded@,
{
    assert(info@ =~= label_info(label@, context@, length as nat));
}

/// The key of a generation is derived from its secret and its number; the secret of each
/// generation is derived from the one before and that one's number; the first is the base.
pub proof fn law_ratchet(base: &[u8], generation: u32, r: [u8; 16], n: nat)
    requires
        call_ensures(hash_ratchet_key, (base, generation), r),
        n < u32::MAX,
    ensures
        r@ == labelled(ratchet_secret(base@, generation as nat), "key"@, be32(generation), 16),
        ratchet_secret(base@, 0) == base@,
        ratchet_secret(base@, n + 1) == labelled(
            ratchet_secret(base@, n),
            "secret"@,
            be32(n as u32),
            32,
        ),
{
}

/// A number that is written in groups of seven bits is read back, whatever stands behind it;
/// small ones take one byte.
pub proof fn law_leb128(
    out: &mut Vec<u8>,
    v: u64,
    done: (),
    rest: Seq<u8>,
    data: &[u8],
    r: Option<(u64, usize)>,
)
    requires
        call_ensures(write_leb128, (out, v), done),
        old(out)@.len() == 0,
        data@ == final(out)@ + rest,
        call_ensures(read_leb128, (data,), r),
    ensures
        r is Some,
        r->Some_0.0 == v,
        r->Some_0.1 == final(out)@.len(),
        v < 128 ==> final(out)@ == seq![v as u8],
        v >= 128 ==> final(out)@.len() > 1 && final(out)@[0] == 128 + v % 128,
{
    lemma_leb128_roundtrip(v, rest);
    assert(final(out)@ =~= leb128_bytes(v as nat));
    if v >= 128 {
        let tail = leb128_bytes((v / 128) as nat);
        lemma_leb128_roundtrip((v / 128) as u64, Seq::empty());
        assert(final(out)@ == seq![(v % 128 + 128) as u8] + tail);
    }
}

/// The secret of a sender is what the group exports for the label of the encryption, the
/// sender's id as eight bytes, least significant first, and sixteen bytes.
pub proof fn law_media_secrets(
    group: &MlsSession,
    user_id: u64,
    r: Result<Vec<u8>, DaveError>,
    own: Result<Vec<u8>, DaveError>,
    context: Seq<u8>,
)
    requires
        call_ensures(MlsSession::media_base_secret_for, (group, user_id), r),
        call_ensures(MlsSession::media_base_secret, (group,), own),
        context.len() == 8,
        little32(context.take(4)) + little32(context.skip(4)) * 0x1_0000_0000 == user_id,
    ensures
        ({
            let name = ("Discord Secure Frames v0"@, context, 16nat);
            &&& group.in_group() && group.exports().contains_key(name) ==> r is Ok && r->Ok_0@
                == group.exports()[name]
            &&& group.in_group() && !group.exports().contains_key(name) ==> r
                == Err::<Vec<u8>, DaveError>(DaveError::Export)
            &&& !group.in_group() ==> r == Err::<Vec<u8>, DaveError>(DaveError::NoGroup)
        }),
        user_id == group.user() ==> (own is Ok <==> r is Ok),
        user_id == group.user() && own is Ok ==> own->Ok_0@ == r->Ok_0@,
{
    law_numbers_as_bytes(0, user_id);
    lemma_context_unique(context, le64(user_id));
    assert(media_export(user_id) == ("Discord Secure Frames v0"@, context, 16nat));
}

proof fn lemma_context_unique(a: Seq<u8>, b: Seq<u8>)
    requires
        a.len() == 8,
        b.len() == 8,
        little32(a.take(4)) + little32(a.skip(4)) * 0x1_0000_0000 == little32(b.take(4))
            + little32(b.skip(4)) * 0x1_0000_0000,
    ensures
        a == b,
{
    lemma_four(a[3], a[2], a[1], a[0], b[3], b[2], b[1], b[0]);
    lemma_four(a[7], a[6], a[5], a[4], b[7], b[6], b[5], b[4]);
    assert(a =~= b);
}

/// The context of a user is the number that the id writes, as eight bytes, least significant
/// first; what is no number counts as zero.
pub proof fn law_user_context(id: &str, r: Vec<u8>)
    requires
        call_ensures(user_id_context, (id,), r),
    ensures
        r@.len() == 8,
        match u64_of_text(id@) {
            Some(n) => little32(r@.take(4)) + little32(r@.skip(4)) * 0x1_0000_0000 == n,
            None => little32(r@.take(4)) + little32(r@.skip(4)) * 0x1_0000_0000 == 0,
        },
{
    law_numbers_as_bytes(
        0,
        match u64_of_text(id@) {
            Some(n) => n,
            None => 0,
        },
    );
}

/// A binary message is its opcode, then its payload.
pub proof fn law_binary_messages(opcode: u8, payload: &[u8], r: Vec<u8>)
    requires
        call_ensures(client_binary, (opcode, payload), r),
    ensures
        r@.len() == payload@.len() + 1,
        r@[0] == opcode,
        r@.skip(1) == payload@,
{
    assert(r@.skip(1) =~= payload@);
}

/// What is no frame is refused for what is wrong with it: too short, without the marker, with a
/// trailer that is too small or larger than the frame.
pub proof fn law_refused_frames(c: &FrameCryptor, frame: &[u8], r: Result<Vec<u8>, DaveError>)
    requires
        call_ensures(FrameCryptor::decrypt, (c, frame), r),
    ensures
        ({
            let n = frame@.len() as int;
            &&& n < 11 ==> r == Err::<Vec<u8>, DaveError>(DaveError::FrameTooShort)
            &&& n >= 11 && (frame@[n - 1] != 0xFA || frame@[n - 2] != 0xFA) ==> r == Err::<
                Vec<u8>,
                DaveError,
            >(DaveError::BadMagic)
            &&& n >= 11 && frame@[n - 1] == 0xFA && frame@[n - 2] == 0xFA && (frame@[n - 3] < 11
                || frame@[n - 3] > n) ==> r == Err::<Vec<u8>, DaveError>(
                DaveError::BadSupplementalSize,
            )
        }),
{
}

/// Bytes in the clear in front of a frame, up to sixteen, are dropped: it decrypts to the
/// packet all the same, as long as no fewer of them leave something authentic.
pub proof fn law_clear_bytes_are_dropped(
    c: &FrameCryptor,
    clear: Seq<u8>,
    counter: u32,
    opus: Seq<u8>,
    frame: &[u8],
    r: Result<Vec<u8>, DaveError>,
)
    requires
        call_ensures(FrameCryptor::decrypt, (c, frame), r),
        clear.len() <= 16,
        frame@ == clear + seal_frame(c.base(), counter, opus),
        ({
            let key = ratchet_key(c.base(), generation_of(counter));
            let ct = gcm_stream(key, nonce_of(counter), opus);
            let tag = gcm_tag_of(key, nonce_of(counter), Seq::empty(), ct).take(8);
            forall|p: int|
                0 <= p < clear.len() ==> !#[trigger] authentic_at(
                    key,
                    nonce_of(counter),
                    clear + ct,
                    tag,
                    p,
                )
        }),
    ensures
        r is Ok,
        r->Ok_0@ == opus,
{
    let key = ratchet_key(c.base(), generation_of(counter));
    let nonce = nonce_of(counter);
    let ct = gcm_stream(key, nonce, opus);
    let full = gcm_tag_of(key, nonce, Seq::empty(), ct);
    let tag = full.take(8);
    let leb = leb128_bytes(counter as nat);
    let end = seq![(11 + leb.len()) as u8, 0xFAu8, 0xFAu8];
    lemma_leb128_roundtrip(counter as u64, end);
    let s = frame@;
    assert(s =~= clear + ct + tag + leb + end);
    let n = s.len() as int;
    let start = n - (11 + leb.len());
    assert(s[n - 3] == 11 + leb.len());
    assert(start == clear.len() + ct.len());
    assert(s.skip(start + 8) =~= leb + end);
    assert(s.take(start) =~= clear + ct);
    assert(s.subrange(start, start + 8) =~= tag);
    lemma_prefix(key, nonce, clear, ct, tag, full, 0);
    crate::dave::gcm::lemma_gcm_stream_twice(key, nonce, opus);
}

proof fn lemma_prefix(
    key: Seq<u8>,
    nonce: Seq<u8>,
    clear: Seq<u8>,
    ct: Seq<u8>,
    tag: Seq<u8>,
    full: Seq<u8>,
    p: nat,
)
    requires
        p <= clear.len() <= 16,
        full == gcm_tag_of(key, nonce, Seq::empty(), ct),
        tag == full.take(8),
        forall|q: int|
            0 <= q < clear.len() ==> !#[trigger] authentic_at(key, nonce, clear + ct, tag, q),
    ensures
        open_body(key, nonce, clear + ct, tag, p) == Ok::<Seq<u8>, DaveError>(
            gcm_stream(key, nonce, ct),
        ),
    decreases clear.len() - p,
{
    if p == clear.len() {
        assert((clear + ct).skip(p as int) =~= ct);
    } else {
        assert(!authentic_at(key, nonce, clear + ct, tag, p as int));
        lemma_prefix(key, nonce, clear, ct, tag, full, p + 1);
    }
}

/// The frame that follows `n` others: the ciphertext, as long as the packet; eight bytes of the
/// tag; the number `n`; the size of the trailer; and the marker.
pub proof fn law_frames_are_laid_out(
    c: &mut FrameCryptor,
    opus: &[u8],
    r: Result<Vec<u8>, DaveError>,
    number: &mut Vec<u8>,
    done: (),
)
    requires
        call_ensures(FrameCryptor::encrypt, (c, opus), r),
        old(number)@.len() == 0,
        call_ensures(write_leb128, (number, old(c).counter() as u64), done),
    ensures
        r is Ok,
        ({
            let f = r->Ok_0@;
            let n = f.len() as int;
            let m = opus@.len() as int;
            let k = final(number)@.len() as int;
            &&& n == m + 8 + k + 3
            &&& f.subrange(m + 8, m + 8 + k) == final(number)@
            &&& f[n - 3] == 8 + k + 3
            &&& f[n - 2] == 0xFA
            &&& f[n - 1] == 0xFA
        }),
{
    lemma_sealed(old(c).base(), old(c).counter(), opus@);
    assert(final(number)@ =~= leb128_bytes(old(c).counter() as nat));
}

/// What a sealed frame is made of.
pub proof fn lemma_sealed(base: Seq<u8>, counter: u32, opus: Seq<u8>)
    ensures
        ({
            let f = seal_frame(base, counter, opus);
            let leb = leb128_bytes(counter as nat);
            let n = f.len() as int;
            let m = opus.len() as int;
            let k = leb.len() as int;
            &&& n == m + 8 + k + 3
            &&& f.subrange(m + 8, m + 8 + k) == leb
            &&& f[n - 3] == 8 + k + 3
            &&& f[n - 2] == 0xFA
            &&& f[n - 1] == 0xFA
        }),
{
    let leb = leb128_bytes(counter as nat);
    lemma_leb128_roundtrip(counter as u64, Seq::empty());
    let key = ratchet_key(base, generation_of(counter));
    let ct = gcm_stream(key, nonce_of(counter), opus);
    let tag = gcm_tag_of(key, nonce_of(counter), Seq::empty(), ct).take(8);
    let f = seal_frame(base, counter, opus);
    let m = opus.len() as int;
    let k = leb.len() as int;
    assert(f.subrange(m + 8, m + 8 + k) =~= leb);
}

/// What is put behind bytes stands behind them: numbers of two, four and eight bytes, most or
/// least significant byte first, and other bytes.
pub proof fn law_bytes_are_put_behind(
    a: &mut Vec<u8>,
    x: u16,
    da: (),
    b: &mut Vec<u8>,
    y: u32,
    db: (),
    c: &mut Vec<u8>,
    z: u64,
    dc: (),
    d: &mut Vec<u8>,
    dd: (),
    e: &mut Vec<u8>,
    de: (),
    f: &mut Vec<u8>,
    data: &[u8],
    df: (),
)
    requires
        call_ensures(push_be16, (a, x), da),
        call_ensures(push_be32, (b, y), db),
        call_ensures(push_be64, (c, z), dc),
        call_ensures(push_le32, (d, y), dd),
        call_ensures(push_le64, (e, z), de),
        call_ensures(push_all, (f, data), df),
    ensures
        ({
            let n = old(a)@.len() as int;
            &&& final(a)@.len() == n + 2
            &&& final(a)@.take(n) == old(a)@
            &&& number16(final(a)@[n], final(a)@[n + 1]) == x
        }),
        ({
            let n = old(b)@.len() as int;
            let s = final(b)@;
            &&& s.len() == n + 4
            &&& s.take(n) == old(b)@
            &&& number32(s[n], s[n + 1], s[n + 2], s[n + 3]) == y
        }),
        ({
            let n = old(c)@.len() as int;
            &&& final(c)@.len() == n + 8
            &&& final(c)@.take(n) == old(c)@
            &&& number64(final(c)@.skip(n), 0) == z
        }),
        ({
            let n = old(d)@.len() as int;
            &&& final(d)@.len() == n + 4
            &&& final(d)@.take(n) == old(d)@
            &&& little32(final(d)@.skip(n)) == y
        }),
        ({
            let n = old(e)@.len() as int;
            let s = final(e)@.skip(n);
            &&& s.len() == 8
            &&& final(e)@.take(n) == old(e)@
            &&& little32(s.take(4)) + little32(s.skip(4)) * 0x1_0000_0000 == z
        }),
        final(f)@ == old(f)@ + data@,
{
    law_numbers_as_bytes(y, z);
    lemma_behind(old(a)@, be16(x));
    lemma_behind(old(b)@, be32(y));
    lemma_behind(old(c)@, be64(z));
    lemma_behind(old(d)@, le32(y));
    lemma_behind(old(e)@, le64(z));
    lemma_be16_number(x);
}

proof fn lemma_be16_number(x: u16)
    ensures
        be16(x).len() == 2,
        number16(be16(x)[0], be16(x)[1]) == x,
{
}

proof fn lemma_behind(a: Seq<u8>, b: Seq<u8>)
    ensures
        (a + b).take(a.len() as int) == a,
        (a + b).skip(a.len() as int) == b,
        forall|i: int| 0 <= i < b.len() ==> (a + b)[a.len() + i] == #[trigger] b[i],
{
    assert((a + b).take(a.len() as int) =~= a);
    assert((a + b).skip(a.len() as int) =~= b);
}

/// What is read are the two or four bytes at the place, most significant first.
pub proof fn law_numbers_are_read(data: &[u8], i: usize, a: u16, b: u32, other: &[u8], same: bool)
    requires
        i + 4 <= data@.len(),
        call_ensures(read_be16, (data, i), a),
        call_ensures(read_be32, (data, i), b),
        call_ensures(bytes_equal, (data, other), same),
    ensures
        a == number16(data@[i as int], data@[i + 1]),
        b == number32(data@[i as int], data@[i + 1], data@[i + 2], data@[i + 3]),
        same ==> data@ == other@,
        data@ == other@ ==> same,
{
    reveal(u32_be_at);
}

/// The stream of a counter: each byte is joined with that of the block it falls in, the first
/// block for the counter itself; twice gives the bytes back.
pub proof fn law_streams(
    key: &[u8; 16],
    counter: [u8; 16],
    data: &[u8],
    r: Vec<u8>,
    i: int,
    again: &[u8],
    back: Vec<u8>,
)
    requires
        call_ensures(ctr_xor, (key, counter, data), r),
        0 <= i < data@.len(),
        again@ == r@,
        call_ensures(ctr_xor, (key, counter, again), back),
    ensures
        r@.len() == data@.len(),
        i < 16 ==> r@[i] == data@[i] ^ aes128(key@, counter@)[i],
        r@[i] == data@[i] ^ aes128(key@, counter_at(counter@, (i / 16) as nat))[i % 16],
        back@ == data@,
{
    if i < 16 {
        assert(i / 16 == 0 && i % 16 == i);
        let c = counter@;
        let x = u32_be_at(c, 12);
        let b = be32(x);
        lemma_be_number(x);
        reveal(u32_be_at);
        lemma_four(c[12], c[13], c[14], c[15], b[0], b[1], b[2], b[3]);
        assert(counter_at(c, 0) =~= c);
    }
    assert forall|k: int| 0 <= k < data@.len() implies #[trigger] back@[k] == data@[k] by {
        let x = data@[k];
        let y = aes128(key@, counter_at(counter@, (k / 16) as nat))[k % 16];
        assert((x ^ y) ^ y == x) by (bit_vector);
    }
    assert(back@ =~= data@);
}

/// What a frame holds is the packet under the key of its number's generation, which is the top
/// byte, with the nonce of the number and nothing else authenticated: first the ciphertext, then
/// the front of the tag.
pub proof fn law_frames_are_encrypted(
    c: &mut FrameCryptor,
    opus: &[u8],
    r: Result<Vec<u8>, DaveError>,
    base: &[u8],
    generation: u32,
    key: [u8; 16],
    nonce: [u8; 12],
    nothing: &[u8],
    sealed: (Vec<u8>, [u8; 16]),
)
    requires
        call_ensures(FrameCryptor::encrypt, (c, opus), r),
        base@ == old(c).base(),
        generation * 0x100_0000 <= old(c).counter() < (generation + 1) * 0x100_0000,
        call_ensures(hash_ratchet_key, (base, generation), key),
        call_ensures(FrameCryptor::build_nonce, (old(c).counter(),), nonce),
        nothing@.len() == 0,
        call_ensures(gcm128_encrypt, (&key, &nonce, opus, nothing), sealed),
    ensures
        r is Ok,
        r->Ok_0@.len() >= opus@.len() + 8,
        r->Ok_0@.take(opus@.len() as int) == sealed.0@,
        r->Ok_0@.subrange(opus@.len() as int, opus@.len() as int + 8) == sealed.1@.take(8),
        final(c).counter() == (old(c).counter() + 1) % 0x1_0000_0000,
        final(c).base() == old(c).base(),
{
    let counter = old(c).counter();
    assert(generation == generation_of(counter));
    assert(nothing@ =~= Seq::<u8>::empty());
    lemma_front_of_frame(old(c).base(), counter, opus@);
}

proof fn lemma_front_of_frame(base: Seq<u8>, counter: u32, opus: Seq<u8>)
    ensures
        ({
            let key = ratchet_key(base, generation_of(counter));
            let ct = gcm_stream(key, nonce_of(counter), opus);
            let tag = gcm_tag_of(key, nonce_of(counter), Seq::empty(), ct);
            let f = seal_frame(base, counter, opus);
            let m = opus.len() as int;
            &&& f.len() >= m + 8
            &&& f.take(m) == ct
            &&& f.subrange(m, m + 8) == tag.take(8)
        }),
{
    let key = ratchet_key(base, generation_of(counter));
    let ct = gcm_stream(key, nonce_of(counter), opus);
    let tag = gcm_tag_of(key, nonce_of(counter), Seq::empty(), ct);
    let f = seal_frame(base, counter, opus);
    let m = opus.len() as int;
    assert(f.take(m) =~= ct);
    assert(f.subrange(m, m + 8) =~= tag.take(8));
}

/// A frame is told from other payloads by its last two bytes.
pub proof fn law_marker(frame: &[u8], r: bool)
    requires
        call_ensures(crate::dave::has_dave_magic, (frame,), r),
    ensures
        r <==> frame@.len() >= 2 && frame@[frame@.len() - 2] == 0xFA && frame@[frame@.len() - 1]
            == 0xFA,
{
}

/// The tag by itself is the one that comes with the ciphertext, which is as long as what was
/// encrypted.
pub proof fn law_tags(
    key: &[u8; 16],
    nonce: &[u8; 12],
    pt: &[u8],
    aad: &[u8],
    sealed: (Vec<u8>, [u8; 16]),
    ct: &[u8],
    tag: [u8; 16],
)
    requires
        call_ensures(gcm128_encrypt, (key, nonce, pt, aad), sealed),
        ct@ == sealed.0@,
        call_ensures(gcm_tag, (key, nonce, aad, ct), tag),
    ensures
        tag@ == sealed.1@,
        ct@.len() == pt@.len(),
{
}

} // verus!

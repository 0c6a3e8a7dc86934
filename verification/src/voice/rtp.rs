//! Voice packets: an RTP header in the clear, the payload sealed with
//! XChaCha20-Poly1305, and the counter of the nonce at the end.

use chacha20poly1305::aead::{Aead, KeyInit, Payload};
use chacha20poly1305::{Key, XChaCha20Poly1305, XNonce};
use vstd::prelude::*;
use vstd::slice::slice_subrange;

use crate::bytes::{
    be16, be32, lemma_be16_read, lemma_be32_len, lemma_be32_read, push_all, push_be32,
    read_be16, read_be32, u16_be_at, u32_be_at,
};

verus! {

broadcast use lemma_be32_len;

/// The samples of each channel in a frame of 20 ms.
pub const FRAME_SAMPLES: u32 = 960;

/// The bytes of a header without extras.
pub const HEADER_BYTES: usize = 12;

/// The bytes of the authentication tag and of the counter behind it.
pub const SEAL_BYTES: usize = 20;

/// The ciphertext with its tag that XChaCha20-Poly1305 makes of a message.
pub uninterp spec fn xchacha_seal(
    key: Seq<u8>,
    nonce: Seq<u8>,
    msg: Seq<u8>,
    aad: Seq<u8>,
) -> Seq<u8>;

/// The message that XChaCha20-Poly1305 finds in a ciphertext, where the tag is right.
pub uninterp spec fn xchacha_open(
    key: Seq<u8>,
    nonce: Seq<u8>,
    ct: Seq<u8>,
    aad: Seq<u8>,
) -> Option<Seq<u8>>;

/// The longest message that the cipher takes: `2^32 - 2` blocks of 64 bytes, for the counter
/// of blocks has 32 bits and starts at one.
pub const MAX_SEALED_BYTES: u64 = 0x3f_ffff_ff80;

/// The bytes of the authentication tag.
pub const TAG_BYTES: usize = 16;

/// A message of this length is one that the cipher takes.
pub open spec fn sealable(len: nat) -> bool {
    len <= MAX_SEALED_BYTES
}

/// Calls `Aead::encrypt` of `XChaCha20Poly1305`. It succeeds on every message that the
/// cipher takes; the ciphertext is a function of the arguments, is 16 bytes longer than the
/// message, and opens to the message under the same key, nonce and associated data.
#[verifier::external_body]
fn encrypt(key: &[u8; 32], nonce: &[u8; 24], msg: &[u8], aad: &[u8]) -> (r: Option<Vec<u8>>)
    requires
        sealable(msg@.len()),
    ensures
        r is Some,
        r is Some ==> {
            let ct = r->Some_0@;
            &&& ct == xchacha_seal(key@, nonce@, msg@, aad@)
            &&& ct.len() == msg@.len() + 16
            &&& xchacha_open(key@, nonce@, ct, aad@) == Some(msg@)
        },
{
    let cipher = XChaCha20Poly1305::new(Key::from_slice(key));
    cipher.encrypt(XNonce::from_slice(nonce), Payload { msg, aad }).ok()
}

/// Calls `Aead::decrypt` of `XChaCha20Poly1305`. What comes back is a function of the
/// arguments; a message is 16 bytes shorter than its ciphertext.
#[verifier::external_body]
fn decrypt(key: &[u8; 32], nonce: &[u8; 24], ct: &[u8], aad: &[u8]) -> (r: Option<Vec<u8>>)
    requires
        ct@.len() <= MAX_SEALED_BYTES + TAG_BYTES,
    ensures
        match r {
            Some(msg) => xchacha_open(key@, nonce@, ct@, aad@) == Some(msg@) && msg@.len() + 16
                == ct@.len(),
            None => xchacha_open(key@, nonce@, ct@, aad@) is None,
        },
{
    let cipher = XChaCha20Poly1305::new(Key::from_slice(key));
    cipher.decrypt(XNonce::from_slice(nonce), Payload { msg: ct, aad }).ok()
}

/// The header of the packets that are sent: version 2, payload type `0x78`.
pub open spec fn header_bytes(seq: u16, timestamp: u32, ssrc: u32) -> Seq<u8> {
    seq![0x80u8, 0x78u8] + be16(seq) + be32(timestamp) + be32(ssrc)
}

/// The nonce for a counter: the counter, most significant byte first, and zeros.
pub open spec fn packet_nonce(counter: Seq<u8>) -> Seq<u8> {
    counter + Seq::new(20, |i: int| 0u8)
}

/// How much of a packet is in the clear: the header, four bytes for each of up to 15
/// sources, and the four bytes of an extension header. There must be room for the tag
/// and the counter behind it.
pub open spec fn clear_len(first: u8, n: nat) -> Option<nat> {
    let len = 12 + 4 * (first as nat % 16) + (if first as nat / 16 % 2 == 1 {
        4nat
    } else {
        0
    });
    if n < len + 20 {
        None
    } else {
        Some(len)
    }
}

/// The packet that carries `payload`.
pub open spec fn packet_bytes(
    key: Seq<u8>,
    seq: u16,
    timestamp: u32,
    ssrc: u32,
    counter: u32,
    payload: Seq<u8>,
) -> Seq<u8> {
    let header = header_bytes(seq, timestamp, ssrc);
    header + xchacha_seal(key, packet_nonce(be32(counter)), payload, header) + be32(counter)
}

/// What was found in a packet from the network.
pub enum Received {
    /// The packet has no room for what it must hold.
    Unreadable,
    /// The packet is not authentic.
    Rejected,
    /// The packet carries this payload.
    Packet { seq: u16, ssrc: u32, payload: Vec<u8> },
}

/// What a packet from the network holds: nothing readable, nothing authentic, or a
/// sequence number, a source and a payload.
pub enum ReceivedView {
    Unreadable,
    Rejected,
    Packet { seq: u16, ssrc: u32, payload: Seq<u8> },
}

impl View for Received {
    type V = ReceivedView;

    open spec fn view(&self) -> ReceivedView {
        match *self {
            Received::Unreadable => ReceivedView::Unreadable,
            Received::Rejected => ReceivedView::Rejected,
            Received::Packet { seq, ssrc, payload } => ReceivedView::Packet {
                seq,
                ssrc,
                payload: payload@,
            },
        }
    }
}

/// What a packet holds under the transport key. What is longer than any message that can
/// be sealed is not authentic.
pub open spec fn packet_content(key: Seq<u8>, packet: Seq<u8>) -> ReceivedView {
    let n = packet.len();
    if n < 12 {
        ReceivedView::Unreadable
    } else {
        match clear_len(packet[0], n) {
            None => ReceivedView::Unreadable,
            Some(len) => if !sealable((n - len - 20) as nat) {
                ReceivedView::Rejected
            } else {
                match xchacha_open(
                    key,
                    packet_nonce(packet.skip(n - 4)),
                    packet.subrange(len as int, n - 4),
                    packet.take(len as int),
                ) {
                    None => ReceivedView::Rejected,
                    Some(payload) => ReceivedView::Packet {
                        seq: u16_be_at(packet, 2),
                        ssrc: u32_be_at(packet, 8),
                        payload,
                    },
                }
            },
        }
    }
}

/// The header of a packet that is sent.
pub fn rtp_header(seq: u16, timestamp: u32, ssrc: u32) -> (r: [u8; 12])
    ensures
        r@ == header_bytes(seq, timestamp, ssrc),
{
    proof {
        reveal(be32);
    }
    let r: [u8; 12] = [
        0x80,
        0x78,
        (seq / 256) as u8,
        (seq % 256) as u8,
        (timestamp / 0x100_0000) as u8,
        (timestamp / 0x1_0000 % 256) as u8,
        (timestamp / 0x100 % 256) as u8,
        (timestamp % 256) as u8,
        (ssrc / 0x100_0000) as u8,
        (ssrc / 0x1_0000 % 256) as u8,
        (ssrc / 0x100 % 256) as u8,
        (ssrc % 256) as u8,
    ];
    assert(r@ =~= header_bytes(seq, timestamp, ssrc));
    r
}

/// How many of the `n` bytes of the packet are in the clear.
pub fn unencrypted_prefix_len(packet: &[u8], n: usize) -> (r: Option<usize>)
    requires
        n >= 12 ==> packet@.len() > 0,
    ensures
        match r {
            Some(len) => n >= 12 && clear_len(packet@[0], n as nat) == Some(len as nat),
            None => n < 12 || clear_len(packet@[0], n as nat) is None,
        },
{
    if n < HEADER_BYTES {
        return None;
    }
    let first: u8 = packet[0];
    let mut len: usize = HEADER_BYTES + 4 * (first % 16) as usize;
    if first / 16 % 2 == 1 {
        len = len + 4;
    }
    if n < len + SEAL_BYTES {
        return None;
    }
    Some(len)
}

fn nonce_array(counter: &[u8]) -> (r: [u8; 24])
    requires
        counter@.len() == 4,
    ensures
        r@ == packet_nonce(counter@),
{
    let mut r: [u8; 24] = [0u8; 24];
    r[0] = counter[0];
    r[1] = counter[1];
    r[2] = counter[2];
    r[3] = counter[3];
    assert(r@ =~= packet_nonce(counter@));
    r
}

/// Reads a packet from the network.
pub fn open_packet(key: &[u8; 32], packet: &[u8]) -> (r: Received)
    ensures
        r@ == packet_content(key@, packet@),
        match r {
            Received::Packet { seq, ssrc, payload } => payload@.len() + 32 <= packet@.len(),
            _ => true,
        },
{
    let n: usize = packet.len();
    let len: usize = match unencrypted_prefix_len(packet, n) {
        None => {
            return Received::Unreadable;
        },
        Some(len) => len,
    };
    if (n - len - SEAL_BYTES) as u64 > MAX_SEALED_BYTES {
        return Received::Rejected;
    }
    assert(packet@.skip(n - 4) =~= packet@.subrange(n - 4, n as int));
    assert(packet@.take(len as int) =~= packet@.subrange(0, len as int));
    let nonce = nonce_array(slice_subrange(packet, n - 4, n));
    let aad = slice_subrange(packet, 0, len);
    let ct = slice_subrange(packet, len, n - 4);
    match decrypt(key, &nonce, ct, aad) {
        None => Received::Rejected,
        Some(payload) => Received::Packet {
            seq: read_be16(packet, 2),
            ssrc: read_be32(packet, 8),
            payload,
        },
    }
}

/// Packets with different counters have different nonces.
pub proof fn lemma_nonces_differ(a: u32, b: u32)
    requires
        a != b,
    ensures
        packet_nonce(be32(a)) != packet_nonce(be32(b)),
{
    let x = packet_nonce(be32(a));
    let y = packet_nonce(be32(b));
    assert(x.subrange(0, 4) =~= be32(a));
    assert(y.subrange(0, 4) =~= be32(b));
    lemma_be32_read(x, 0, a);
    lemma_be32_read(y, 0, b);
}

proof fn lemma_packet_opens(
    key: Seq<u8>,
    seq: u16,
    timestamp: u32,
    ssrc: u32,
    counter: u32,
    payload: Seq<u8>,
)
    requires
        ({
            let header = header_bytes(seq, timestamp, ssrc);
            let nonce = packet_nonce(be32(counter));
            let ct = xchacha_seal(key, nonce, payload, header);
            &&& ct.len() == payload.len() + 16
            &&& sealable(payload.len())
            &&& xchacha_open(key, nonce, ct, header) == Some(payload)
        }),
    ensures
        packet_content(key, packet_bytes(key, seq, timestamp, ssrc, counter, payload)) == (
        ReceivedView::Packet { seq, ssrc, payload }),
{
    let header = header_bytes(seq, timestamp, ssrc);
    let nonce = packet_nonce(be32(counter));
    let ct = xchacha_seal(key, nonce, payload, header);
    let packet = packet_bytes(key, seq, timestamp, ssrc, counter, payload);
    let n = packet.len();
    assert(header.len() == 12);
    assert(packet[0] == 0x80u8);
    assert(clear_len(0x80u8, n) == Some(12nat));
    assert(packet.skip(n - 4) =~= be32(counter));
    assert(packet.take(12) =~= header);
    assert(packet.subrange(12, n - 4) =~= ct);
    assert(packet.subrange(2, 4) =~= be16(seq));
    lemma_be16_read(packet, 2, seq);
    assert(packet.subrange(8, 12) =~= be32(ssrc));
    lemma_be32_read(packet, 8, ssrc);
}

/// The numbers that the next packet to be sent will carry.
pub struct RtpSender {
    /// The source of the packets.
    pub ssrc: u32,
    /// The sequence number of the next packet.
    pub seq: u16,
    /// The time of the next packet, in samples.
    pub timestamp: u32,
    /// The counter of the next packet's nonce.
    pub counter: u32,
}

/// Moves a counter on by `by`; it wraps.
pub open spec fn advanced(x: int, by: int, modulus: int) -> int {
    (x + by) % modulus
}

impl RtpSender {
    /// A sender that starts with the given sequence number and time.
    pub fn new(ssrc: u32, seq: u16, timestamp: u32) -> (r: RtpSender)
        ensures
            r == (RtpSender { ssrc, seq, timestamp, counter: 0 }),
    {
        RtpSender { ssrc, seq, timestamp, counter: 0 }
    }

    /// Lets a frame pass without sending it: the sequence number and the time move on.
    pub fn skip(&mut self)
        ensures
            final(self).ssrc == old(self).ssrc,
            final(self).counter == old(self).counter,
            final(self).seq == advanced(old(self).seq as int, 1, 0x1_0000),
            final(self).timestamp == advanced(old(self).timestamp as int, 960, 0x1_0000_0000),
    {
        self.seq = self.seq.wrapping_add(1);
        self.timestamp = self.timestamp.wrapping_add(FRAME_SAMPLES);
    }

    /// The packet for the next frame. Who holds the key reads the payload, the source and
    /// the sequence number out of it. A payload too long for the cipher gives none, and
    /// the sender stays as it was.
    pub fn packet(&mut self, key: &[u8; 32], payload: &[u8]) -> (r: Option<Vec<u8>>)
        ensures
            r is Some == sealable(payload@.len()),
            r is None ==> *final(self) == *old(self),
            r is Some ==> {
                &&& r->Some_0@ == packet_bytes(
                    key@,
                    old(self).seq,
                    old(self).timestamp,
                    old(self).ssrc,
                    old(self).counter,
                    payload@,
                )
                &&& packet_content(key@, r->Some_0@) == (ReceivedView::Packet {
                    seq: old(self).seq,
                    ssrc: old(self).ssrc,
                    payload: payload@,
                })
                &&& r->Some_0@.len() == payload@.len() + 32
                &&& final(self).ssrc == old(self).ssrc
                &&& final(self).seq == advanced(old(self).seq as int, 1, 0x1_0000)
                &&& final(self).timestamp == advanced(
                    old(self).timestamp as int,
                    960,
                    0x1_0000_0000,
                )
                &&& final(self).counter == advanced(old(self).counter as int, 1, 0x1_0000_0000)
            },
    {
        if payload.len() as u64 > MAX_SEALED_BYTES {
            return None;
        }
        let header = rtp_header(self.seq, self.timestamp, self.ssrc);
        let mut counter: Vec<u8> = Vec::new();
        push_be32(&mut counter, self.counter);
        assert(counter@ =~= be32(self.counter));
        let nonce = nonce_array(counter.as_slice());
        let ct = match encrypt(key, &nonce, payload, header.as_slice()) {
            None => {
                return None;
            },
            Some(ct) => ct,
        };
        let mut packet: Vec<u8> = Vec::new();
        push_all(&mut packet, header.as_slice());
        push_all(&mut packet, ct.as_slice());
        push_all(&mut packet, counter.as_slice());
        assert(packet@ =~= packet_bytes(
            key@,
            self.seq,
            self.timestamp,
            self.ssrc,
            self.counter,
            payload@,
        ));
        proof {
            lemma_packet_opens(
                key@,
                self.seq,
                self.timestamp,
                self.ssrc,
                self.counter,
                payload@,
            );
        }
        self.skip();
        self.counter = self.counter.wrapping_add(1);
        Some(packet)
    }
}

} // verus!

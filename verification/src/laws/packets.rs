//! Voice packets: what a packet holds, whoever made it, and what this client sends.

use vstd::prelude::*;

use crate::bytes::{be32, lemma_be32_len, lemma_be32_read, u32_be_at};
use crate::voice::rtp::{
    open_packet, rtp_header, unencrypted_prefix_len, xchacha_open, Received,
    RtpSender,
};

verus! {

broadcast use lemma_be32_len;

/// The number in two bytes, most significant first.
pub open spec fn number16(a: u8, b: u8) -> int {
    a * 0x100 + b
}

/// The number in four bytes, most significant first.
pub open spec fn number32(a: u8, b: u8, c: u8, d: u8) -> int {
    a * 0x100_0000 + b * 0x1_0000 + c * 0x100 + d
}

/// The bytes can stand in the clear in front of a packet: twelve of the header, four for each
/// source that the low half of the first byte counts, and four more where its fifth bit
/// announces an extension.
pub open spec fn in_the_clear(clear: Seq<u8>) -> bool {
    &&& clear.len() >= 12
    &&& clear.len() == 12 + 4 * (clear[0] as int % 16) + (if clear[0] as int / 16 % 2 == 1 {
        4int
    } else {
        0
    })
}

/// The nonce of a packet: the four bytes at its end, then zeros.
pub open spec fn is_nonce(nonce: Seq<u8>, end: Seq<u8>) -> bool {
    &&& nonce.len() == 24
    &&& end.len() == 4
    &&& forall|i: int| 0 <= i < 4 ==> nonce[i] == #[trigger] end[i]
    &&& forall|i: int| 4 <= i < 24 ==> #[trigger] nonce[i] == 0
}

/// Whatever stands in the clear in front of a packet, with sources and an extension or
/// without, a packet whose sealed part opens with exactly that as associated data is opened
/// to its payload, with the source and the sequence number of its header; and one whose
/// sealed part does not open so is refused.
pub proof fn law_packets_open(
    key: &[u8; 32],
    packet: &[u8],
    r: Received,
    clear: Seq<u8>,
    sealed: Seq<u8>,
    end: Seq<u8>,
    nonce: Seq<u8>,
)
    requires
        call_ensures(open_packet, (key, packet), r),
        in_the_clear(clear),
        is_nonce(nonce, end),
        16 <= sealed.len(),
        packet@ == clear + sealed + end,
    ensures
        sealed.len() - 16 > 0x3f_ffff_ff80 ==> r is Rejected,
        sealed.len() - 16 <= 0x3f_ffff_ff80 ==> match xchacha_open(key@, nonce, sealed, clear) {
            Some(payload) => r is Packet && r->payload@ == payload && r->seq == number16(
                clear[2],
                clear[3],
            ) && r->ssrc == number32(clear[8], clear[9], clear[10], clear[11]),
            None => r is Rejected,
        },
{
    let n = packet@.len() as int;
    assert(packet@[0] == clear[0]);
    assert(packet@.skip(n - 4) =~= end);
    assert(packet@.subrange(clear.len() as int, n - 4) =~= sealed);
    assert(packet@.take(clear.len() as int) =~= clear);
    assert(nonce =~= end + Seq::new(20, |i: int| 0u8));
    assert(packet@[2] == clear[2] && packet@[3] == clear[3]);
    assert(packet@[8] == clear[8] && packet@[9] == clear[9] && packet@[10] == clear[10]
        && packet@[11] == clear[11]);
    reveal(u32_be_at);
}

/// A packet that has no room for what must stand in the clear, the tag and the end is not
/// read.
pub proof fn law_short_packets_are_not_read(key: &[u8; 32], packet: &[u8], r: Received)
    requires
        call_ensures(open_packet, (key, packet), r),
    ensures
        r is Unreadable <==> packet@.len() < 12 || packet@.len() < 32 + 4 * (packet@[0] as int
            % 16) + (if packet@[0] as int / 16 % 2 == 1 {
            4int
        } else {
            0
        }),
{
}

/// How much of a packet stands in the clear grows by four bytes for each source and by four
/// for an extension, and leaves room for the tag and the end.
pub proof fn law_clear_part(packet: &[u8], n: usize, r: Option<usize>)
    requires
        packet@.len() > 0,
        call_ensures(unencrypted_prefix_len, (packet, n), r),
    ensures
        r is Some ==> r->Some_0 + 20 <= n,
        r is Some ==> r->Some_0 == 12 + 4 * (packet@[0] as int % 16) + (if packet@[0] as int / 16
            % 2 == 1 {
            4int
        } else {
            0
        }),
        r is None ==> n < 12 || n < 32 + 4 * (packet@[0] as int % 16) + (if packet@[0] as int / 16
            % 2 == 1 {
            4int
        } else {
            0
        }),
{
}

/// The header of a packet that is sent: version two without sources or an extension, the type
/// of Opus, then the sequence number, the time and the source, as numbers.
pub proof fn law_header(seq: u16, timestamp: u32, ssrc: u32, r: [u8; 12])
    requires
        call_ensures(rtp_header, (seq, timestamp, ssrc), r),
    ensures
        r@[0] == 0x80,
        r@[1] == 0x78,
        number16(r@[2], r@[3]) == seq,
        number32(r@[4], r@[5], r@[6], r@[7]) == timestamp,
        number32(r@[8], r@[9], r@[10], r@[11]) == ssrc,
        in_the_clear(r@),
{
    assert(r@.subrange(4, 8) =~= be32(timestamp));
    assert(r@.subrange(8, 12) =~= be32(ssrc));
    lemma_be32_read(r@, 4, timestamp);
    lemma_be32_read(r@, 8, ssrc);
    reveal(u32_be_at);
}

/// What this client sends, whoever holds the key opens to the payload, from the client's
/// source and with the sequence number that was due; and the next packet has the next number,
/// a time twenty milliseconds later, and a counter of its own.
pub proof fn law_sent_packets_open(
    sender: &mut RtpSender,
    key: &[u8; 32],
    payload: &[u8],
    sent: Option<Vec<u8>>,
    packet: &[u8],
    r: Received,
)
    requires
        call_ensures(RtpSender::packet, (sender, key, payload), sent),
        sent is Some,
        packet@ == sent->Some_0@,
        call_ensures(open_packet, (key, packet), r),
    ensures
        r is Packet,
        r->payload@ == payload@,
        r->seq == old(sender).seq,
        r->ssrc == old(sender).ssrc,
        final(sender).ssrc == old(sender).ssrc,
        final(sender).seq == (old(sender).seq + 1) % 0x1_0000,
        final(sender).timestamp == (old(sender).timestamp + 960) % 0x1_0000_0000,
        final(sender).counter == (old(sender).counter + 1) % 0x1_0000_0000,
{
}

/// Every payload that the cipher takes is sent, with the header in the clear, sixteen bytes more
/// than it has, and the counter at the end; of one that is too long nothing is.
pub proof fn law_packets_are_made(
    sender: &mut RtpSender,
    key: &[u8; 32],
    payload: &[u8],
    sent: Option<Vec<u8>>,
)
    requires
        call_ensures(RtpSender::packet, (sender, key, payload), sent),
    ensures
        sent is Some <==> payload@.len() <= 0x3f_ffff_ff80,
        sent is Some ==> sent->Some_0@.len() == payload@.len() + 32,
        sent is Some ==> {
            let p = sent->Some_0@;
            let n = p.len() as int;
            &&& p[0] == 0x80
            &&& p[1] == 0x78
            &&& number16(p[2], p[3]) == old(sender).seq
            &&& number32(p[4], p[5], p[6], p[7]) == old(sender).timestamp
            &&& number32(p[8], p[9], p[10], p[11]) == old(sender).ssrc
            &&& number32(p[n - 4], p[n - 3], p[n - 2], p[n - 1]) == old(sender).counter
        },
        sent is None ==> *final(sender) == *old(sender),
{
    if sent is Some {
        let p = sent->Some_0@;
        let n = p.len() as int;
        assert(p.subrange(4, 8) =~= be32(old(sender).timestamp));
        assert(p.subrange(8, 12) =~= be32(old(sender).ssrc));
        assert(p.subrange(n - 4, n) =~= be32(old(sender).counter));
        lemma_be32_read(p, 4, old(sender).timestamp);
        lemma_be32_read(p, 8, old(sender).ssrc);
        lemma_be32_read(p, n - 4, old(sender).counter);
        reveal(u32_be_at);
    }
}

/// A frame that is let pass, while the microphone is off, moves the number and the time on but
/// not the counter.
pub proof fn law_skipped_frames(sender: &mut RtpSender, r: ())
    requires
        call_ensures(RtpSender::skip, (sender,), r),
    ensures
        final(sender).ssrc == old(sender).ssrc,
        final(sender).seq == (old(sender).seq + 1) % 0x1_0000,
        final(sender).timestamp == (old(sender).timestamp + 960) % 0x1_0000_0000,
        final(sender).counter == old(sender).counter,
{
}

} // verus!

//! The sending side of a call: when there is something to send, and what goes out.

use vstd::prelude::*;

use crate::dave::{lemma_frame_roundtrip, seal_frame};
use crate::voice::keys::{KeysView, MediaKeys};
use crate::voice::receiver::{bumped, packet_kind, PacketKind};
use crate::voice::rtp::{
    advanced, packet_bytes, packet_content, sealable, ReceivedView, RtpSender,
};

verus! {

/// After how many waits without a frame the user is warned: about three seconds.
pub const SILENT_WAITS: u64 = 600;

/// The sending side of a call.
pub struct Sender {
    /// The numbers of the next packet.
    pub rtp: RtpSender,
    /// How often there was no frame to send.
    pub empty_waits: u64,
    /// Whether the user was warned that the microphone gives nothing.
    pub warned: bool,
    /// How many packets were made.
    pub frames_sent: u64,
}

impl Sender {
    /// A sender that has sent nothing. The first sequence number and time are random.
    pub fn new(ssrc: u32, seq: u16, timestamp: u32) -> (r: Sender)
        ensures
            r == (Sender {
                rtp: RtpSender { ssrc, seq, timestamp, counter: 0 },
                empty_waits: 0,
                warned: false,
                frames_sent: 0,
            }),
    {
        Sender {
            rtp: RtpSender::new(ssrc, seq, timestamp),
            empty_waits: 0,
            warned: false,
            frames_sent: 0,
        }
    }

    /// There was no frame to send. Tells whether the user is to be warned: once, when it
    /// has gone on long enough.
    pub fn on_empty(&mut self) -> (r: bool)
        ensures
            r == (!old(self).warned && bumped(old(self).empty_waits) == SILENT_WAITS),
            *final(self) == (Sender {
                empty_waits: bumped(old(self).empty_waits),
                warned: old(self).warned || r,
                ..*old(self)
            }),
    {
        self.empty_waits = self.empty_waits.wrapping_add(1);
        if !self.warned && self.empty_waits == SILENT_WAITS {
            self.warned = true;
            return true;
        }
        false
    }

    /// The microphone is off: the frame passes without being sent.
    pub fn on_muted(&mut self)
        ensures
            final(self).rtp.ssrc == old(self).rtp.ssrc,
            final(self).rtp.counter == old(self).rtp.counter,
            final(self).rtp.seq == advanced(old(self).rtp.seq as int, 1, 0x1_0000),
            final(self).rtp.timestamp == advanced(
                old(self).rtp.timestamp as int,
                960,
                0x1_0000_0000,
            ),
            final(self).empty_waits == old(self).empty_waits,
            final(self).warned == old(self).warned,
            final(self).frames_sent == old(self).frames_sent,
    {
        self.rtp.skip();
    }

    /// The packet for an Opus packet, encrypted end to end where the call is. An Opus
    /// packet too long for the cipher gives none.
    pub fn send(&mut self, key: &[u8; 32], keys: &mut MediaKeys, opus: &[u8]) -> (r: Option<
        Vec<u8>,
    >)
        ensures
            final(keys)@.rx == old(keys)@.rx,
            final(keys)@.active == old(keys)@.active,
            ({
                let payload = match old(keys)@.tx {
                    Some((base, counter)) => seal_frame(base, counter, opus@),
                    None => opus@,
                };
                &&& final(keys)@.tx == (match old(keys)@.tx {
                    Some((base, counter)) => Some((base, ((counter + 1) % 0x1_0000_0000) as u32)),
                    None => None,
                })
                &&& r is Some == sealable(payload.len())
                &&& r is Some ==> {
                    &&& r->Some_0@ == packet_bytes(
                        key@,
                        old(self).rtp.seq,
                        old(self).rtp.timestamp,
                        old(self).rtp.ssrc,
                        old(self).rtp.counter,
                        payload,
                    )
                    &&& packet_content(key@, r->Some_0@) == (ReceivedView::Packet {
                        seq: old(self).rtp.seq,
                        ssrc: old(self).rtp.ssrc,
                        payload,
                    })
                    &&& final(self).frames_sent == bumped(old(self).frames_sent)
                    &&& final(self).rtp.ssrc == old(self).rtp.ssrc
                    &&& final(self).rtp.seq == advanced(old(self).rtp.seq as int, 1, 0x1_0000)
                    &&& final(self).rtp.timestamp == advanced(
                        old(self).rtp.timestamp as int,
                        960,
                        0x1_0000_0000,
                    )
                    &&& final(self).rtp.counter == advanced(
                        old(self).rtp.counter as int,
                        1,
                        0x1_0000_0000,
                    )
                }
            }),
            r is None ==> *final(self) == *old(self),
            final(self).empty_waits == old(self).empty_waits,
            final(self).warned == old(self).warned,
    {
        let payload = keys.seal(opus);
        match self.rtp.packet(key, payload.as_slice()) {
            Some(packet) => {
                self.frames_sent = self.frames_sent.wrapping_add(1);
                Some(packet)
            },
            None => None,
        }
    }
}

/// Voice goes through: a packet that carries a frame which one client sealed is, for
/// another that has the sender's key, the Opus packet that went in.
pub proof fn lemma_voice_goes_through(
    key: Seq<u8>,
    keys: KeysView,
    packet: Seq<u8>,
    seq: u16,
    ssrc: u32,
    counter: u32,
    opus: Seq<u8>,
)
    requires
        keys.rx.contains_key(ssrc),
        packet_content(key, packet) == (ReceivedView::Packet {
            seq,
            ssrc,
            payload: seal_frame(keys.rx[ssrc], counter, opus),
        }),
    ensures
        packet_kind(key, keys, packet) == (PacketKind::Audio { seq, ssrc, opus }),
{
    lemma_frame_roundtrip(keys.rx[ssrc], counter, opus);
}

} // verus!

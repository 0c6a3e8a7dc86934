//! What happens to a packet from the network: it is opened, decrypted, put in order and
//! turned into things to play, and every way it can fail is counted.

use std::collections::HashMap;

use vstd::prelude::*;

use crate::voice::jitter::{JitterBuffer, JitterView, Play};
use crate::voice::keys::{KeysView, MediaFrame, MediaFrameView, MediaKeys};
use crate::voice::rtp::{open_packet, packet_content, Received, ReceivedView};

verus! {

broadcast use vstd::std_specs::hash::group_hash_axioms;

/// The smallest packet that is looked at: a header, a counter and a tag.
pub const MIN_PACKET_BYTES: usize = 32;

/// How many packets came in and what became of them. The numbers wrap.
#[derive(Clone, Copy, Debug, PartialEq, Eq, Structural)]
pub struct RxCounters {
    /// Packets that were looked at.
    pub received: u64,
    /// Packets that were not authentic.
    pub transport_fail: u64,
    /// Encrypted frames that did not decrypt.
    pub dave_fail: u64,
    /// Frames that stand for silence.
    pub filler: u64,
    /// Frames of senders without a key.
    pub no_key: u64,
    /// Frames that were decoded.
    pub decoded: u64,
    /// Lost frames that were made up for.
    pub concealed: u64,
}

/// The number after `n`; it wraps.
pub open spec fn bumped(n: u64) -> u64 {
    if n == u64::MAX {
        0
    } else {
        (n + 1) as u64
    }
}

/// What a packet turned out to be.
pub enum PacketKind {
    Unreadable,
    Rejected,
    Empty,
    NoKey,
    Undecryptable,
    Silence { seq: u16, ssrc: u32 },
    Audio { seq: u16, ssrc: u32, opus: Seq<u8> },
}

/// What a packet is, under the transport key and the keys of the senders.
pub open spec fn packet_kind(key: Seq<u8>, keys: KeysView, packet: Seq<u8>) -> PacketKind {
    match packet_content(key, packet) {
        ReceivedView::Unreadable => PacketKind::Unreadable,
        ReceivedView::Rejected => PacketKind::Rejected,
        ReceivedView::Packet { seq, ssrc, payload } => if payload.len() == 0 {
            PacketKind::Empty
        } else {
            match keys.frame(ssrc, payload) {
                MediaFrameView::Audio(opus) => PacketKind::Audio { seq, ssrc, opus },
                MediaFrameView::Filler => PacketKind::Silence { seq, ssrc },
                MediaFrameView::Undecryptable => PacketKind::Undecryptable,
                MediaFrameView::NoKey => PacketKind::NoKey,
            }
        },
    }
}

impl RxCounters {
    /// The counters after a packet of a kind was looked at.
    pub open spec fn counting(self, kind: PacketKind) -> RxCounters {
        let c = RxCounters { received: bumped(self.received), ..self };
        match kind {
            PacketKind::Rejected => RxCounters { transport_fail: bumped(c.transport_fail), ..c },
            PacketKind::NoKey => RxCounters { no_key: bumped(c.no_key), ..c },
            PacketKind::Undecryptable => RxCounters { dave_fail: bumped(c.dave_fail), ..c },
            PacketKind::Silence { .. } => RxCounters { filler: bumped(c.filler), ..c },
            _ => c,
        }
    }

    /// All at zero.
    pub open spec fn zero() -> RxCounters {
        RxCounters {
            received: 0,
            transport_fail: 0,
            dave_fail: 0,
            filler: 0,
            no_key: 0,
            decoded: 0,
            concealed: 0,
        }
    }

    /// All at zero.
    pub fn new() -> (r: RxCounters)
        ensures
            r == RxCounters::zero(),
    {
        RxCounters {
            received: 0,
            transport_fail: 0,
            dave_fail: 0,
            filler: 0,
            no_key: 0,
            decoded: 0,
            concealed: 0,
        }
    }

    /// Counts a frame that was decoded, and whether it made up for a lost one.
    pub fn note_decoded(&mut self, made_up: bool)
        ensures
            *final(self) == (RxCounters {
                decoded: bumped(old(self).decoded),
                concealed: if made_up {
                    bumped(old(self).concealed)
                } else {
                    old(self).concealed
                },
                ..*old(self)
            }),
    {
        self.decoded = self.decoded.wrapping_add(1);
        if made_up {
            self.concealed = self.concealed.wrapping_add(1);
        }
    }
}

/// The buffers of the senders by source, in contracts, and the counters.
pub struct ReceiverView {
    pub counters: RxCounters,
    pub buffers: Map<u32, JitterView>,
}

impl ReceiverView {
    /// Every buffer is as it should be.
    pub open spec fn wf(self) -> bool {
        forall|ssrc: u32| #[trigger] self.buffers.contains_key(ssrc) ==> self.buffers[ssrc].wf()
    }

    /// The buffer of a source; empty where nothing came from it yet.
    pub open spec fn buffer(self, ssrc: u32) -> JitterView {
        if self.buffers.contains_key(ssrc) {
            self.buffers[ssrc]
        } else {
            JitterView { frames: Map::empty(), next: None }
        }
    }

    /// The buffer of the packet's source with the packet in it, for a packet that has a
    /// place in the sequence.
    pub open spec fn filled(self, kind: PacketKind) -> Option<(u32, JitterView)> {
        match kind {
            PacketKind::Audio { seq, ssrc, opus } => Some(
                (ssrc, self.buffer(ssrc).with(seq, Some(opus))),
            ),
            PacketKind::Silence { seq, ssrc } => Some((ssrc, self.buffer(ssrc).with(seq, None))),
            _ => None,
        }
    }

    /// The receiver after a packet of a kind.
    pub open spec fn after(self, kind: PacketKind) -> ReceiverView {
        ReceiverView {
            counters: self.counters.counting(kind),
            buffers: match self.filled(kind) {
                Some((ssrc, b)) => self.buffers.insert(ssrc, b.settled(25)),
                None => self.buffers,
            },
        }
    }
}

/// The receiving side of a call.
pub struct Receiver {
    /// What became of the packets.
    pub counters: RxCounters,
    buffers: HashMap<u32, JitterBuffer>,
}

impl View for Receiver {
    type V = ReceiverView;

    closed spec fn view(&self) -> ReceiverView {
        ReceiverView {
            counters: self.counters,
            buffers: self.buffers@.map_values(|b: JitterBuffer| b@),
        }
    }
}

impl Receiver {
    /// A receiver that has seen nothing.
    pub fn new() -> (r: Receiver)
        ensures
            r@.wf(),
            r@.buffers == Map::<u32, JitterView>::empty(),
            r@.counters == RxCounters::zero(),
    {
        let r = Receiver { counters: RxCounters::new(), buffers: HashMap::new() };
        assert(r@.buffers =~= Map::<u32, JitterView>::empty());
        r
    }

    /// Takes a packet in. Packets too short to hold anything, and all packets while the
    /// user is deafened, are passed over. What is then due from the packet's source is
    /// given back, in order.
    pub fn receive(&mut self, key: &[u8; 32], keys: &MediaKeys, packet: &[u8], deaf: bool) -> (r:
        Option<(u32, Vec<Play>)>)
        requires
            old(self)@.wf(),
        ensures
            final(self)@.wf(),
            packet@.len() < MIN_PACKET_BYTES || deaf ==> r is None && final(self)@ == old(self)@,
            packet@.len() >= MIN_PACKET_BYTES && !deaf ==> {
                let kind = packet_kind(key@, keys@, packet@);
                &&& final(self)@ == old(self)@.after(kind)
                &&& match old(self)@.filled(kind) {
                    Some((ssrc, b)) => r is Some && r->Some_0.0 == ssrc
                        && r->Some_0.1@.map_values(|p: Play| p@) == b.all_due(25),
                    None => r is None,
                }
            },
    {
        if packet.len() < MIN_PACKET_BYTES || deaf {
            return None;
        }
        self.counters.received = self.counters.received.wrapping_add(1);
        match open_packet(key, packet) {
            Received::Unreadable => None,
            Received::Rejected => {
                self.counters.transport_fail = self.counters.transport_fail.wrapping_add(1);
                None
            },
            Received::Packet { seq, ssrc, payload } => {
                if payload.len() == 0 {
                    return None;
                }
                match keys.open(ssrc, payload) {
                    MediaFrame::NoKey => {
                        self.counters.no_key = self.counters.no_key.wrapping_add(1);
                        None
                    },
                    MediaFrame::Undecryptable => {
                        self.counters.dave_fail = self.counters.dave_fail.wrapping_add(1);
                        None
                    },
                    MediaFrame::Filler => {
                        self.counters.filler = self.counters.filler.wrapping_add(1);
                        Some((ssrc, self.enqueue(seq, ssrc, None)))
                    },
                    MediaFrame::Audio(opus) => Some((ssrc, self.enqueue(seq, ssrc, Some(opus)))),
                }
            },
        }
    }

    fn enqueue(&mut self, seq: u16, ssrc: u32, frame: Option<Vec<u8>>) -> (r: Vec<Play>)
        requires
            old(self)@.wf(),
        ensures
            final(self)@.wf(),
            final(self)@.counters == old(self)@.counters,
            ({
                let b = old(self)@.buffer(ssrc).with(
                    seq,
                    match frame {
                        Some(opus) => Some(opus@),
                        None => None,
                    },
                );
                &&& final(self)@.buffers == old(self)@.buffers.insert(ssrc, b.settled(25))
                &&& r@.map_values(|p: Play| p@) == b.all_due(25)
            }),
    {
        let mut buffer = match self.buffers.remove(&ssrc) {
            Some(buffer) => {
                assert(old(self)@.buffers.contains_key(ssrc));
                buffer
            },
            None => {
                assert(!old(self)@.buffers.contains_key(ssrc));
                JitterBuffer::new()
            },
        };
        match frame {
            Some(opus) => buffer.push(seq, opus),
            None => buffer.note_silence(seq),
        }
        let plays = buffer.drain();
        self.buffers.insert(ssrc, buffer);
        assert(self@.buffers =~= old(self)@.buffers.insert(ssrc, buffer@));
        plays
    }
}

} // verus!

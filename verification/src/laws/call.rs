//! A call: what is received, in which order it is played, what is sent, and how the client
//! finds out its address.

use vstd::prelude::*;

use crate::dave::lemma_frame_roundtrip;
use crate::laws::packets::{number16, number32};
use crate::state::{AppEvent, VoiceControl};
use crate::text::{decimal, lossy_text};
use crate::voice::discovery::{discovery_answer, discovery_request, until_zero};
use crate::voice::error::VoiceError;
use crate::voice::jitter::{
    after, ahead, seq_diff, signed_ahead, JitterBuffer, JitterView, Play, PlayView,
};
use crate::voice::keys::{MediaFrame, MediaKeys};
use crate::voice::receiver::{Receiver, RxCounters};
use crate::voice::rtp::{open_packet, Received, RtpSender};
use crate::voice::sender::Sender;
use crate::voice::session::{connecting_event, ended_event, pick_mode, CallEvent, CallFlags};

verus! {

/// How far apart two numbers are, even across the wrap: the one that is `d` after another is
/// that far ahead of it, and the other is as far behind.
pub proof fn law_distances(n: u16, d: u16, forward: i16, backward: i16)
    requires
        d < 0x8000,
        call_ensures(seq_diff, (((n + d) % 0x1_0000) as u16, n), forward),
        call_ensures(seq_diff, (n, ((n + d) % 0x1_0000) as u16), backward),
    ensures
        forward == d,
        backward == -(d as int),
{
}

/// A packet that comes in is held under its number: the first one says where to start, one
/// that is late is dropped, and one that is too far ahead starts over.
pub proof fn law_packets_are_held(v: JitterView, seq: u16, frame: Option<Seq<u8>>, other: u16)
    ensures
        v.next is None ==> v.with(seq, frame).next == Some(seq),
        v.next is Some && 0 <= signed_ahead(seq, v.next->Some_0) <= 24 ==> {
            let w = v.with(seq, frame);
            &&& w.next == v.next
            &&& w.frames.contains_key(seq)
            &&& w.frames[seq] == frame
            &&& other != seq ==> (w.frames.contains_key(other) == v.frames.contains_key(other))
            &&& other != seq && v.frames.contains_key(other) ==> w.frames[other]
                == v.frames[other]
        },
        v.next is Some && signed_ahead(seq, v.next->Some_0) < 0 ==> v.with(seq, frame) == v,
        v.next is None || signed_ahead(seq, v.next->Some_0) > 24 ==> {
            let w = v.with(seq, frame);
            &&& w.next == Some(seq)
            &&& w.frames.contains_key(seq)
            &&& w.frames[seq] == frame
            &&& other != seq ==> !w.frames.contains_key(other)
        },
{
}

/// Nothing is played until three are held; then what is next is played: the packet, silence
/// where the sender was silent, and for a lost packet what the one after it tells of it, or
/// what can be made up.
pub proof fn law_what_is_played(v: JitterView, n: u16)
    requires
        v.next == Some(n),
    ensures
        v.frames.len() < 3 <==> v.due() is None,
        v.frames.len() >= 3 ==> {
            &&& v.frames.contains_key(n) && v.frames[n] is Some ==> v.due() == Some(
                PlayView::Audio(v.frames[n]->Some_0),
            )
            &&& v.frames.contains_key(n) && v.frames[n] is None ==> v.due() == Some(
                PlayView::Silence,
            )
            &&& !v.frames.contains_key(n) && v.frames.contains_key(after(n)) && v.frames[after(
                n,
            )] is Some ==> v.due() == Some(PlayView::Recover(v.frames[after(n)]->Some_0))
            &&& !v.frames.contains_key(n) && (!v.frames.contains_key(after(n)) || v.frames[after(
                n,
            )] is None) ==> v.due() == Some(PlayView::Conceal)
        },
        v.advanced().next == Some(((n + 1) % 0x1_0000) as u16),
        after(n) == (n + 1) % 0x1_0000,
{
}

/// Before anything came in nothing is played.
pub proof fn law_empty_buffers_are_silent(
    fresh: JitterBuffer,
    b: &mut JitterBuffer,
    r: Option<Play>,
)
    requires
        call_ensures(JitterBuffer::new, (), fresh),
        *old(b) == fresh,
        call_ensures(JitterBuffer::pull, (b,), r),
    ensures
        r is None,
{
}

/// Three packets in a row, in whatever order the last two arrive, are played from the first
/// on.
pub proof fn law_packets_are_played_in_order(
    fresh: JitterBuffer,
    b1: &mut JitterBuffer,
    seq: u16,
    first: Vec<u8>,
    d1: (),
    b2: &mut JitterBuffer,
    x: u16,
    second: Vec<u8>,
    d2: (),
    b3: &mut JitterBuffer,
    y: u16,
    third: Vec<u8>,
    d3: (),
    b4: &mut JitterBuffer,
    r: Option<Play>,
)
    requires
        call_ensures(JitterBuffer::new, (), fresh),
        *old(b1) == fresh,
        call_ensures(JitterBuffer::push, (b1, seq, first), d1),
        *old(b2) == *final(b1),
        call_ensures(JitterBuffer::push, (b2, x, second), d2),
        *old(b3) == *final(b2),
        call_ensures(JitterBuffer::push, (b3, y, third), d3),
        x == (seq + 1) % 0x1_0000 && y == (seq + 2) % 0x1_0000 || x == (seq + 2) % 0x1_0000 && y
            == (seq + 1) % 0x1_0000,
        *old(b4) == *final(b3),
        call_ensures(JitterBuffer::pull, (b4,), r),
    ensures
        r is Some,
        r->Some_0 is Audio,
        r->Some_0->Audio_0@ == first@,
        final(b4)@.next == Some(((seq + 1) % 0x1_0000) as u16),
{
    lemma_three_held(seq, x, y, Some(first@), Some(second@), Some(third@));
    assert(JitterView { frames: Map::empty(), next: None } == fresh@);
}

proof fn lemma_ahead(seq: u16, x: u16, d: int)
    requires
        0 <= d < 0x8000,
        x == (seq + d) % 0x1_0000,
    ensures
        ahead(x, seq) == d,
        signed_ahead(x, seq) == d,
{
}

proof fn lemma_three_held(
    seq: u16,
    x: u16,
    y: u16,
    a: Option<Seq<u8>>,
    b: Option<Seq<u8>>,
    c: Option<Seq<u8>>,
)
    requires
        a is Some,
        x == (seq + 1) % 0x1_0000 && y == (seq + 2) % 0x1_0000 || x == (seq + 2) % 0x1_0000 && y
            == (seq + 1) % 0x1_0000,
    ensures
        ({
            let v = JitterView { frames: Map::empty(), next: None }.with(seq, a).with(x, b).with(
                y,
                c,
            );
            &&& v.next == Some(seq)
            &&& v.due() == Some(PlayView::Audio(a->Some_0))
        }),
{
    if x == (seq + 1) % 0x1_0000 && y == (seq + 2) % 0x1_0000 {
        lemma_ahead(seq, x, 1);
        lemma_ahead(seq, y, 2);
    } else {
        lemma_ahead(seq, x, 2);
        lemma_ahead(seq, y, 1);
    }
    lemma_ahead(seq, seq, 0);
    assert(x != seq && y != seq && x != y);
    let none = Map::<u16, Option<Seq<u8>>>::empty();
    let v1 = JitterView { frames: none, next: None }.with(seq, a);
    let v2 = v1.with(x, b);
    let v3 = v2.with(y, c);
    assert(v1.frames == none.insert(seq, a));
    assert(v2.frames == v1.frames.insert(x, b));
    assert(v3.frames == v2.frames.insert(y, c));
    assert(none.dom().len() == 0);
    assert(v1.frames.dom() == none.dom().insert(seq));
    assert(v1.frames.dom().len() == 1);
    assert(v2.frames.dom() == v1.frames.dom().insert(x));
    assert(v2.frames.dom().len() == 2);
    assert(v3.frames.dom() == v2.frames.dom().insert(y));
    assert(v3.frames.dom().len() == 3);
}

/// What is played at once is what is played one by one, as long as anything is due.
pub proof fn law_all_that_is_due(v: JitterView, n: nat)
    requires
        n > 0,
    ensures
        v.due() is None ==> v.all_due(n).len() == 0 && v.settled(n) == v,
        v.due() is Some ==> {
            &&& v.all_due(n).len() > 0
            &&& v.all_due(n)[0] == v.due()->Some_0
            &&& v.all_due(n).skip(1) == v.advanced().all_due((n - 1) as nat)
            &&& v.settled(n) == v.advanced().settled((n - 1) as nat)
        },
{
    if v.due() is Some {
        assert(v.all_due(n).skip(1) =~= v.advanced().all_due((n - 1) as nat));
    }
}

/// A packet of a sender whose payload is audio goes into the buffer of that sender, under its
/// number, and nobody else's; what is then due comes out for that source.
pub proof fn law_audio_is_received(
    receiver: &mut Receiver,
    key: &[u8; 32],
    keys: &MediaKeys,
    packet: &[u8],
    opened: Received,
    seq: u16,
    ssrc: u32,
    payload: Vec<u8>,
    frame: MediaFrame,
    r: Option<(u32, Vec<Play>)>,
    other: u32,
)
    requires
        old(receiver)@.wf(),
        call_ensures(open_packet, (key, packet), opened),
        opened == (Received::Packet { seq, ssrc, payload }),
        payload@.len() > 0,
        call_ensures(MediaKeys::open, (keys, ssrc, payload), frame),
        frame is Audio || frame is Filler,
        call_ensures(Receiver::receive, (receiver, key, keys, packet, false), r),
    ensures
        r is Some,
        r->Some_0.0 == ssrc,
        ({
            let b = old(receiver)@.buffer(ssrc).with(
                seq,
                if frame is Audio {
                    Some(frame->Audio_0@)
                } else {
                    None
                },
            );
            &&& r->Some_0.1@.len() == b.all_due(25).len()
            &&& r->Some_0.1@.len() > 0 ==> r->Some_0.1@[0]@ == b.due()->Some_0
            &&& final(receiver)@.buffer(ssrc) == b.settled(25)
        }),
        other != ssrc ==> final(receiver)@.buffer(other) == old(receiver)@.buffer(other),
        final(receiver)@.counters.transport_fail == old(receiver)@.counters.transport_fail,
        final(receiver)@.counters.no_key == old(receiver)@.counters.no_key,
        final(receiver)@.counters.dave_fail == old(receiver)@.counters.dave_fail,
        old(receiver)@.counters.received < u64::MAX ==> final(receiver)@.counters.received
            == old(receiver)@.counters.received + 1,
        frame is Filler && old(receiver)@.counters.filler < u64::MAX ==> final(receiver)@.counters.filler == old(receiver)@.counters.filler + 1,
{
    assert(packet@.len() >= 32);
    let b = old(receiver)@.buffer(ssrc).with(
        seq,
        if frame is Audio {
            Some(frame->Audio_0@)
        } else {
            None
        },
    );
    assert(r->Some_0.1@.map_values(|p: Play| p@).len() == r->Some_0.1@.len());
    law_all_that_is_due(b, 25);
    if r->Some_0.1@.len() > 0 {
        assert(r->Some_0.1@.map_values(|p: Play| p@)[0] == r->Some_0.1@[0]@);
    }
}

/// What cannot be heard is counted for what it is, and leaves every buffer as it was: a packet
/// that is not authentic, a frame of a sender without a key, a frame that does not decrypt.
pub proof fn law_failures_are_counted(
    receiver: &mut Receiver,
    key: &[u8; 32],
    keys: &MediaKeys,
    packet: &[u8],
    opened: Received,
    payload: Vec<u8>,
    frame: MediaFrame,
    r: Option<(u32, Vec<Play>)>,
)
    requires
        old(receiver)@.wf(),
        packet@.len() >= 32,
        call_ensures(open_packet, (key, packet), opened),
        opened is Packet ==> payload@ == opened->payload@ && call_ensures(
            MediaKeys::open,
            (keys, opened->ssrc, payload),
            frame,
        ) && payload@.len() > 0 && (frame is NoKey || frame is Undecryptable),
        call_ensures(Receiver::receive, (receiver, key, keys, packet, false), r),
        old(receiver)@.counters.received < u64::MAX,
        old(receiver)@.counters.transport_fail < u64::MAX,
        old(receiver)@.counters.no_key < u64::MAX,
        old(receiver)@.counters.dave_fail < u64::MAX,
    ensures
        r is None,
        final(receiver)@.buffers == old(receiver)@.buffers,
        ({
            let a = old(receiver)@.counters;
            let b = final(receiver)@.counters;
            &&& b.received == a.received + 1
            &&& b.transport_fail == a.transport_fail + (if opened is Rejected {
                1int
            } else {
                0
            })
            &&& b.no_key == a.no_key + (if opened is Packet && frame is NoKey {
                1int
            } else {
                0
            })
            &&& b.dave_fail == a.dave_fail + (if opened is Packet && frame is Undecryptable {
                1int
            } else {
                0
            })
            &&& b.filler == a.filler
            &&& b.decoded == a.decoded
            &&& b.concealed == a.concealed
        }),
{
}

/// While the user is deafened, and for what is too short to be a packet, nothing happens.
pub proof fn law_deafened(
    receiver: &mut Receiver,
    key: &[u8; 32],
    keys: &MediaKeys,
    packet: &[u8],
    deaf: bool,
    r: Option<(u32, Vec<Play>)>,
)
    requires
        old(receiver)@.wf(),
        call_ensures(Receiver::receive, (receiver, key, keys, packet, deaf), r),
        deaf || packet@.len() < 32,
    ensures
        r is None,
        final(receiver)@ == old(receiver)@,
{
}

/// Voice goes through, from one client to another: what one sends, encrypted under its secret
/// where there is one, the other opens to the Opus packet, from the sender's source and under
/// its number.
pub proof fn law_voice_goes_through(
    sender: &mut Sender,
    key: &[u8; 32],
    keys: &mut MediaKeys,
    opus: &[u8],
    sent: Option<Vec<u8>>,
    packet: &[u8],
    opened: Received,
    payload: Vec<u8>,
    other: &MediaKeys,
    heard: MediaFrame,
)
    requires
        call_ensures(Sender::send, (sender, key, keys, opus), sent),
        sent is Some,
        packet@ == sent->Some_0@,
        call_ensures(open_packet, (key, packet), opened),
        payload@ == opened->payload@,
        call_ensures(MediaKeys::open, (other, opened->ssrc, payload), heard),
        match old(keys)@.tx {
            Some((secret, counter)) => other@.rx.contains_key(old(sender).rtp.ssrc)
                && other@.rx[old(sender).rtp.ssrc] == secret,
            None => !other@.active && !other@.rx.contains_key(old(sender).rtp.ssrc),
        },
    ensures
        opened is Packet,
        opened->ssrc == old(sender).rtp.ssrc,
        opened->seq == old(sender).rtp.seq,
        heard is Audio,
        heard->Audio_0@ == opus@,
        old(sender).frames_sent < u64::MAX ==> final(sender).frames_sent == old(sender).frames_sent
            + 1,
        final(sender).rtp.seq == (old(sender).rtp.seq + 1) % 0x1_0000,
{
    if let Some((secret, counter)) = old(keys)@.tx {
        lemma_frame_roundtrip(secret, counter, opus@);
    }
}

/// A microphone that gives nothing is told of once, at the six hundredth wait.
pub proof fn law_silent_microphone(sender: &mut Sender, r: bool)
    requires
        call_ensures(Sender::on_empty, (sender,), r),
        old(sender).empty_waits < u64::MAX,
    ensures
        r <==> old(sender).empty_waits == 599 && !old(sender).warned,
        final(sender).empty_waits == old(sender).empty_waits + 1,
        r ==> final(sender).warned,
        final(sender).rtp == old(sender).rtp,
{
}

/// While the microphone is off, the numbers move on as if a frame had been sent, but nothing is
/// counted as sent.
pub proof fn law_muted(sender: &mut Sender, r: ())
    requires
        call_ensures(Sender::on_muted, (sender,), r),
    ensures
        final(sender).rtp.seq == (old(sender).rtp.seq + 1) % 0x1_0000,
        final(sender).rtp.timestamp == (old(sender).rtp.timestamp + 960) % 0x1_0000_0000,
        final(sender).rtp.ssrc == old(sender).rtp.ssrc,
        final(sender).rtp.counter == old(sender).rtp.counter,
        final(sender).frames_sent == old(sender).frames_sent,
{
}

/// The request for the client's address: 74 bytes, of type one and length seventy, with the
/// source, and zeros.
pub proof fn law_discovery_request(ssrc: u32, r: Vec<u8>)
    requires
        call_ensures(discovery_request, (ssrc,), r),
    ensures
        r@.len() == 74,
        number16(r@[0], r@[1]) == 1,
        number16(r@[2], r@[3]) == 70,
        number32(r@[4], r@[5], r@[6], r@[7]) == ssrc,
        forall|i: int| 8 <= i < 74 ==> #[trigger] r@[i] == 0,
{
    let e = crate::bytes::be32(ssrc);
    crate::bytes::lemma_be32_len(ssrc);
    crate::laws::frames::law_numbers_as_bytes(ssrc, 0);
    assert(r@[4] == e[0] && r@[5] == e[1] && r@[6] == e[2] && r@[7] == e[3]);
}

/// Where the first zero is: not before, and there or at the end.
pub proof fn law_until_zero(s: Seq<u8>)
    ensures
        0 <= until_zero(s) <= s.len(),
        forall|i: int| 0 <= i < until_zero(s) ==> #[trigger] s[i] != 0,
        until_zero(s) < s.len() ==> s[until_zero(s)] == 0,
    decreases s.len(),
{
    if s.len() > 0 && s[0] != 0 {
        let rest = s.drop_first();
        law_until_zero(rest);
        assert forall|i: int| 0 <= i < until_zero(s) implies #[trigger] s[i] != 0 by {
            if i > 0 {
                assert(s[i] == rest[i - 1]);
            }
        }
        if until_zero(s) < s.len() {
            assert(s[until_zero(s)] == rest[until_zero(rest)]);
        }
    }
}

/// The answer: the address is the text from the ninth byte up to a zero, and the port the
/// number in the two bytes behind the address; an answer that is too short or has no address
/// or no port is refused.
pub proof fn law_discovery_answer(
    answer: &[u8],
    r: Result<(String, u16), VoiceError>,
    n: int,
)
    requires
        call_ensures(discovery_answer, (answer,), r),
    ensures
        answer@.len() < 74 ==> r is Err,
        answer@.len() >= 74 && 0 <= n <= 64 && (forall|i: int|
            8 <= i < 8 + n ==> #[trigger] answer@[i] != 0) && (n < 64 ==> answer@[8 + n] == 0) ==> {
            let address = lossy_text(answer@.subrange(8, 8 + n));
            let port = number16(answer@[72], answer@[73]);
            &&& r is Ok <==> address.len() > 0 && port != 0
            &&& r is Ok ==> r->Ok_0.0@ == address && r->Ok_0.1 == port
        },
{
    if answer@.len() >= 74 && 0 <= n <= 64 && (forall|i: int|
        8 <= i < 8 + n ==> #[trigger] answer@[i] != 0) && (n < 64 ==> answer@[8 + n] == 0) {
        let field = answer@.subrange(8, 72);
        law_until_zero(field);
        let z = until_zero(field);
        if z < n {
            assert(field[z] == answer@[8 + z]);
        }
        if n < z {
            assert(field[n] == answer@[8 + n]);
        }
        assert(z == n);
        assert(field.take(n) =~= answer@.subrange(8, 8 + n));
    }
}

/// The encryption is chosen where it is on offer, wherever in the list it stands, and nothing
/// else is.
pub proof fn law_encryption_is_chosen(
    modes: Vec<String>,
    r: Result<String, VoiceError>,
    k: int,
)
    requires
        call_ensures(pick_mode, (modes,), r),
    ensures
        0 <= k < modes@.len() && modes@[k]@ == "aead_xchacha20_poly1305_rtpsize"@ ==> r is Ok,
        r is Ok ==> r->Ok_0@ == "aead_xchacha20_poly1305_rtpsize"@,
        (forall|i: int|
            0 <= i < modes@.len() ==> (#[trigger] modes@[i])@
                != "aead_xchacha20_poly1305_rtpsize"@) ==> r is Err,
{
    let list = crate::voice::error::texts_view(modes@);
    if 0 <= k < modes@.len() && modes@[k]@ == "aead_xchacha20_poly1305_rtpsize"@ {
        assert(list[k] == modes@[k]@);
    }
    if forall|i: int|
        0 <= i < modes@.len() ==> (#[trigger] modes@[i])@ != "aead_xchacha20_poly1305_rtpsize"@ {
        assert forall|i: int| 0 <= i < list.len() implies list[i]
            != "aead_xchacha20_poly1305_rtpsize"@ by {
            assert(list[i] == modes@[i]@);
        }
    }
}

/// The switches of a call: each follows what it is told and nothing else, and whatever ends the
/// session stops the call for good.
pub proof fn law_switches(
    flags: &mut CallFlags,
    event: CallEvent,
    r: bool,
    fresh: CallFlags,
)
    requires
        call_ensures(CallFlags::on_event, (flags, event), r),
        call_ensures(CallFlags::new, (), fresh),
    ensures
        r == final(flags).stop,
        old(flags).stop ==> final(flags).stop,
        match event {
            CallEvent::Control(Some(VoiceControl::Mute(m))) => final(flags).mute == m && final(
                flags).deaf == old(flags).deaf && final(flags).stop == old(flags).stop,
            CallEvent::Control(Some(VoiceControl::Deaf(d))) => final(flags).deaf == d && final(
                flags).mute == old(flags).mute && final(flags).stop == old(flags).stop,
            CallEvent::Control(Some(VoiceControl::Stop)) => final(flags).stop,
            CallEvent::Control(None) => final(flags).stop,
            CallEvent::Handled { over } => final(flags).stop == (old(flags).stop || over),
            CallEvent::Closed => final(flags).stop,
            CallEvent::Broken => final(flags).stop,
        },
        !fresh.stop && !fresh.mute && !fresh.deaf,
{
}

/// The window is told that voice is not up while a session starts and once it is over, and
/// why, where something went wrong.
pub proof fn law_session_is_told(
    why: &str,
    starting: AppEvent,
    over: AppEvent,
    failed: AppEvent,
)
    requires
        call_ensures(connecting_event, (), starting),
        call_ensures(ended_event, (None,), over),
        call_ensures(ended_event, (Some(why),), failed),
    ensures
        starting is VoiceUpdate && !starting->connected,
        over is VoiceUpdate && !over->connected,
        failed is VoiceUpdate && !failed->connected,
        crate::text::holds(failed->text@, why@),
{
    let front = "voz: desconectado ("@;
    let s = failed->text@;
    let i = front.len() as int;
    assert(s.skip(i).take(why@.len() as int) =~= why@);
    assert(crate::text::begins_with(s.skip(i), why@));
}

/// A frame that is known to be silent is held under its number like one that came, and played
/// as nothing when its turn comes.
pub proof fn law_silence_is_held(
    j: &mut JitterBuffer,
    seq: u16,
    done: (),
    next: &mut JitterBuffer,
    data: Vec<u8>,
    put: (),
    other: u16,
)
    requires
        old(j)@.wf(),
        old(next)@ == old(j)@,
        call_ensures(JitterBuffer::note_silence, (j, seq), done),
        call_ensures(JitterBuffer::push, (next, seq, data), put),
        old(j)@.next is None || signed_ahead(seq, old(j)@.next->Some_0) >= 0,
    ensures
        final(j)@.frames.contains_key(seq),
        final(j)@.frames[seq] is None,
        final(next)@.frames.contains_key(seq),
        final(next)@.frames[seq] == Some(data@),
        final(j)@.frames.contains_key(other) == final(next)@.frames.contains_key(other),
        other != seq && final(j)@.frames.contains_key(other) ==> final(j)@.frames[other] == final(
            next)@.frames[other],
        final(j)@.next == final(next)@.next,
{
}

/// All that is due comes out, and nothing is due any more.
pub proof fn law_all_is_drained(j: &mut JitterBuffer, r: Vec<Play>)
    requires
        old(j)@.wf(),
        call_ensures(JitterBuffer::drain, (j,), r),
    ensures
        final(j)@.due() is None,
        old(j)@.due() is None ==> r@.len() == 0,
        old(j)@.due() is Some ==> r@.len() > 0 && r@[0]@ == old(j)@.due()->Some_0,
{
    let got = r@.map_values(|p: Play| p@);
    assert(got.len() == r@.len());
    law_all_that_is_due(old(j)@, 25);
    if r@.len() > 0 {
        assert(got[0] == r@[0]@);
    }
}

/// What was decoded is counted, and what was made up is counted as such too.
pub proof fn law_decoded_is_counted(c: &mut RxCounters, made_up: bool, done: ())
    requires
        call_ensures(RxCounters::note_decoded, (c, made_up), done),
        old(c).decoded < u64::MAX,
        old(c).concealed < u64::MAX,
    ensures
        final(c).decoded == old(c).decoded + 1,
        made_up ==> final(c).concealed == old(c).concealed + 1,
        !made_up ==> final(c).concealed == old(c).concealed,
{
}

/// Why a session ended is told in words that hold the number it is about.
pub proof fn law_reasons(e: &VoiceError, r: String, n: usize)
    requires
        call_ensures(VoiceError::text, (e,), r),
    ensures
        *e is NoHeartbeatAck ==> r@ == "sin ACK de heartbeat de voz"@,
        *e is IncompleteReady ==> r@ == "READY de voz incompleto"@,
        *e is UdpNotReady ==> r@ == "UDP no listo"@,
        *e is BadDiscovery ==> r@ == "IP discovery inválido"@,
        *e == VoiceError::BadSecretKey(n) ==> r@ == "secret_key inválida ("@ + decimal(n as nat)
            + " bytes)"@,
        *e == VoiceError::ShortDiscovery(n) ==> r@ == "respuesta de IP discovery corta ("@
            + decimal(n as nat) + ")"@,
{
}

/// What is pulled from a buffer that holds three or more: the packet that is next, silence where
/// its sender was silent, what the one behind it tells of a lost one, or what can be made up; it
/// is then gone, the one behind it is next, and the others stay. From fewer nothing is pulled.
pub proof fn law_pulling(b: &mut JitterBuffer, r: Option<Play>, n: u16, other: u16)
    requires
        old(b)@.wf(),
        old(b)@.next == Some(n),
        call_ensures(JitterBuffer::pull, (b,), r),
    ensures
        ({
            let was = old(b)@.frames;
            let now = final(b)@.frames;
            let behind = ((n + 1) % 0x1_0000) as u16;
            &&& was.len() < 3 ==> r is None && final(b)@ == old(b)@
            &&& was.len() >= 3 ==> {
                &&& r is Some
                &&& final(b)@.next == Some(behind)
                &&& !now.contains_key(n)
                &&& other != n ==> (now.contains_key(other) == was.contains_key(other))
                &&& other != n && was.contains_key(other) ==> now[other] == was[other]
                &&& r->Some_0 is Audio <==> was.contains_key(n) && was[n] is Some
                &&& r->Some_0 is Audio ==> was[n] == Some(r->Some_0->Audio_0@)
                &&& r->Some_0 is Silence <==> was.contains_key(n) && was[n] is None
                &&& r->Some_0 is Recover <==> !was.contains_key(n) && was.contains_key(behind)
                    && was[behind] is Some
                &&& r->Some_0 is Recover ==> was[behind] == Some(r->Some_0->Recover_0@)
            }
        }),
{
}

/// A packet that comes in is held under its number: the first says where to start, one that is
/// late is dropped, one within the largest gap joins the others, and one beyond it starts over.
pub proof fn law_pushing(
    b: &mut JitterBuffer,
    seq: u16,
    data: Vec<u8>,
    done: (),
    d: int,
    other: u16,
)
    requires
        old(b)@.wf(),
        call_ensures(JitterBuffer::push, (b, seq, data), done),
    ensures
        ({
            let was = old(b)@;
            let now = final(b)@;
            &&& was.next is None ==> now.next == Some(seq) && now.frames.contains_key(seq)
                && now.frames[seq] == Some(data@)
            &&& was.next is Some && 0 <= d <= 24 && seq == (was.next->Some_0 + d) % 0x1_0000 ==> {
                &&& now.next == was.next
                &&& now.frames.contains_key(seq)
                &&& now.frames[seq] == Some(data@)
                &&& other != seq ==> (now.frames.contains_key(other) == was.frames.contains_key(
                    other,
                ))
                &&& other != seq && was.frames.contains_key(other) ==> now.frames[other]
                    == was.frames[other]
            }
            &&& was.next is Some && 24 < d < 0x8000 && seq == (was.next->Some_0 + d) % 0x1_0000
                ==> {
                &&& now.next == Some(seq)
                &&& now.frames.contains_key(seq)
                &&& now.frames[seq] == Some(data@)
                &&& other != seq ==> !now.frames.contains_key(other)
            }
            &&& was.next is Some && 0 < d <= 0x8000 && was.next->Some_0 == (seq + d) % 0x1_0000
                ==> now == was
        }),
{
    if old(b)@.next is Some {
        let n = old(b)@.next->Some_0;
        if 0 <= d < 0x8000 && seq == (n + d) % 0x1_0000 {
            lemma_ahead(n, seq, d);
        }
    }
}

/// What a packet makes due comes out in order, all of it.
pub proof fn law_all_that_a_packet_makes_due(
    receiver: &mut Receiver,
    key: &[u8; 32],
    keys: &MediaKeys,
    packet: &[u8],
    opened: Received,
    seq: u16,
    ssrc: u32,
    payload: Vec<u8>,
    opus: Vec<u8>,
    r: Option<(u32, Vec<Play>)>,
    k: int,
)
    requires
        old(receiver)@.wf(),
        call_ensures(open_packet, (key, packet), opened),
        opened == (Received::Packet { seq, ssrc, payload }),
        payload@.len() > 0,
        call_ensures(MediaKeys::open, (keys, ssrc, payload), MediaFrame::Audio(opus)),
        call_ensures(Receiver::receive, (receiver, key, keys, packet, false), r),
        r is Some,
        0 <= k < r->Some_0.1@.len(),
    ensures
        r->Some_0.1@[k]@ == old(receiver)@.buffer(ssrc).with(seq, Some(opus@)).all_due(25)[k],
{
    assert(packet@.len() >= 32);
    assert(r->Some_0.1@.map_values(|p: Play| p@)[k] == r->Some_0.1@[k]@);
}

/// A packet whose payload is empty is counted as received, and nothing else.
pub proof fn law_empty_payloads(
    receiver: &mut Receiver,
    key: &[u8; 32],
    keys: &MediaKeys,
    packet: &[u8],
    opened: Received,
    r: Option<(u32, Vec<Play>)>,
)
    requires
        old(receiver)@.wf(),
        call_ensures(open_packet, (key, packet), opened),
        opened is Packet,
        opened->payload@.len() == 0,
        call_ensures(Receiver::receive, (receiver, key, keys, packet, false), r),
        old(receiver)@.counters.received < u64::MAX,
    ensures
        r is None,
        final(receiver)@.buffers == old(receiver)@.buffers,
        final(receiver)@.counters == (RxCounters {
            received: (old(receiver)@.counters.received + 1) as u64,
            ..old(receiver)@.counters
        }),
{
    assert(packet@.len() >= 32);
}

/// A packet that is sent moves every number on by its step; one that is too long for the cipher
/// leaves them. The frame's number moves on in either case.
pub proof fn law_sending_moves_on(
    sender: &mut Sender,
    key: &[u8; 32],
    keys: &mut MediaKeys,
    opus: &[u8],
    sent: Option<Vec<u8>>,
)
    requires
        call_ensures(Sender::send, (sender, key, keys, opus), sent),
    ensures
        sent is None ==> *final(sender) == *old(sender),
        sent is Some ==> {
            &&& final(sender).rtp.ssrc == old(sender).rtp.ssrc
            &&& final(sender).rtp.seq == (old(sender).rtp.seq + 1) % 0x1_0000
            &&& final(sender).rtp.timestamp == (old(sender).rtp.timestamp + 960) % 0x1_0000_0000
            &&& final(sender).rtp.counter == (old(sender).rtp.counter + 1) % 0x1_0000_0000
        },
        opus@.len() <= 0x1_0000 ==> sent is Some,
        final(sender).empty_waits == old(sender).empty_waits,
        final(sender).warned == old(sender).warned,
        final(keys)@.rx == old(keys)@.rx,
        final(keys)@.active == old(keys)@.active,
        old(keys)@.tx is None ==> final(keys)@.tx is None,
        old(keys)@.tx is Some ==> final(keys)@.tx is Some && final(keys)@.tx->Some_0.0
            == old(keys)@.tx->Some_0.0 && final(keys)@.tx->Some_0.1 == (old(keys)@.tx->Some_0.1 + 1)
            % 0x1_0000_0000,
{
    if let Some((secret, counter)) = old(keys)@.tx {
        crate::laws::frames::lemma_sealed(secret, counter, opus@);
        crate::dave::leb128::lemma_leb128_roundtrip(counter as u64, Seq::empty());
    }
}

/// A sender starts with the numbers it is given, and has sent nothing.
pub proof fn law_new_senders(ssrc: u32, seq: u16, timestamp: u32, r: Sender)
    requires
        call_ensures(Sender::new, (ssrc, seq, timestamp), r),
    ensures
        r.rtp.ssrc == ssrc,
        r.rtp.seq == seq,
        r.rtp.timestamp == timestamp,
        r.rtp.counter == 0,
        r.frames_sent == 0,
        r.empty_waits == 0,
        !r.warned,
{
}

/// A receiver starts with nothing counted and nothing held.
pub proof fn law_new_receivers(r: Receiver, ssrc: u32)
    requires
        call_ensures(Receiver::new, (), r),
    ensures
        r@.counters.received == 0,
        r@.counters.transport_fail == 0,
        r@.counters.dave_fail == 0,
        r@.counters.filler == 0,
        r@.counters.no_key == 0,
        r@.counters.decoded == 0,
        r@.counters.concealed == 0,
        !r@.buffers.contains_key(ssrc),
        r@.wf(),
{
}

/// Why an answer to the discovery is refused: how many bytes one that is too short has, and
/// otherwise that it is no good.
pub proof fn law_refused_answers(answer: &[u8], r: Result<(String, u16), VoiceError>)
    requires
        call_ensures(discovery_answer, (answer,), r),
        r is Err,
    ensures
        answer@.len() < 74 ==> r->Err_0 is ShortDiscovery && r->Err_0->ShortDiscovery_0
            == answer@.len(),
        answer@.len() >= 74 ==> r->Err_0 is BadDiscovery,
{
}

/// In which words the window is told.
pub proof fn law_words_about_voice(
    why: &str,
    starting: AppEvent,
    over: AppEvent,
    failed: AppEvent,
)
    requires
        call_ensures(connecting_event, (), starting),
        call_ensures(ended_event, (None,), over),
        call_ensures(ended_event, (Some(why),), failed),
    ensures
        starting->text@ == "voz: conectando…"@,
        over->text@ == "voz: desconectado"@,
        failed->text@ == "voz: desconectado ("@ + why@ + ")"@,
{
}

/// The counters start at zero, and the numbers of packets where they are told to.
pub proof fn law_new_counters(c: RxCounters, ssrc: u32, seq: u16, timestamp: u32, s: RtpSender)
    requires
        call_ensures(RxCounters::new, (), c),
        call_ensures(RtpSender::new, (ssrc, seq, timestamp), s),
    ensures
        c.received == 0 && c.transport_fail == 0 && c.dave_fail == 0 && c.filler == 0,
        c.no_key == 0 && c.decoded == 0 && c.concealed == 0,
        s.ssrc == ssrc && s.seq == seq && s.timestamp == timestamp && s.counter == 0,
{
}

} // verus!

//! The session with the voice gateway, from the outside: what goes in and what comes out.

use vstd::prelude::*;

use crate::dave::error::DaveError;
use crate::json::Json;
use crate::laws::messages::{
    confirms, data_of, lemma_confirms, lemma_select_protocol, lemma_speaking,
    lemma_voice_heartbeat, lemma_voice_identify, number_of_data, op_of, text_of_data,
};
use crate::laws::packets::number16;
use crate::text::decimal;
use crate::voice::error::VoiceError;
use crate::voice::keys::{KeysView, MediaKeys};
use crate::voice::session::{bytes_field, texts_field, Step, VoiceAction, VoiceSession};
use crate::voice::VoiceConnInfo;

verus! {

/// Nothing is to be done and the session goes on.
pub open spec fn idle(r: Step) -> bool {
    r.actions@.len() == 0 && r.error is None
}

/// The last thing to be done is to confirm the transition with the number.
pub open spec fn ends_by_confirming(r: Step, id: int) -> bool {
    &&& r.error is None
    &&& r.actions@.len() > 0
    &&& r.actions@.last() is Send
    &&& confirms(r.actions@.last()->Send_0@, id)
}

/// A welcome that let the client in: the user is told, the transition is confirmed under its
/// own number, and the keys of the group are installed. One that did not changes nothing.
pub proof fn law_welcome_is_confirmed(
    s: &mut VoiceSession,
    keys: &mut MediaKeys,
    id: u16,
    joined: Result<(), DaveError>,
    r: Step,
)
    requires
        call_ensures(VoiceSession::after_welcome, (s, keys, id, joined), r),
    ensures
        joined is Ok && old(s).group() is Some ==> {
            &&& ends_by_confirming(r, id as int)
            &&& r.actions@.len() == 2
            &&& r.actions@[0] is Notify
            &&& r.actions@[0]->connected
            &&& final(keys)@ == old(keys)@.installed(old(s).group()->Some_0, old(s)@.speakers)
        },
        joined is Err || old(s).group() is None ==> idle(r) && final(keys)@ == old(keys)@,
        final(s)@ == old(s)@,
        final(s).group() == old(s).group(),
{
    lemma_confirms(id);
    assert(r@.actions.len() == r.actions@.len());
    if joined is Ok && old(s).group() is Some {
        assert(r@.actions[0] == r.actions@[0]@);
        assert(r@.actions[1] == r.actions@[1]@);
    }
}

/// A commit that the group followed is confirmed under its own number; for zero the keys of
/// the new epoch are installed at once, and for any other number they wait for it. One that
/// it did not follow changes nothing.
pub proof fn law_commit_is_confirmed(
    s: &mut VoiceSession,
    keys: &mut MediaKeys,
    id: u16,
    followed: Result<(), DaveError>,
    r: Step,
)
    requires
        call_ensures(VoiceSession::after_commit, (s, keys, id, followed), r),
    ensures
        followed is Ok && old(s).group() is Some ==> {
            &&& ends_by_confirming(r, id as int)
            &&& r.actions@.len() == 1
            &&& id == 0 ==> final(keys)@ == old(keys)@.installed(
                old(s).group()->Some_0,
                old(s)@.speakers,
            ) && final(s)@ == old(s)@
            &&& id != 0 ==> final(keys)@ == old(keys)@ && final(s)@.pending == Some(id)
        },
        followed is Err || old(s).group() is None ==> {
            idle(r) && final(keys)@ == old(keys)@ && final(s)@ == old(s)@
        },
        final(s).group() == old(s).group(),
        final(s)@.speakers == old(s)@.speakers,
        final(s)@.downgrade == old(s)@.downgrade,
{
    lemma_confirms(id);
    assert(r@.actions.len() == r.actions@.len());
    if followed is Ok && old(s).group() is Some {
        assert(r@.actions[0] == r.actions@[0]@);
    }
}

/// Whenever a welcome or a commit leads to anything, the last thing to be done is to confirm
/// the transition whose number is in the first two bytes of the payload, most significant
/// first. No other binary message leads to anything.
pub proof fn law_binary_messages_are_confirmed(
    s: &mut VoiceSession,
    keys: &mut MediaKeys,
    message: &[u8],
    r: Step,
)
    requires
        old(s).wf(),
        call_ensures(VoiceSession::on_binary, (s, keys, message), r),
    ensures
        !idle(r) ==> {
            &&& message@.len() >= 5
            &&& message@[2] == 30 || message@[2] == 29
            &&& ends_by_confirming(r, number16(message@[3], message@[4]))
        },
        idle(r) && (message@.len() < 3 || message@[2] != 29 && message@[2] != 30) ==> final(keys)@
            == old(keys)@,
        idle(r) ==> final(keys)@ == old(keys)@ && final(s)@ == old(s)@,
        r.error is None,
{
    let payload = message@.skip(3);
    if message@.len() >= 5 {
        assert(payload[0] == message@[3] && payload[1] == message@[4]);
        lemma_confirms((message@[3] * 256 + message@[4]) as u16);
    }
    if message@.len() >= 3 {
        lemma_confirms(0);
    }
    assert(r@.actions.len() == r.actions@.len());
    if r.actions@.len() > 0 {
        assert(r@.actions.last() == r.actions@.last()@);
    }
}

/// The keys of a commit that was announced under a number come into force when that number is
/// executed, and not before: another number changes nothing.
pub proof fn law_keys_change_on_execute(
    s1: &mut VoiceSession,
    k1: &mut MediaKeys,
    id: u16,
    r1: Step,
    s2: &mut VoiceSession,
    k2: &mut MediaKeys,
    message: &Json,
    number: u64,
    r2: Step,
)
    requires
        old(s1).wf(),
        old(s1).group() is Some,
        id != 0,
        old(s1)@.downgrade is None,
        call_ensures(VoiceSession::after_commit, (s1, k1, id, Ok(())), r1),
        *old(s2) == *final(s1),
        *old(k2) == *final(k1),
        op_of(message@) == Some(22u64),
        number_of_data(message@, "transition_id"@) == Some(number),
        call_ensures(VoiceSession::on_text, (s2, k2, message), r2),
    ensures
        number == id ==> final(k2)@ == old(k1)@.installed(
            old(s1).group()->Some_0,
            old(s1)@.speakers,
        ),
        number == id ==> final(s2)@.pending is None,
        number <= 0xffff && number != id ==> final(k2)@ == old(k1)@ && final(s2)@.pending == Some(
            id,
        ),
        idle(r2),
{
    assert(r2@.actions.len() == r2.actions@.len());
    assert(old(s2)@.pending == Some(id));
}

/// Leaving encryption is announced under a number, with protocol version zero, and happens
/// when that number is executed: all keys are then gone.
pub proof fn law_downgrade(
    s1: &mut VoiceSession,
    k1: &mut MediaKeys,
    prepare: &Json,
    r1: Step,
    s2: &mut VoiceSession,
    k2: &mut MediaKeys,
    execute: &Json,
    r2: Step,
    id: u64,
)
    requires
        old(s1).wf(),
        id <= 0xffff,
        op_of(prepare@) == Some(21u64),
        number_of_data(prepare@, "protocol_version"@) == Some(0u64),
        number_of_data(prepare@, "transition_id"@) == Some(id),
        call_ensures(VoiceSession::on_text, (s1, k1, prepare), r1),
        *old(s2) == *final(s1),
        *old(k2) == *final(k1),
        op_of(execute@) == Some(22u64),
        number_of_data(execute@, "transition_id"@) == Some(id),
        call_ensures(VoiceSession::on_text, (s2, k2, execute), r2),
    ensures
        final(k1)@ == old(k1)@,
        final(k2)@ == KeysView::none(),
        final(k2)@.tx is None,
        !final(k2)@.active,
        forall|ssrc: u32| !#[trigger] final(k2)@.rx.contains_key(ssrc),
        idle(r1),
        idle(r2),
{
    assert(r1@.actions.len() == r1.actions@.len());
    assert(r2@.actions.len() == r2.actions@.len());
}

/// A session introduces itself with what it was made of.
pub proof fn law_session_identifies(info: VoiceConnInfo, s: VoiceSession, r: Json)
    requires
        call_ensures(VoiceSession::new, (info,), s),
        call_ensures(VoiceSession::identify, (&s,), r),
    ensures
        op_of(r@) == Some(0u64),
        text_of_data(r@, "server_id"@) == Some(info.guild_id@),
        text_of_data(r@, "user_id"@) == Some(info.user_id@),
        text_of_data(r@, "session_id"@) == Some(info.session_id@),
        text_of_data(r@, "token"@) == Some(info.token@),
        number_of_data(r@, "max_dave_protocol_version"@) == Some(1u64),
        s.wf(),
        s.group() is None,
{
    lemma_voice_identify(info);
}

/// HELLO sets how often heartbeats come due.
pub proof fn law_hello(
    s: &mut VoiceSession,
    keys: &mut MediaKeys,
    message: &Json,
    ms: u64,
    r: Step,
)
    requires
        old(s).wf(),
        call_ensures(VoiceSession::on_text, (s, keys, message), r),
        op_of(message@) == Some(8u64),
        data_of(message@).whole_field("heartbeat_interval"@) == Some(ms),
    ensures
        r.error is None,
        r.actions@.len() == 1,
        r.actions@[0] == VoiceAction::SetHeartbeat(ms),
        final(s)@.hello_seen,
        final(keys)@ == old(keys)@,
{
    assert(r@.actions.len() == r.actions@.len());
    assert(r@.actions[0] == r.actions@[0]@);
}

/// Heartbeats of the voice session: none before HELLO; then one with the time and the number
/// of the last message that had one; and where the one before was not answered the session is
/// over.
pub proof fn law_voice_heartbeats(
    s1: &mut VoiceSession,
    keys: &mut MediaKeys,
    message: &Json,
    n: u64,
    r1: Step,
    s2: &mut VoiceSession,
    now: u64,
    r2: Result<Option<Json>, VoiceError>,
    s3: &mut VoiceSession,
    later: u64,
    r3: Result<Option<Json>, VoiceError>,
)
    requires
        old(s1).wf(),
        old(s1)@.got_ack,
        call_ensures(VoiceSession::on_text, (s1, keys, message), r1),
        op_of(message@) == Some(8u64),
        message@.u64_field("seq"@) == Some(n),
        *old(s2) == *final(s1),
        call_ensures(VoiceSession::on_tick, (s2, now), r2),
        *old(s3) == *final(s2),
        call_ensures(VoiceSession::on_tick, (s3, later), r3),
    ensures
        r2 is Ok,
        r2->Ok_0 is Some,
        op_of(r2->Ok_0->Some_0@) == Some(3u64),
        number_of_data(r2->Ok_0->Some_0@, "t"@) == Some(now),
        number_of_data(r2->Ok_0->Some_0@, "seq_ack"@) == Some(n),
        r3 is Err,
        r3->Err_0 is NoHeartbeatAck,
{
    lemma_voice_heartbeat(now, Some(n));
}

/// A heartbeat that was answered is followed by another one.
pub proof fn law_answered_voice_heartbeats_go_on(
    s1: &mut VoiceSession,
    keys: &mut MediaKeys,
    message: &Json,
    r1: Step,
    s2: &mut VoiceSession,
    now: u64,
    r2: Result<Option<Json>, VoiceError>,
)
    requires
        old(s1).wf(),
        call_ensures(VoiceSession::on_text, (s1, keys, message), r1),
        op_of(message@) == Some(6u64),
        *old(s2) == *final(s1),
        call_ensures(VoiceSession::on_tick, (s2, now), r2),
    ensures
        idle(r1),
        r2 is Ok,
        r2->Ok_0 is Some <==> old(s1)@.hello_seen,
{
    assert(r1@.actions.len() == r1.actions@.len());
}

/// READY with a source, an address, a port and the encryption on offer: the address is looked
/// at from the socket, and once the server has said how it sees it, that is what is chosen.
pub proof fn law_ready_leads_to_the_choice(
    s1: &mut VoiceSession,
    keys: &mut MediaKeys,
    message: &Json,
    ssrc: u64,
    ip: Seq<char>,
    port: u64,
    r1: Step,
    s2: &mut VoiceSession,
    address: &str,
    seen: u16,
    r2: Json,
)
    requires
        old(s1).wf(),
        call_ensures(VoiceSession::on_text, (s1, keys, message), r1),
        op_of(message@) == Some(2u64),
        number_of_data(message@, "ssrc"@) == Some(ssrc),
        0 < ssrc <= u32::MAX,
        text_of_data(message@, "ip"@) == Some(ip),
        ip.len() > 0,
        number_of_data(message@, "port"@) == Some(port),
        0 < port <= 0xffff,
        texts_field(data_of(message@), "modes"@).contains("aead_xchacha20_poly1305_rtpsize"@),
        *old(s2) == *final(s1),
        call_ensures(VoiceSession::on_discovered, (s2, address, seen), r2),
    ensures
        r1.error is None,
        r1.actions@.len() == 1,
        r1.actions@[0] is Discover,
        r1.actions@[0]->address@ == ip + ":"@ + decimal(port as nat),
        r1.actions@[0]->Discover_ssrc == ssrc,
        final(s1)@.ssrc == ssrc,
        op_of(r2@) == Some(1u64),
        text_of_data(r2@, "protocol"@) == Some("udp"@),
        data_of(r2@).field_or_null("data"@).text_field("address"@) == Some(address@),
        data_of(r2@).field_or_null("data"@).u64_field("port"@) == Some(seen as u64),
        data_of(r2@).field_or_null("data"@).text_field("mode"@) == Some(
            "aead_xchacha20_poly1305_rtpsize"@,
        ),
        final(s2)@.udp_ready,
{
    assert(r1@.actions.len() == r1.actions@.len());
    assert(r1@.actions[0] == r1.actions@[0]@);
    lemma_select_protocol(address@, seen, "aead_xchacha20_poly1305_rtpsize"@);
}

/// READY without a source, an address or a port, or without the encryption that the client
/// speaks, ends the session.
pub proof fn law_ready_that_is_refused(
    s: &mut VoiceSession,
    keys: &mut MediaKeys,
    message: &Json,
    r: Step,
)
    requires
        old(s).wf(),
        call_ensures(VoiceSession::on_text, (s, keys, message), r),
        op_of(message@) == Some(2u64),
    ensures
        number_of_data(message@, "ssrc"@) is None || text_of_data(message@, "ip"@) is None
            || number_of_data(message@, "port"@) is None ==> r.error is Some
            && r.error->Some_0 is IncompleteReady,
        !texts_field(data_of(message@), "modes"@).contains("aead_xchacha20_poly1305_rtpsize"@)
            ==> r.error is Some,
        r.error is Some ==> r.actions@.len() == 0,
{
    assert(r@.actions.len() == r.actions@.len());
}

/// SESSION DESCRIPTION with a key of 32 bytes, once there is a socket: the client announces
/// that it will speak, from its own source, audio starts with that key and source, and the
/// user is told. A key package, where there is one, goes out before.
pub proof fn law_audio_starts(
    s: &mut VoiceSession,
    d: &Json,
    package: Option<Vec<u8>>,
    r: Step,
)
    requires
        call_ensures(VoiceSession::describe, (s, d, package), r),
    ensures
        bytes_field(d@, "secret_key"@).len() == 32 && old(s)@.udp_ready ==> {
            let n = r.actions@.len() as int;
            &&& r.error is None
            &&& n == (if package is Some {
                4int
            } else {
                3
            })
            &&& r.actions@[n - 3] is Send
            &&& op_of(r.actions@[n - 3]->Send_0@) == Some(5u64)
            &&& number_of_data(r.actions@[n - 3]->Send_0@, "ssrc"@) == Some(old(s)@.ssrc as u64)
            &&& r.actions@[n - 2] is StartAudio
            &&& r.actions@[n - 2]->key@ == bytes_field(d@, "secret_key"@)
            &&& r.actions@[n - 2]->StartAudio_ssrc == old(s)@.ssrc
            &&& r.actions@[n - 1] is Notify
            &&& r.actions@[n - 1]->connected
        },
        package is Some ==> {
            &&& r.actions@.len() > 0
            &&& r.actions@[0] is SendBinary
            &&& r.actions@[0]->SendBinary_0@.len() == package->Some_0@.len() + 1
            &&& r.actions@[0]->SendBinary_0@[0] == 26
            &&& r.actions@[0]->SendBinary_0@.skip(1) == package->Some_0@
        },
        bytes_field(d@, "secret_key"@).len() != 32 ==> r.error is Some
            && r.error->Some_0 is BadSecretKey,
        bytes_field(d@, "secret_key"@).len() == 32 && !old(s)@.udp_ready ==> r.error is Some
            && r.error->Some_0 is UdpNotReady,
        r.error is Some ==> forall|i: int|
            0 <= i < r.actions@.len() ==> !((#[trigger] r.actions@[i]) is StartAudio),
{
    let n = r.actions@.len() as int;
    assert(r@.actions.len() == r.actions@.len());
    assert forall|i: int| 0 <= i < n implies r@.actions[i] == (#[trigger] r.actions@[i])@ by {}
    lemma_speaking(old(s)@.ssrc);
    if package is Some {
        assert(r@.actions[0] == r.actions@[0]@);
        assert((seq![26u8] + package->Some_0@).skip(1) =~= package->Some_0@);
    }
}

/// SPEAKING: the user behind a source is remembered, and gets a key where there is a group.
/// The client's own source is passed over.
pub proof fn law_speakers_are_remembered(
    s: &mut VoiceSession,
    keys: &mut MediaKeys,
    message: &Json,
    user: u64,
    id: Seq<char>,
    ssrc: u64,
    r: Step,
)
    requires
        old(s).wf(),
        call_ensures(VoiceSession::on_text, (s, keys, message), r),
        op_of(message@) == Some(5u64),
        text_of_data(message@, "user_id"@) == Some(id),
        crate::text::u64_of_text(id) == Some(user),
        number_of_data(message@, "ssrc"@) == Some(ssrc),
        ssrc <= u32::MAX,
    ensures
        ssrc != old(s)@.ssrc ==> {
            &&& final(s)@.speakers.contains_key(ssrc as u32)
            &&& final(s)@.speakers[ssrc as u32] == user
            &&& old(s).group() is None ==> final(keys)@ == old(keys)@
            &&& old(s).group() is Some && old(s).group()->Some_0.media_secret(user) is Some
                ==> final(keys)@.rx.contains_key(ssrc as u32)
        },
        ssrc == old(s)@.ssrc ==> final(keys)@ == old(keys)@ && final(s)@.speakers
            == old(s)@.speakers,
        forall|other: u32|
            other != ssrc ==> (#[trigger] final(s)@.speakers.contains_key(other)
                == old(s)@.speakers.contains_key(other)),
        forall|other: u32|
            other != ssrc && old(s)@.speakers.contains_key(other) ==> final(s)@.speakers[other]
                == #[trigger] old(s)@.speakers[other],
        idle(r),
{
    assert(r@.actions.len() == r.actions@.len());
}

/// The number of a message is kept, whatever the message is, and answers the next heartbeat;
/// a message without one leaves the last.
pub proof fn law_numbers_are_kept(
    s: &mut VoiceSession,
    keys: &mut MediaKeys,
    message: &Json,
    r: Step,
)
    requires
        old(s).wf(),
        call_ensures(VoiceSession::on_text, (s, keys, message), r),
    ensures
        message@.u64_field("seq"@) is Some ==> final(s)@.last_seq == message@.u64_field("seq"@),
        message@.u64_field("seq"@) is None ==> final(s)@.last_seq == old(s)@.last_seq,
        final(s).conn_info() == old(s).conn_info(),
{
}

/// Where the call is to be encrypted and there is no group yet, one is opened for the user.
pub proof fn law_group_is_opened(
    s: &mut VoiceSession,
    keys: &mut MediaKeys,
    message: &Json,
    version: u64,
    user: u64,
    r: Step,
)
    requires
        old(s).wf(),
        call_ensures(VoiceSession::on_text, (s, keys, message), r),
        op_of(message@) == Some(4u64),
        number_of_data(message@, "dave_protocol_version"@) == Some(version),
        version >= 1,
        old(s).group() is None,
        crate::text::u64_of_text(old(s).conn_info().user_id@) == Some(user),
    ensures
        final(s).group() is Some,
        final(s).group()->Some_0.user() == user,
        !final(s).group()->Some_0.in_group(),
        final(keys)@ == old(keys)@,
        forall|i: int|
            0 <= i < r.actions@.len() && (#[trigger] r.actions@[i]) is SendBinary ==> {
                let bytes = r.actions@[i]->SendBinary_0@;
                bytes.len() > 0 && bytes[0] == 26 && crate::dave::mls::is_key_package(
                    bytes.skip(1),
                    user,
                )
            },
{
    let n = r.actions@.len() as int;
    assert(r@.actions.len() == r.actions@.len());
    let s1 = old(s)@.heard(message@);
    let d = data_of(message@);
    let package = choose|package: Option<Seq<u8>>|
        {
            &&& package is Some ==> crate::dave::mls::is_key_package(package->Some_0, user)
            &&& (final(s)@, r@) == #[trigger] s1.on_description(d, package)
        };
    assert forall|i: int| 0 <= i < n && (#[trigger] r.actions@[i]) is SendBinary implies {
        let bytes = r.actions@[i]->SendBinary_0@;
        bytes.len() > 0 && bytes[0] == 26 && crate::dave::mls::is_key_package(bytes.skip(1), user)
    } by {
        assert(r@.actions[i] == r.actions@[i]@);
        if package is Some {
            assert((seq![26u8] + package->Some_0).skip(1) =~= package->Some_0);
        }
    }
}

/// SESSION DESCRIPTION with a key of 32 bytes, once there is a socket, starts audio with that
/// key, from the client's own source, whatever else it leads to; without either the session is
/// over and nothing starts.
pub proof fn law_description_starts_audio(
    s: &mut VoiceSession,
    keys: &mut MediaKeys,
    message: &Json,
    r: Step,
)
    requires
        old(s).wf(),
        call_ensures(VoiceSession::on_text, (s, keys, message), r),
        op_of(message@) == Some(4u64),
    ensures
        ({
            let key = bytes_field(data_of(message@), "secret_key"@);
            &&& key.len() == 32 && old(s)@.udp_ready ==> {
                let n = r.actions@.len() as int;
                &&& r.error is None
                &&& 3 <= n <= 4
                &&& r.actions@[n - 3] is Send
                &&& op_of(r.actions@[n - 3]->Send_0@) == Some(5u64)
                &&& number_of_data(r.actions@[n - 3]->Send_0@, "ssrc"@) == Some(
                    old(s)@.ssrc as u64,
                )
                &&& r.actions@[n - 2] is StartAudio
                &&& r.actions@[n - 2]->key@ == key
                &&& r.actions@[n - 2]->StartAudio_ssrc == old(s)@.ssrc
                &&& r.actions@[n - 1] is Notify
                &&& r.actions@[n - 1]->connected
                &&& !final(s)@.udp_ready
            }
            &&& key.len() != 32 || !old(s)@.udp_ready ==> r.error is Some
        }),
{
    assert(r@.actions.len() == r.actions@.len());
    lemma_speaking(old(s)@.ssrc);
    let s1 = old(s)@.heard(message@);
    let d = data_of(message@);
    let package = choose|package: Option<Seq<u8>>|
        (final(s)@, r@) == #[trigger] s1.on_description(d, package);
    assert forall|i: int| 0 <= i < r.actions@.len() implies r@.actions[i] == (
    #[trigger] r.actions@[i])@ by {}
}

/// A message with any other opcode, or with none, leads to nothing.
pub proof fn law_other_messages_pass(
    s: &mut VoiceSession,
    keys: &mut MediaKeys,
    message: &Json,
    r: Step,
)
    requires
        old(s).wf(),
        call_ensures(VoiceSession::on_text, (s, keys, message), r),
        match op_of(message@) {
            Some(n) => n != 2 && n != 4 && n != 5 && n != 6 && n != 8 && n != 21 && n != 22,
            None => true,
        },
    ensures
        idle(r),
        final(keys)@ == old(keys)@,
        final(s).group() == old(s).group(),
        final(s)@.pending == old(s)@.pending,
        final(s)@.speakers == old(s)@.speakers,
{
    assert(r@.actions.len() == r.actions@.len());
}

/// A transition that does not leave encryption is not awaited as one that does.
pub proof fn law_other_transitions(
    s: &mut VoiceSession,
    keys: &mut MediaKeys,
    message: &Json,
    version: u64,
    r: Step,
)
    requires
        old(s).wf(),
        call_ensures(VoiceSession::on_text, (s, keys, message), r),
        op_of(message@) == Some(21u64),
        number_of_data(message@, "protocol_version"@) == Some(version),
        version != 0,
    ensures
        idle(r),
        final(s)@.downgrade == old(s)@.downgrade,
        final(s)@.pending == old(s)@.pending,
        final(keys)@ == old(keys)@,
{
    assert(r@.actions.len() == r.actions@.len());
}

/// The key of a sender that becomes known is that of the user behind the source, unless the
/// source has one already; the others keep theirs, and so does the client.
pub proof fn law_speakers_get_their_keys(
    s: &mut VoiceSession,
    keys: &mut MediaKeys,
    message: &Json,
    user: u64,
    id: Seq<char>,
    ssrc: u64,
    r: Step,
)
    requires
        old(s).wf(),
        call_ensures(VoiceSession::on_text, (s, keys, message), r),
        op_of(message@) == Some(5u64),
        text_of_data(message@, "user_id"@) == Some(id),
        crate::text::u64_of_text(id) == Some(user),
        number_of_data(message@, "ssrc"@) == Some(ssrc),
        ssrc <= u32::MAX,
        ssrc != old(s)@.ssrc,
        old(s).group() is Some,
    ensures
        ({
            let secret = old(s).group()->Some_0.media_secret(user);
            let was = old(keys)@.rx;
            let is = final(keys)@.rx;
            &&& secret is Some && !was.contains_key(ssrc as u32) ==> is.contains_key(ssrc as u32)
                && is[ssrc as u32] == secret->Some_0
            &&& was.contains_key(ssrc as u32) ==> is.contains_key(ssrc as u32) && is[ssrc as u32]
                == was[ssrc as u32]
            &&& secret is None ==> is == was
            &&& forall|other: u32|
                other != ssrc ==> (#[trigger] is.contains_key(other) == was.contains_key(other))
            &&& forall|other: u32|
                other != ssrc && was.contains_key(other) ==> is[other] == #[trigger] was[other]
        }),
        final(keys)@.tx == old(keys)@.tx,
        final(keys)@.active == old(keys)@.active,
        final(s).group() == old(s).group(),
{
}

/// A message that lacks who speaks, or from where, tells nothing.
pub proof fn law_incomplete_speaking(
    s: &mut VoiceSession,
    keys: &mut MediaKeys,
    message: &Json,
    r: Step,
)
    requires
        old(s).wf(),
        call_ensures(VoiceSession::on_text, (s, keys, message), r),
        op_of(message@) == Some(5u64),
        number_of_data(message@, "ssrc"@) is None || text_of_data(message@, "user_id"@) is None,
    ensures
        idle(r),
        final(s)@.speakers == old(s)@.speakers,
        final(keys)@ == old(keys)@,
{
    assert(r@.actions.len() == r.actions@.len());
}

/// A group that there is stays the same through every message that is text, and none is opened
/// where the call is not to be encrypted.
pub proof fn law_group_stays(s: &mut VoiceSession, keys: &mut MediaKeys, message: &Json, r: Step)
    requires
        old(s).wf(),
        call_ensures(VoiceSession::on_text, (s, keys, message), r),
    ensures
        old(s).group() is Some ==> final(s).group() == old(s).group(),
        op_of(message@) != Some(4u64) ==> final(s).group() == old(s).group(),
        number_of_data(message@, "dave_protocol_version"@) is None || number_of_data(
            message@,
            "dave_protocol_version"@,
        ) == Some(0u64) ==> final(s).group() == old(s).group(),
        final(s).wf(),
{
}

/// The encryption that READY was answered with is the one that audio starts with.
pub proof fn law_mode_is_kept(
    s1: &mut VoiceSession,
    keys: &mut MediaKeys,
    message: &Json,
    r1: Step,
    s2: &mut VoiceSession,
    address: &str,
    port: u16,
    r2: Json,
    s3: &mut VoiceSession,
    d: &Json,
    package: Option<Vec<u8>>,
    r3: Step,
    i: int,
)
    requires
        old(s1).wf(),
        call_ensures(VoiceSession::on_text, (s1, keys, message), r1),
        op_of(message@) == Some(2u64),
        r1.error is None,
        *old(s2) == *final(s1),
        call_ensures(VoiceSession::on_discovered, (s2, address, port), r2),
        *old(s3) == *final(s2),
        call_ensures(VoiceSession::describe, (s3, d, package), r3),
        0 <= i < r3.actions@.len(),
        r3.actions@[i] is StartAudio,
    ensures
        r3.actions@[i]->mode@ == "aead_xchacha20_poly1305_rtpsize"@,
        r3.actions@[i]->StartAudio_ssrc == final(s1)@.ssrc,
        data_of(r2@).field_or_null("data"@).text_field("mode"@) == Some(r3.actions@[i]->mode@),
{
    assert(r3@.actions[i] == r3.actions@[i]@);
    assert(r3@.actions.len() == r3.actions@.len());
    lemma_select_protocol(address@, port, "aead_xchacha20_poly1305_rtpsize"@);
}

/// What the user is told: that voice is connected, and that it is encrypted end to end once the
/// client was let in.
pub proof fn law_what_the_user_is_told(
    s1: &mut VoiceSession,
    keys: &mut MediaKeys,
    id: u16,
    r1: Step,
    s2: &mut VoiceSession,
    d: &Json,
    package: Option<Vec<u8>>,
    r2: Step,
    i: int,
)
    requires
        call_ensures(VoiceSession::after_welcome, (s1, keys, id, Ok(())), r1),
        old(s1).group() is Some,
        call_ensures(VoiceSession::describe, (s2, d, package), r2),
        0 <= i < r2.actions@.len(),
        r2.actions@[i] is Notify,
    ensures
        r1.actions@.len() > 0,
        r1.actions@[0] is Notify,
        r1.actions@[0]->Notify_text@ == "voz: conectado (E2EE)"@,
        r2.actions@[i]->Notify_text@ == "voz: conectado"@,
        r2.actions@[i]->connected,
{
    assert(r1@.actions.len() == r1.actions@.len());
    assert(r1@.actions[0] == r1.actions@[0]@);
    assert(r2@.actions.len() == r2.actions@.len());
    assert(r2@.actions[i] == r2.actions@[i]@);
}

/// Why READY or the key is refused: a source, an address or a port of nothing; the list of what
/// is on offer; how many bytes the key has.
pub proof fn law_why_it_is_refused(
    s1: &mut VoiceSession,
    keys: &mut MediaKeys,
    message: &Json,
    r1: Step,
    s2: &mut VoiceSession,
    d: &Json,
    package: Option<Vec<u8>>,
    r2: Step,
    i: int,
)
    requires
        old(s1).wf(),
        call_ensures(VoiceSession::on_text, (s1, keys, message), r1),
        op_of(message@) == Some(2u64),
        call_ensures(VoiceSession::describe, (s2, d, package), r2),
    ensures
        number_of_data(message@, "ssrc"@) == Some(0u64) || text_of_data(message@, "ip"@) == Some(
            Seq::<char>::empty(),
        ) || number_of_data(message@, "port"@) == Some(0u64) ==> r1.error is Some
            && r1.error->Some_0 is IncompleteReady,
        r1.error is Some && r1.error->Some_0 is ModeNotOffered ==> {
            let told = r1.error->Some_0->ModeNotOffered_0@;
            let offered = texts_field(data_of(message@), "modes"@);
            &&& told.len() == offered.len()
            &&& 0 <= i < told.len() ==> told[i]@ == offered[i]
            &&& !offered.contains("aead_xchacha20_poly1305_rtpsize"@)
        },
        r1.error is Some ==> r1.error->Some_0 is ModeNotOffered
            || r1.error->Some_0 is IncompleteReady,
        r2.error is Some && r2.error->Some_0 is BadSecretKey ==> r2.error->Some_0->BadSecretKey_0
            == bytes_field(d@, "secret_key"@).len(),
{
    if r1.error is Some && r1.error->Some_0 is ModeNotOffered {
        let told = r1.error->Some_0->ModeNotOffered_0@;
        let shown = crate::voice::error::texts_view(told);
        assert(r1.error->Some_0@
            == crate::voice::error::VoiceErrorView::ModeNotOffered(shown));
        assert(shown.len() == told.len());
        if 0 <= i < told.len() {
            assert(shown[i] == told[i]@);
        }
    }
}

} // verus!

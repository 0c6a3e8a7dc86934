//! The session with the main gateway, from the outside: what goes in and what comes out.

use vstd::prelude::*;

use crate::gateway::{
    body_kind, build_resume, jittered_wait, Body, BodyKind, Ended, Gateway, GatewayCommand,
    GatewayStep, ResumeInfo,
};
use crate::json::{Json, JsonView};
use crate::laws::messages::{
    data_of, law_envelope, lemma_identify_fields, lemma_resume_fields, lemma_voice_state_fields,
    op_of, text_of_data, text_or_null,
};
use crate::model::{
    identify_json, option_view, resume_json, Hello, Message, Ready, VoiceStateUpdateData,
};
use crate::state::{AppEvent, ConnState, VoiceSignal};
use crate::text::without_trailing;

verus! {

proof fn lemma_names()
    ensures
        "READY"@.len() == 5,
        "RESUMED"@.len() == 7,
        "MESSAGE_CREATE"@.len() == 14,
        "VOICE_STATE_UPDATE"@.len() == 18,
        "VOICE_SERVER_UPDATE"@.len() == 19,
{
    reveal_strlit("READY");
    reveal_strlit("RESUMED");
    reveal_strlit("MESSAGE_CREATE");
    reveal_strlit("VOICE_STATE_UPDATE");
    reveal_strlit("VOICE_SERVER_UPDATE");
}

/// The step does nothing but what its message, if any, says.
pub open spec fn only_sends(r: GatewayStep) -> bool {
    r.events@.len() == 0 && r.signal is None && r.end is None
}

/// VOICE_SERVER_UPDATE: voice is told the server, the endpoint and the token that the event
/// holds, each under its own name. Without a token it is told nothing.
pub proof fn law_server_update(gateway: &mut Gateway, name: &str, d: Json, r: GatewayStep)
    requires
        call_ensures(Gateway::handle_dispatch, (gateway, name, Body::Raw(d)), r),
        name@ == "VOICE_SERVER_UPDATE"@,
    ensures
        match d@.text_field("token"@) {
            None => r.signal is None,
            Some(token) => match r.signal {
                Some(VoiceSignal::Server { guild_id, endpoint, token: t }) => {
                    &&& t@ == token
                    &&& option_view(endpoint) == d@.text_field("endpoint"@)
                    &&& match d@.text_field("guild_id"@) {
                        Some(g) => guild_id@ == g,
                        None => guild_id@.len() == 0,
                    }
                },
                _ => false,
            },
        },
        r.events@.len() == 0,
        r.send is None,
        r.end is None,
{
    lemma_names();
    assert(r@.events.len() == r.events@.len());
}

/// VOICE_STATE_UPDATE: voice is told the user, the session, the server and the channel that
/// the event holds, each under its own name. Without a session it is told nothing.
pub proof fn law_state_update(gateway: &mut Gateway, name: &str, d: Json, r: GatewayStep)
    requires
        call_ensures(Gateway::handle_dispatch, (gateway, name, Body::Raw(d)), r),
        name@ == "VOICE_STATE_UPDATE"@,
    ensures
        match d@.text_field("session_id"@) {
            None => r.signal is None,
            Some(session) => match r.signal {
                Some(VoiceSignal::State { user_id, guild_id, channel_id, session_id }) => {
                    &&& session_id@ == session
                    &&& option_view(guild_id) == d@.text_field("guild_id"@)
                    &&& option_view(channel_id) == d@.text_field("channel_id"@)
                    &&& match d@.text_field("user_id"@) {
                        Some(u) => user_id@ == u,
                        None => user_id@.len() == 0,
                    }
                },
                _ => false,
            },
        },
        r.events@.len() == 0,
        r.send is None,
        r.end is None,
{
    lemma_names();
    assert(r@.events.len() == r.events@.len());
}

/// MESSAGE_CREATE: the window is told the message that came in, and nothing else happens.
pub proof fn law_message_comes_in(gateway: &mut Gateway, name: &str, m: Message, r: GatewayStep)
    requires
        call_ensures(Gateway::handle_dispatch, (gateway, name, Body::Message(m)), r),
        name@ == "MESSAGE_CREATE"@,
    ensures
        r.events@.len() == 1,
        r.events@[0] is NewMessage,
        r.events@[0]->NewMessage_0@ == m@,
        r.signal is None,
        r.send is None,
        r.end is None,
        final(gateway)@ == old(gateway)@,
{
    lemma_names();
    assert(r@.events.len() == r.events@.len());
    assert(r@.events[0] == r.events@[0]@);
}

/// READY: the window is told that the connection is up, then who the user is.
pub proof fn law_ready_is_told(gateway: &mut Gateway, name: &str, ready: Ready, r: GatewayStep)
    requires
        call_ensures(Gateway::handle_dispatch, (gateway, name, Body::Ready(ready)), r),
        name@ == "READY"@,
    ensures
        r.events@.len() == 2,
        r.events@[0] == AppEvent::Connection(ConnState::Connected),
        r.events@[1] is Ready,
        r.events@[1]->Ready_0@ == ready.user@,
        r.signal is None,
{
    lemma_names();
    assert(r@.events.len() == r.events@.len());
    assert(r@.events[0] == r.events@[0]@);
    assert(r@.events[1] == r.events@[1]@);
}

/// RESUMED: the window is told that the connection is up.
pub proof fn law_resumed_is_told(gateway: &mut Gateway, name: &str, body: Body, r: GatewayStep)
    requires
        call_ensures(Gateway::handle_dispatch, (gateway, name, body), r),
        name@ == "RESUMED"@,
    ensures
        r.events@.len() == 1,
        r.events@[0] == AppEvent::Connection(ConnState::Connected),
        r.signal is None,
        final(gateway)@ == old(gateway)@,
{
    lemma_names();
    assert(r@.events.len() == r.events@.len());
    assert(r@.events[0] == r.events@[0]@);
}

/// What the window and voice are told of an event is the same whether the event is handled by
/// itself or as part of its message.
pub proof fn law_events_reach_the_window(
    g1: &mut Gateway,
    g2: &mut Gateway,
    number: Option<u64>,
    name: &str,
    body: Body,
    whole: GatewayStep,
    alone: GatewayStep,
)
    requires
        call_ensures(Gateway::on_message, (g1, 0u8, number, Some(name), body), whole),
        call_ensures(Gateway::handle_dispatch, (g2, name, body), alone),
    ensures
        whole@.events == alone@.events,
        whole@.signal == alone@.signal,
        whole.end is None,
{
}

/// Other events pass by: neither the window nor voice is told of them.
pub proof fn law_other_events_pass(gateway: &mut Gateway, name: &str, body: Body, r: GatewayStep)
    requires
        call_ensures(Gateway::handle_dispatch, (gateway, name, body), r),
        name@ != "READY"@,
        name@ != "RESUMED"@,
        name@ != "MESSAGE_CREATE"@,
        name@ != "VOICE_STATE_UPDATE"@,
        name@ != "VOICE_SERVER_UPDATE"@,
    ensures
        only_sends(r),
        r.send is None,
        final(gateway)@ == old(gateway)@,
{
    assert(r@.events.len() == r.events@.len());
}

/// A client that has just been made connects to the gateway and answers the greeting with its
/// token, as a client that takes nothing compressed; heartbeats then come due as often as the
/// greeting says.
pub proof fn law_first_connection(
    token: &str,
    os: &str,
    fresh: Gateway,
    g1: &mut Gateway,
    opened: (ConnState, String),
    g2: &mut Gateway,
    interval: u64,
    number: Option<u64>,
    name: Option<&str>,
    r: GatewayStep,
)
    requires
        call_ensures(Gateway::new, (token, os), fresh),
        *old(g1) == fresh,
        call_ensures(Gateway::open, (g1,), opened),
        *old(g2) == *final(g1),
        call_ensures(
            Gateway::on_message,
            (g2, 10u8, number, name, Body::Hello(Hello { heartbeat_interval: interval })),
            r,
        ),
    ensures
        opened.0 == ConnState::Connecting,
        opened.1@ == "wss://gateway.discord.gg/?v=10&encoding=json"@,
        r.send is Some,
        op_of(r.send->Some_0@) == Some(2u64),
        text_of_data(r.send->Some_0@, "token"@) == Some(token@),
        data_of(r.send->Some_0@).field("compress"@) == Some(JsonView::Bool(false)),
        data_of(r.send->Some_0@).field_or_null("properties"@).text_field("os"@) == Some(os@),
        r.heartbeat == Some(interval),
        only_sends(r),
{
    let d = identify_json(token@, os@, "discord-lite"@, "discord-lite"@, false);
    law_envelope(2, d);
    lemma_identify_fields(token@, os@, "discord-lite"@, "discord-lite"@, false);
    assert(r@.events.len() == r.events@.len());
}

/// A session that was opened, and whose connection is then lost, is taken up again: where
/// READY said, with the session that READY named and the number of the last event.
pub proof fn law_lost_session_is_taken_up(
    g1: &mut Gateway,
    n: u64,
    name: &str,
    ready: Ready,
    r1: GatewayStep,
    g2: &mut Gateway,
    closed: (),
    g3: &mut Gateway,
    opened: (ConnState, String),
    g4: &mut Gateway,
    hello: Hello,
    r: GatewayStep,
)
    requires
        call_ensures(
            Gateway::on_message,
            (g1, 0u8, Some(n), Some(name), Body::Ready(ready)),
            r1,
        ),
        name@ == "READY"@,
        ready.resume_gateway_url is Some,
        *old(g2) == *final(g1),
        call_ensures(Gateway::close, (g2, Ended::Lost), closed),
        *old(g3) == *final(g2),
        call_ensures(Gateway::open, (g3,), opened),
        *old(g4) == *final(g3),
        call_ensures(Gateway::on_message, (g4, 10u8, None, None, Body::Hello(hello)), r),
    ensures
        opened.1@ == without_trailing(ready.resume_gateway_url->Some_0@, '/')
            + "/?v=10&encoding=json"@,
        r.send is Some,
        op_of(r.send->Some_0@) == Some(6u64),
        text_of_data(r.send->Some_0@, "token"@) == Some(old(g1)@.token),
        text_of_data(r.send->Some_0@, "session_id"@) == Some(ready.session_id@),
        data_of(r.send->Some_0@).u64_field("seq"@) == Some(n),
        r.heartbeat == Some(hello.heartbeat_interval),
{
    let d = resume_json(old(g1)@.token, ready.session_id@, n);
    law_envelope(6, d);
    lemma_resume_fields(old(g1)@.token, ready.session_id@, n);
}

/// After an invalid session the client starts over: at the gateway, with its token and without
/// the old session.
pub proof fn law_invalid_session_starts_over(
    g1: &mut Gateway,
    closed: (),
    g2: &mut Gateway,
    opened: (ConnState, String),
    g3: &mut Gateway,
    hello: Hello,
    r: GatewayStep,
)
    requires
        call_ensures(Gateway::close, (g1, Ended::Invalid), closed),
        *old(g2) == *final(g1),
        call_ensures(Gateway::open, (g2,), opened),
        *old(g3) == *final(g2),
        call_ensures(Gateway::on_message, (g3, 10u8, None, None, Body::Hello(hello)), r),
    ensures
        opened.1@ == "wss://gateway.discord.gg/?v=10&encoding=json"@,
        r.send is Some,
        op_of(r.send->Some_0@) == Some(2u64),
        text_of_data(r.send->Some_0@, "token"@) == Some(old(g1)@.token),
{
    let s = old(g1)@;
    let d = identify_json(s.token, s.os, "discord-lite"@, "discord-lite"@, false);
    law_envelope(2, d);
    lemma_identify_fields(s.token, s.os, "discord-lite"@, "discord-lite"@, false);
}

/// A message that is a heartbeat: its opcode, and the number of the last event or `null`.
pub open spec fn is_heartbeat(message: Option<Json>, last: Option<u64>) -> bool {
    &&& message is Some
    &&& op_of(message->Some_0@) == Some(1u64)
    &&& match last {
        Some(n) => data_of(message->Some_0@) == (JsonView::Number { exact: Some(n), whole: n }),
        None => data_of(message->Some_0@) == JsonView::Null,
    }
}

/// Heartbeats: none goes out before the greeting; then one goes out each time it comes due,
/// with the number of the last message that had one; and where the one before was not answered
/// the connection is lost in its place.
pub proof fn law_heartbeats(
    g1: &mut Gateway,
    interval: Hello,
    r1: GatewayStep,
    g2: &mut Gateway,
    n: u64,
    name: Option<&str>,
    body: Body,
    r2: GatewayStep,
    g3: &mut Gateway,
    r3: GatewayStep,
    g4: &mut Gateway,
    r4: GatewayStep,
)
    requires
        old(g1)@.got_ack,
        call_ensures(Gateway::on_message, (g1, 10u8, None, None, Body::Hello(interval)), r1),
        *old(g2) == *final(g1),
        call_ensures(Gateway::on_message, (g2, 0u8, Some(n), name, body), r2),
        *old(g3) == *final(g2),
        call_ensures(Gateway::on_tick, (g3,), r3),
        *old(g4) == *final(g3),
        call_ensures(Gateway::on_tick, (g4,), r4),
    ensures
        is_heartbeat(r3.send, Some(n)),
        only_sends(r3),
        r4.send is None,
        r4.end == Some(Ended::Lost),
{
    law_envelope(1, JsonView::number_or_null(Some(n)));
    assert(r3@.events.len() == r3.events@.len());
}

/// A heartbeat that was answered is followed by another one.
pub proof fn law_answered_heartbeats_go_on(
    g1: &mut Gateway,
    name: Option<&str>,
    body: Body,
    r1: GatewayStep,
    g2: &mut Gateway,
    r2: GatewayStep,
)
    requires
        call_ensures(Gateway::on_message, (g1, 11u8, None, name, body), r1),
        *old(g2) == *final(g1),
        call_ensures(Gateway::on_tick, (g2,), r2),
    ensures
        r1.send is None,
        only_sends(r1),
        r2.end is None,
        old(g1)@.identified ==> is_heartbeat(r2.send, old(g1)@.last_seq),
        !old(g1)@.identified ==> r2.send is None,
{
    law_envelope(1, JsonView::number_or_null(old(g1)@.last_seq));
    assert(r1@.events.len() == r1.events@.len());
}

/// A connection that has just been opened sends no heartbeat before the greeting.
pub proof fn law_no_heartbeat_before_the_greeting(
    g1: &mut Gateway,
    opened: (ConnState, String),
    g2: &mut Gateway,
    r: GatewayStep,
)
    requires
        call_ensures(Gateway::open, (g1,), opened),
        *old(g2) == *final(g1),
        call_ensures(Gateway::on_tick, (g2,), r),
    ensures
        r.send is None,
        only_sends(r),
{
    assert(r@.events.len() == r.events@.len());
}

/// The server asks for a heartbeat and gets one; it asks for a new connection, or says that
/// the session is not valid, and the connection ends so.
pub proof fn law_what_the_server_asks(
    gateway: &mut Gateway,
    op: u8,
    n: u64,
    name: Option<&str>,
    body: Body,
    r: GatewayStep,
)
    requires
        call_ensures(Gateway::on_message, (gateway, op, Some(n), name, body), r),
    ensures
        op == 1 ==> is_heartbeat(r.send, Some(n)) && only_sends(r),
        op == 7 ==> r.end == Some(Ended::Lost) && r.send is None,
        op == 9 ==> r.end == Some(Ended::Invalid) && r.send is None,
        op == 10 && !(body is Hello) ==> r.end == Some(Ended::Failed) && r.send is None,
{
    law_envelope(1, JsonView::number_or_null(Some(n)));
    assert(r@.events.len() == r.events@.len());
}

/// The message asks for the voice channel of a wish.
pub open spec fn asks_for(message: Option<Json>, v: VoiceStateUpdateData) -> bool {
    &&& message is Some
    &&& op_of(message->Some_0@) == Some(4u64)
    &&& text_of_data(message->Some_0@, "guild_id"@) == Some(v.guild_id@)
    &&& data_of(message->Some_0@).field("channel_id"@) == Some(
        text_or_null(option_view(v.channel_id)),
    )
    &&& data_of(message->Some_0@).field("self_mute"@) == Some(JsonView::Bool(v.self_mute))
    &&& data_of(message->Some_0@).field("self_deaf"@) == Some(JsonView::Bool(v.self_deaf))
}

/// A voice channel that is wanted while the session is open is asked for at once; one that is
/// wanted before is asked for when READY or RESUMED opens it, and not before.
pub proof fn law_wanted_voice_is_asked_for(
    g1: &mut Gateway,
    v: VoiceStateUpdateData,
    r1: GatewayStep,
    g2: &mut Gateway,
    number: Option<u64>,
    name: &str,
    body: Body,
    r2: GatewayStep,
)
    requires
        call_ensures(Gateway::on_command, (g1, GatewayCommand::VoiceState(v)), r1),
        *old(g2) == *final(g1),
        call_ensures(Gateway::on_message, (g2, 0u8, number, Some(name), body), r2),
    ensures
        old(g1)@.ready ==> asks_for(r1.send, v),
        !old(g1)@.ready ==> r1.send is None,
        !old(g1)@.ready && (name@ == "READY"@ || name@ == "RESUMED"@) ==> asks_for(r2.send, v),
        !old(g1)@.ready && name@ != "READY"@ && name@ != "RESUMED"@ ==> r2.send is None,
        name@ == "READY"@ || name@ == "RESUMED"@ ==> final(g2)@.ready,
        only_sends(r1),
{
    law_envelope(4, v@.json());
    lemma_voice_state_fields(v@);
    assert(r1@.events.len() == r1.events@.len());
}

/// How the data of a message is read follows from its opcode and its name.
pub proof fn law_body_kinds(op: u8, name: &str, r: BodyKind, nameless: BodyKind)
    requires
        call_ensures(body_kind, (op, Some(name)), r),
        call_ensures(body_kind, (op, None), nameless),
    ensures
        r is Hello <==> op == 10,
        r is Ready <==> op == 0 && name@ == "READY"@,
        r is Message <==> op == 0 && name@ == "MESSAGE_CREATE"@,
        nameless is Hello <==> op == 10,
        nameless is Hello || nameless is Raw,
{
    lemma_names();
}

/// A session can be taken up again exactly where it, its address and a number are known, and
/// then with these.
pub proof fn law_what_it_takes_to_resume(
    session_id: Option<String>,
    url: Option<String>,
    seq: Option<u64>,
    r: Option<ResumeInfo>,
)
    requires
        call_ensures(build_resume, (session_id, url, seq), r),
    ensures
        r is Some <==> session_id is Some && url is Some && seq is Some,
        r is Some ==> {
            &&& r->Some_0.session_id@ == session_id->Some_0@
            &&& r->Some_0.url@ == url->Some_0@
            &&& r->Some_0.seq == seq->Some_0
        },
{
}

/// The user is told of connecting before the first attempt and of reconnecting before every
/// other one, whatever happens in between.
pub proof fn law_attempts_are_told(
    g1: &mut Gateway,
    first: (ConnState, String),
    g2: &mut Gateway,
    how: Ended,
    closed: (),
    g3: &mut Gateway,
    second: (ConnState, String),
)
    requires
        call_ensures(Gateway::open, (g1,), first),
        *old(g2) == *final(g1),
        call_ensures(Gateway::close, (g2, how), closed),
        *old(g3) == *final(g2),
        call_ensures(Gateway::open, (g3,), second),
    ensures
        second.0 == ConnState::Reconnecting,
{
}

/// The waits between attempts: one second at first, each twice the one before up to half a
/// minute, and one second again after a connection that did not fail.
pub proof fn law_waits(
    token: &str,
    os: &str,
    fresh: Gateway,
    g0: &mut Gateway,
    first: u64,
    g1: &mut Gateway,
    a: u64,
    g2: &mut Gateway,
    b: u64,
    g3: &mut Gateway,
    how: Ended,
    closed: (),
    g4: &mut Gateway,
    c: u64,
)
    requires
        call_ensures(Gateway::new, (token, os), fresh),
        *old(g0) == fresh,
        call_ensures(Gateway::backoff, (g0,), first),
        old(g1)@.wf(),
        call_ensures(Gateway::backoff, (g1,), a),
        *old(g2) == *final(g1),
        call_ensures(Gateway::backoff, (g2,), b),
        how != Ended::Failed,
        call_ensures(Gateway::close, (g3, how), closed),
        *old(g4) == *final(g3),
        call_ensures(Gateway::backoff, (g4,), c),
    ensures
        first == 1,
        1 <= a <= 30,
        2 * a <= 30 ==> b == 2 * a,
        2 * a > 30 ==> b == 30,
        c == 1,
{
}

/// A wait is varied between a half and one and a half times, and is never longer than half a
/// minute.
pub proof fn law_varied_waits(seconds: u64, thousandths: u64, r: u64)
    requires
        1 <= seconds <= 30,
        thousandths < 1000,
        call_ensures(jittered_wait, (seconds, thousandths), r),
    ensures
        r <= 30000,
        r >= seconds * 500,
        r == seconds * 500 + seconds * thousandths || r == 30000,
        seconds * 500 + seconds * thousandths <= 30000 ==> r == seconds * 500 + seconds
            * thousandths,
{
    assert(seconds * (500 + thousandths) == seconds * 500 + seconds * thousandths)
        by (nonlinear_arith);
    assert(seconds * thousandths >= 0) by (nonlinear_arith)
        requires
            seconds >= 1,
            thousandths >= 0,
    ;
}

/// A session that was taken up again, and whose connection ends before the server says
/// anything, is taken up again at the same place, from the last number: whether the connection
/// was lost or failed.
pub proof fn law_taken_up_again_and_again(
    g1: &mut Gateway,
    opened: (ConnState, String),
    g2: &mut Gateway,
    how: Ended,
    closed: (),
    g3: &mut Gateway,
    again: (ConnState, String),
    g4: &mut Gateway,
    hello: Hello,
    r: GatewayStep,
)
    requires
        old(g1)@.resume is Some,
        call_ensures(Gateway::open, (g1,), opened),
        *old(g2) == *final(g1),
        how != Ended::Invalid,
        call_ensures(Gateway::close, (g2, how), closed),
        *old(g3) == *final(g2),
        call_ensures(Gateway::open, (g3,), again),
        *old(g4) == *final(g3),
        call_ensures(Gateway::on_message, (g4, 10u8, None, None, Body::Hello(hello)), r),
    ensures
        again.1@ == opened.1@,
        r.send is Some,
        op_of(r.send->Some_0@) == Some(6u64),
        text_of_data(r.send->Some_0@, "session_id"@) == Some(old(g1)@.resume->Some_0.session_id),
        data_of(r.send->Some_0@).u64_field("seq"@) == Some(old(g1)@.resume->Some_0.seq),
{
    let was = old(g1)@.resume->Some_0;
    let d = resume_json(old(g1)@.token, was.session_id, was.seq);
    law_envelope(6, d);
    lemma_resume_fields(old(g1)@.token, was.session_id, was.seq);
}

/// The number from which a session is taken up again is that of the last event that had one.
pub proof fn law_last_number_counts(
    g1: &mut Gateway,
    op: u8,
    n: u64,
    name: Option<&str>,
    body: Body,
    r1: GatewayStep,
    g2: &mut Gateway,
    other: Option<&str>,
    raw: Json,
    r2: GatewayStep,
    g3: &mut Gateway,
    closed: (),
)
    requires
        old(g1)@.session_id is Some,
        old(g1)@.resume_url is Some,
        !(body is Ready),
        call_ensures(Gateway::on_message, (g1, op, Some(n), name, body), r1),
        *old(g2) == *final(g1),
        call_ensures(Gateway::on_message, (g2, op, None, other, Body::Raw(raw)), r2),
        *old(g3) == *final(g2),
        call_ensures(Gateway::close, (g3, Ended::Lost), closed),
    ensures
        final(g3)@.resume is Some,
        final(g3)@.resume->Some_0.seq == n,
        final(g3)@.resume->Some_0.session_id == old(g1)@.session_id->Some_0,
        final(g3)@.resume->Some_0.url == old(g1)@.resume_url->Some_0,
{
}

/// A connection that is lost before a session was opened leaves nothing to take up again.
pub proof fn law_nothing_to_take_up(
    token: &str,
    os: &str,
    fresh: Gateway,
    g1: &mut Gateway,
    opened: (ConnState, String),
    g2: &mut Gateway,
    how: Ended,
    closed: (),
    g3: &mut Gateway,
    again: (ConnState, String),
)
    requires
        call_ensures(Gateway::new, (token, os), fresh),
        *old(g1) == fresh,
        call_ensures(Gateway::open, (g1,), opened),
        *old(g2) == *final(g1),
        call_ensures(Gateway::close, (g2, how), closed),
        *old(g3) == *final(g2),
        call_ensures(Gateway::open, (g3,), again),
    ensures
        again.1@ == "wss://gateway.discord.gg/?v=10&encoding=json"@,
{
}

/// The voice channel that is wanted is asked for again on the next connection, however the last
/// one ended, and once for each.
pub proof fn law_wanted_voice_outlives_the_connection(
    g1: &mut Gateway,
    v: VoiceStateUpdateData,
    r1: GatewayStep,
    g2: &mut Gateway,
    how: Ended,
    closed: (),
    g3: &mut Gateway,
    opened: (ConnState, String),
    g4: &mut Gateway,
    name: &str,
    body: Body,
    r4: GatewayStep,
    g5: &mut Gateway,
    again: &str,
    other: Body,
    r5: GatewayStep,
)
    requires
        call_ensures(Gateway::on_command, (g1, GatewayCommand::VoiceState(v)), r1),
        *old(g2) == *final(g1),
        call_ensures(Gateway::close, (g2, how), closed),
        *old(g3) == *final(g2),
        call_ensures(Gateway::open, (g3,), opened),
        *old(g4) == *final(g3),
        name@ == "READY"@ || name@ == "RESUMED"@,
        call_ensures(Gateway::on_message, (g4, 0u8, None, Some(name), body), r4),
        *old(g5) == *final(g4),
        call_ensures(Gateway::on_message, (g5, 0u8, None, Some(again), other), r5),
    ensures
        asks_for(r4.send, v),
        r5.send is None,
{
    law_envelope(4, v@.json());
    lemma_voice_state_fields(v@);
}

/// A heartbeat that the server asked for has to be answered like any other.
pub proof fn law_asked_heartbeats_are_awaited(
    g1: &mut Gateway,
    number: Option<u64>,
    name: Option<&str>,
    body: Body,
    r1: GatewayStep,
    g2: &mut Gateway,
    r2: GatewayStep,
)
    requires
        old(g1)@.identified,
        call_ensures(Gateway::on_message, (g1, 1u8, number, name, body), r1),
        *old(g2) == *final(g1),
        call_ensures(Gateway::on_tick, (g2,), r2),
    ensures
        r2.end == Some(Ended::Lost),
        r2.send is None,
{
}

/// A message with another opcode, and an event without a name, lead to nothing.
pub proof fn law_other_messages_pass(
    gateway: &mut Gateway,
    op: u8,
    number: Option<u64>,
    name: Option<&str>,
    body: Body,
    r: GatewayStep,
)
    requires
        call_ensures(Gateway::on_message, (gateway, op, number, name, body), r),
        op != 0 || name is None,
        op != 1 && op != 7 && op != 9 && op != 10,
    ensures
        only_sends(r),
        r.send is None,
        r.heartbeat is None,
{
    assert(r@.events.len() == r.events@.len());
}

/// The greeting of a first connection says what the client calls itself.
pub proof fn law_first_connection_names_the_client(
    token: &str,
    os: &str,
    fresh: Gateway,
    g1: &mut Gateway,
    opened: (ConnState, String),
    g2: &mut Gateway,
    hello: Hello,
    r: GatewayStep,
)
    requires
        call_ensures(Gateway::new, (token, os), fresh),
        *old(g1) == fresh,
        call_ensures(Gateway::open, (g1,), opened),
        *old(g2) == *final(g1),
        call_ensures(Gateway::on_message, (g2, 10u8, None, None, Body::Hello(hello)), r),
    ensures
        r.send is Some,
        data_of(r.send->Some_0@).field_or_null("properties"@).text_field("browser"@) == Some(
            "discord-lite"@,
        ),
        data_of(r.send->Some_0@).field_or_null("properties"@).text_field("device"@) == Some(
            "discord-lite"@,
        ),
{
    let d = identify_json(token@, os@, "discord-lite"@, "discord-lite"@, false);
    law_envelope(2, d);
    lemma_identify_fields(token@, os@, "discord-lite"@, "discord-lite"@, false);
}

} // verus!

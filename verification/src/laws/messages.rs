//! The messages to the gateways, read as the other side reads them.

use vstd::prelude::*;

use crate::json::{Json, JsonView};
use crate::laws::reading::lemma_at;
use crate::model::{
    copy_option, envelope, envelope_view, identify_json, resume_json, IdentifyData,
    IdentifyProperties, ResumeData, VoiceStateUpdateData,
    VoiceStateView,
};
use crate::voice::messages::{
    heartbeat, heartbeat_view, identify, identify_view, select_protocol, select_view, speaking,
    speaking_view, transition_ready, transition_ready_view,
};
use crate::voice::VoiceConnInfo;

verus! {

/// The opcode of a message.
pub open spec fn op_of(message: JsonView) -> Option<u64> {
    message.u64_field("op"@)
}

/// The data of a message.
pub open spec fn data_of(message: JsonView) -> JsonView {
    message.field_or_null("d"@)
}

/// The string under a name in the data of a message.
pub open spec fn text_of_data(message: JsonView, name: Seq<char>) -> Option<Seq<char>> {
    data_of(message).text_field(name)
}

/// The integer under a name in the data of a message.
pub open spec fn number_of_data(message: JsonView, name: Seq<char>) -> Option<u64> {
    data_of(message).u64_field(name)
}

/// A message has the opcode and the data that it was made of.
pub proof fn law_envelope(op: u64, d: JsonView)
    ensures
        op_of(envelope_view(op, d)) == Some(op),
        data_of(envelope_view(op, d)) == d,
{
    reveal_strlit("op");
    reveal_strlit("d");
    assert("op"@.len() == 2 && "d"@.len() == 1);
    let v = envelope_view(op, d);
    let p = v->Object_0;
    assert(p[0].0 == "op"@ && p[0].1 == (JsonView::Number { exact: Some(op), whole: op }));
    assert(p[1] == ("d"@, d));
    lemma_at(v, 0);
    lemma_at(v, 1);
}

/// What opens a session with the main gateway says the token, what the client is, and that
/// nothing may come compressed.
pub proof fn law_identify_data(data: &IdentifyData, r: Json)
    requires
        call_ensures(IdentifyData::to_json, (data,), r),
    ensures
        r@.text_field("token"@) == Some(data.token@),
        r@.field("compress"@) == Some(JsonView::Bool(data.compress)),
        r@.field_or_null("properties"@).text_field("os"@) == Some(data.properties.os@),
        r@.field_or_null("properties"@).text_field("browser"@) == Some(data.properties.browser@),
        r@.field_or_null("properties"@).text_field("device"@) == Some(data.properties.device@),
{
    lemma_identify_fields(
        data.token@,
        data.properties.os@,
        data.properties.browser@,
        data.properties.device@,
        data.compress,
    );
}

/// What is in the data that opens a session.
pub proof fn lemma_identify_fields(
    token: Seq<char>,
    os: Seq<char>,
    browser: Seq<char>,
    device: Seq<char>,
    compress: bool,
)
    ensures
        ({
            let v = identify_json(token, os, browser, device, compress);
            &&& v.text_field("token"@) == Some(token)
            &&& v.field("compress"@) == Some(JsonView::Bool(compress))
            &&& v.field_or_null("properties"@).text_field("os"@) == Some(os)
            &&& v.field_or_null("properties"@).text_field("browser"@) == Some(browser)
            &&& v.field_or_null("properties"@).text_field("device"@) == Some(device)
        }),
{
    reveal_strlit("token");
    reveal_strlit("properties");
    reveal_strlit("compress");
    reveal_strlit("os");
    reveal_strlit("browser");
    reveal_strlit("device");
    assert("token"@.len() == 5 && "properties"@.len() == 10 && "compress"@.len() == 8);
    assert("os"@.len() == 2 && "browser"@.len() == 7 && "device"@.len() == 6);
    let v = identify_json(token, os, browser, device, compress);
    let p = v->Object_0;
    assert(p[0] == ("token"@, JsonView::Text(token)));
    assert(p[1].0 == "properties"@);
    assert(p[2] == ("compress"@, JsonView::Bool(compress)));
    lemma_at(v, 0);
    lemma_at(v, 1);
    lemma_at(v, 2);
    let w = p[1].1;
    let q = w->Object_0;
    assert(q[0] == ("os"@, JsonView::Text(os)));
    assert(q[1] == ("browser"@, JsonView::Text(browser)));
    assert(q[2] == ("device"@, JsonView::Text(device)));
    lemma_at(w, 0);
    lemma_at(w, 1);
    lemma_at(w, 2);
}

/// What takes a session up again says the token, the session and the last number.
pub proof fn law_resume_data(data: &ResumeData, r: Json)
    requires
        call_ensures(ResumeData::to_json, (data,), r),
    ensures
        r@.text_field("token"@) == Some(data.token@),
        r@.text_field("session_id"@) == Some(data.session_id@),
        r@.u64_field("seq"@) == Some(data.seq),
{
    lemma_resume_fields(data.token@, data.session_id@, data.seq);
}

/// What is in the data that takes a session up again.
pub proof fn lemma_resume_fields(token: Seq<char>, session_id: Seq<char>, seq: u64)
    ensures
        ({
            let v = resume_json(token, session_id, seq);
            &&& v.text_field("token"@) == Some(token)
            &&& v.text_field("session_id"@) == Some(session_id)
            &&& v.u64_field("seq"@) == Some(seq)
        }),
{
    reveal_strlit("token");
    reveal_strlit("session_id");
    reveal_strlit("seq");
    assert("token"@.len() == 5 && "session_id"@.len() == 10 && "seq"@.len() == 3);
    let v = resume_json(token, session_id, seq);
    let p = v->Object_0;
    assert(p[0] == ("token"@, JsonView::Text(token)));
    assert(p[1] == ("session_id"@, JsonView::Text(session_id)));
    assert(p[2].0 == "seq"@);
    lemma_at(v, 0);
    lemma_at(v, 1);
    lemma_at(v, 2);
}

/// The JSON value for a text that may be missing.
pub open spec fn text_or_null(text: Option<Seq<char>>) -> JsonView {
    match text {
        Some(t) => JsonView::Text(t),
        None => JsonView::Null,
    }
}

/// The wish for a voice channel says the server, the channel, or none to leave, and what is
/// off.
pub proof fn law_voice_state_data(data: &VoiceStateUpdateData, r: Json)
    requires
        call_ensures(VoiceStateUpdateData::to_json, (data,), r),
    ensures
        r@.text_field("guild_id"@) == Some(data.guild_id@),
        match data.channel_id {
            Some(id) => r@.text_field("channel_id"@) == Some(id@),
            None => r@.field("channel_id"@) == Some(JsonView::Null),
        },
        r@.field("self_mute"@) == Some(JsonView::Bool(data.self_mute)),
        r@.field("self_deaf"@) == Some(JsonView::Bool(data.self_deaf)),
{
    lemma_voice_state_fields(data@);
}

/// What is in the wish for a voice channel.
pub proof fn lemma_voice_state_fields(s: VoiceStateView)
    ensures
        s.json().text_field("guild_id"@) == Some(s.guild_id),
        s.json().field("channel_id"@) == Some(text_or_null(s.channel_id)),
        s.json().field("self_mute"@) == Some(JsonView::Bool(s.self_mute)),
        s.json().field("self_deaf"@) == Some(JsonView::Bool(s.self_deaf)),
{
    reveal_strlit("guild_id");
    reveal_strlit("channel_id");
    reveal_strlit("self_mute");
    reveal_strlit("self_deaf");
    assert("guild_id"@.len() == 8 && "channel_id"@.len() == 10);
    assert("self_mute"@.len() == 9 && "self_deaf"@.len() == 9);
    assert("self_mute"@[5] == 'm' && "self_deaf"@[5] == 'd');
    let v = s.json();
    let p = v->Object_0;
    assert(p[0] == ("guild_id"@, JsonView::Text(s.guild_id)));
    assert(p[1] == ("channel_id"@, text_or_null(s.channel_id)));
    assert(p[2] == ("self_mute"@, JsonView::Bool(s.self_mute)));
    assert(p[3] == ("self_deaf"@, JsonView::Bool(s.self_deaf)));
    lemma_at(v, 0);
    lemma_at(v, 1);
    lemma_at(v, 2);
    lemma_at(v, 3);
}

/// The first message to the voice gateway says the server, the user, the session and the
/// token, each under its own name, and the version of the encryption.
pub proof fn law_voice_identify(info: &VoiceConnInfo, r: Json)
    requires
        call_ensures(identify, (info,), r),
    ensures
        op_of(r@) == Some(0u64),
        text_of_data(r@, "server_id"@) == Some(info.guild_id@),
        text_of_data(r@, "user_id"@) == Some(info.user_id@),
        text_of_data(r@, "session_id"@) == Some(info.session_id@),
        text_of_data(r@, "token"@) == Some(info.token@),
        number_of_data(r@, "max_dave_protocol_version"@) == Some(1u64),
{
    lemma_voice_identify(*info);
}

/// The same, of the message itself.
pub proof fn lemma_voice_identify(info: VoiceConnInfo)
    ensures
        op_of(identify_view(info)) == Some(0u64),
        text_of_data(identify_view(info), "server_id"@) == Some(info.guild_id@),
        text_of_data(identify_view(info), "user_id"@) == Some(info.user_id@),
        text_of_data(identify_view(info), "session_id"@) == Some(info.session_id@),
        text_of_data(identify_view(info), "token"@) == Some(info.token@),
        number_of_data(identify_view(info), "max_dave_protocol_version"@) == Some(1u64),
{
    reveal_strlit("server_id");
    reveal_strlit("user_id");
    reveal_strlit("session_id");
    reveal_strlit("token");
    reveal_strlit("max_dave_protocol_version");
    assert("server_id"@.len() == 9 && "user_id"@.len() == 7 && "session_id"@.len() == 10);
    assert("token"@.len() == 5 && "max_dave_protocol_version"@.len() == 25);
    let d = identify_view(info)->Object_0[1].1;
    law_envelope(0, d);
    let p = d->Object_0;
    assert(p[0] == ("server_id"@, JsonView::Text(info.guild_id@)));
    assert(p[1] == ("user_id"@, JsonView::Text(info.user_id@)));
    assert(p[2] == ("session_id"@, JsonView::Text(info.session_id@)));
    assert(p[3] == ("token"@, JsonView::Text(info.token@)));
    assert(p[4].0 == "max_dave_protocol_version"@);
    lemma_at(d, 0);
    lemma_at(d, 1);
    lemma_at(d, 2);
    lemma_at(d, 3);
    lemma_at(d, 4);
}

/// A heartbeat to the voice gateway says the time and the last number that came in, or that
/// there was none.
pub proof fn law_voice_heartbeat(now_ms: u64, last_seq: Option<u64>, r: Json)
    requires
        call_ensures(heartbeat, (now_ms, last_seq), r),
    ensures
        op_of(r@) == Some(3u64),
        number_of_data(r@, "t"@) == Some(now_ms),
        number_of_data(r@, "seq_ack"@) == last_seq,
        last_seq is None ==> data_of(r@).field("seq_ack"@) == Some(JsonView::Null),
{
    lemma_voice_heartbeat(now_ms, last_seq);
}

/// The same, of the message itself.
pub proof fn lemma_voice_heartbeat(now_ms: u64, last_seq: Option<u64>)
    ensures
        op_of(heartbeat_view(now_ms, last_seq)) == Some(3u64),
        number_of_data(heartbeat_view(now_ms, last_seq), "t"@) == Some(now_ms),
        number_of_data(heartbeat_view(now_ms, last_seq), "seq_ack"@) == last_seq,
        last_seq is None ==> data_of(heartbeat_view(now_ms, last_seq)).field("seq_ack"@) == Some(JsonView::Null),
{
    reveal_strlit("t");
    reveal_strlit("seq_ack");
    assert("t"@.len() == 1 && "seq_ack"@.len() == 7);
    let d = heartbeat_view(now_ms, last_seq)->Object_0[1].1;
    law_envelope(3, d);
    let p = d->Object_0;
    assert(p[0].0 == "t"@ && p[1].0 == "seq_ack"@);
    lemma_at(d, 0);
    lemma_at(d, 1);
}

/// The choice of transport says that it is UDP, and the address, the port and the encryption.
pub proof fn law_select_protocol(address: &str, port: u16, mode: &str, r: Json)
    requires
        call_ensures(select_protocol, (address, port, mode), r),
    ensures
        op_of(r@) == Some(1u64),
        text_of_data(r@, "protocol"@) == Some("udp"@),
        data_of(r@).field_or_null("data"@).text_field("address"@) == Some(address@),
        data_of(r@).field_or_null("data"@).u64_field("port"@) == Some(port as u64),
        data_of(r@).field_or_null("data"@).text_field("mode"@) == Some(mode@),
{
    lemma_select_protocol(address@, port, mode@);
}

/// The same, of the message itself.
pub proof fn lemma_select_protocol(address: Seq<char>, port: u16, mode: Seq<char>)
    ensures
        op_of(select_view(address, port, mode)) == Some(1u64),
        text_of_data(select_view(address, port, mode), "protocol"@) == Some("udp"@),
        data_of(select_view(address, port, mode)).field_or_null("data"@).text_field("address"@) == Some(address),
        data_of(select_view(address, port, mode)).field_or_null("data"@).u64_field("port"@) == Some(port as u64),
        data_of(select_view(address, port, mode)).field_or_null("data"@).text_field("mode"@) == Some(mode),
{
    reveal_strlit("protocol");
    reveal_strlit("data");
    reveal_strlit("address");
    reveal_strlit("port");
    reveal_strlit("mode");
    assert("protocol"@.len() == 8 && "data"@.len() == 4 && "address"@.len() == 7);
    assert("port"@.len() == 4 && "mode"@.len() == 4 && "port"@[0] == 'p' && "mode"@[0] == 'm');
    let d = select_view(address, port, mode)->Object_0[1].1;
    law_envelope(1, d);
    let p = d->Object_0;
    assert(p[0] == ("protocol"@, JsonView::Text("udp"@)));
    assert(p[1].0 == "data"@);
    lemma_at(d, 0);
    lemma_at(d, 1);
    let e = p[1].1;
    let q = e->Object_0;
    assert(q[0] == ("address"@, JsonView::Text(address)));
    assert(q[1].0 == "port"@);
    assert(q[2] == ("mode"@, JsonView::Text(mode)));
    lemma_at(e, 0);
    lemma_at(e, 1);
    lemma_at(e, 2);
}

/// The announcement that the client will speak says its source.
pub proof fn law_speaking(ssrc: u32, r: Json)
    requires
        call_ensures(speaking, (ssrc,), r),
    ensures
        op_of(r@) == Some(5u64),
        number_of_data(r@, "speaking"@) == Some(1u64),
        number_of_data(r@, "delay"@) == Some(0u64),
        number_of_data(r@, "ssrc"@) == Some(ssrc as u64),
{
    lemma_speaking(ssrc);
}

/// The same, of the message itself.
pub proof fn lemma_speaking(ssrc: u32)
    ensures
        op_of(speaking_view(ssrc)) == Some(5u64),
        number_of_data(speaking_view(ssrc), "speaking"@) == Some(1u64),
        number_of_data(speaking_view(ssrc), "delay"@) == Some(0u64),
        number_of_data(speaking_view(ssrc), "ssrc"@) == Some(ssrc as u64),
{
    reveal_strlit("speaking");
    reveal_strlit("delay");
    reveal_strlit("ssrc");
    assert("speaking"@.len() == 8 && "delay"@.len() == 5 && "ssrc"@.len() == 4);
    let d = speaking_view(ssrc)->Object_0[1].1;
    law_envelope(5, d);
    let p = d->Object_0;
    assert(p[0].0 == "speaking"@ && p[1].0 == "delay"@ && p[2].0 == "ssrc"@);
    lemma_at(d, 0);
    lemma_at(d, 1);
    lemma_at(d, 2);
}

/// The message confirms the transition with the number.
pub open spec fn confirms(message: JsonView, id: int) -> bool {
    &&& op_of(message) == Some(23u64)
    &&& number_of_data(message, "transition_id"@) is Some
    &&& number_of_data(message, "transition_id"@)->Some_0 == id
}

/// The confirmation of a transition says its number.
pub proof fn law_transition_ready(id: u16, r: Json)
    requires
        call_ensures(transition_ready, (id,), r),
    ensures
        confirms(r@, id as int),
{
    lemma_confirms(id);
}

/// What is in the confirmation of a transition.
pub proof fn lemma_confirms(id: u16)
    ensures
        confirms(transition_ready_view(id), id as int),
{
    let v = transition_ready_view(id);
    let d = v->Object_0[1].1;
    law_envelope(23, d);
    assert(d->Object_0[0].0 == "transition_id"@);
    lemma_at(d, 0);
}

/// A message is its opcode and its data.
pub proof fn law_messages(op: u64, d: Json, r: Json)
    requires
        call_ensures(envelope, (op, d), r),
    ensures
        op_of(r@) == Some(op),
        data_of(r@) == d@,
{
    law_envelope(op, d@);
}

/// What the client calls itself, on whatever system it runs.
pub proof fn law_what_the_client_is(os: &str, r: IdentifyProperties)
    requires
        call_ensures(IdentifyProperties::on_os, (os,), r),
    ensures
        r.os@ == os@,
        r.browser@ == "discord-lite"@,
        r.device@ == "discord-lite"@,
{
}

/// A copy of a text that may be missing is the same text, or none.
pub proof fn law_copies(s: Option<String>, r: Option<String>)
    requires
        call_ensures(copy_option, (&s,), r),
    ensures
        r is Some <==> s is Some,
        s is Some ==> r->Some_0@ == s->Some_0@,
{
}

} // verus!

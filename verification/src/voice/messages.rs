//! The messages that go to the voice gateway.

use vstd::prelude::*;

use crate::dave::op::READY_FOR_TRANSITION;
use crate::dave::PROTOCOL_VERSION;
use crate::json::{Json, JsonView};
use crate::model::{envelope, envelope_view};
use crate::voice::VoiceConnInfo;

verus! {

/// The first message: who connects, to which server, with which session, and that the
/// client speaks DAVE.
pub open spec fn identify_view(info: VoiceConnInfo) -> JsonView {
    envelope_view(
        0,
        JsonView::empty_object()
            .with("server_id"@, JsonView::Text(info.guild_id@))
            .with("user_id"@, JsonView::Text(info.user_id@))
            .with("session_id"@, JsonView::Text(info.session_id@))
            .with("token"@, JsonView::Text(info.token@))
            .with(
                "max_dave_protocol_version"@,
                JsonView::whole_number(PROTOCOL_VERSION as u64),
            ),
    )
}

/// A heartbeat: the time, and the number of the last message that had one.
pub open spec fn heartbeat_view(now_ms: u64, last_seq: Option<u64>) -> JsonView {
    envelope_view(
        3,
        JsonView::empty_object()
            .with("t"@, JsonView::whole_number(now_ms))
            .with("seq_ack"@, JsonView::number_or_null(last_seq)),
    )
}

/// The choice of transport: UDP, from an address, with an encryption.
pub open spec fn select_view(address: Seq<char>, port: u16, mode: Seq<char>) -> JsonView {
    let data = JsonView::empty_object()
        .with("address"@, JsonView::Text(address))
        .with("port"@, JsonView::whole_number(port as u64))
        .with("mode"@, JsonView::Text(mode));
    envelope_view(
        1,
        JsonView::empty_object().with("protocol"@, JsonView::Text("udp"@)).with("data"@, data),
    )
}

/// The announcement that this client will speak.
pub open spec fn speaking_view(ssrc: u32) -> JsonView {
    envelope_view(
        5,
        JsonView::empty_object()
            .with("speaking"@, JsonView::whole_number(1))
            .with("delay"@, JsonView::whole_number(0))
            .with("ssrc"@, JsonView::whole_number(ssrc as u64)),
    )
}

/// The confirmation of a transition.
pub open spec fn transition_ready_view(transition_id: u16) -> JsonView {
    envelope_view(
        READY_FOR_TRANSITION as u64,
        JsonView::empty_object().with(
            "transition_id"@,
            JsonView::whole_number(transition_id as u64),
        ),
    )
}

/// The first message of a session.
pub fn identify(info: &VoiceConnInfo) -> (r: Json)
    ensures
        r@ == identify_view(*info),
{
    let d = Json::object()
        .with("server_id", Json::from_text(info.guild_id.as_str()))
        .with("user_id", Json::from_text(info.user_id.as_str()))
        .with("session_id", Json::from_text(info.session_id.as_str()))
        .with("token", Json::from_text(info.token.as_str()))
        .with("max_dave_protocol_version", Json::from_u64(PROTOCOL_VERSION as u64));
    envelope(0, d)
}

/// A heartbeat.
pub fn heartbeat(now_ms: u64, last_seq: Option<u64>) -> (r: Json)
    ensures
        r@ == heartbeat_view(now_ms, last_seq),
{
    let d = Json::object()
        .with("t", Json::from_u64(now_ms))
        .with("seq_ack", Json::from_option(last_seq));
    envelope(3, d)
}

/// The choice of transport.
pub fn select_protocol(address: &str, port: u16, mode: &str) -> (r: Json)
    ensures
        r@ == select_view(address@, port, mode@),
{
    let data = Json::object()
        .with("address", Json::from_text(address))
        .with("port", Json::from_u64(port as u64))
        .with("mode", Json::from_text(mode));
    let d = Json::object().with("protocol", Json::from_text("udp")).with("data", data);
    envelope(1, d)
}

/// The announcement that this client will speak.
pub fn speaking(ssrc: u32) -> (r: Json)
    ensures
        r@ == speaking_view(ssrc),
{
    let d = Json::object()
        .with("speaking", Json::from_u64(1))
        .with("delay", Json::from_u64(0))
        .with("ssrc", Json::from_u64(ssrc as u64));
    envelope(5, d)
}

/// The confirmation of a transition.
pub fn transition_ready(transition_id: u16) -> (r: Json)
    ensures
        r@ == transition_ready_view(transition_id),
{
    let d = Json::object().with("transition_id", Json::from_u64(transition_id as u64));
    envelope(READY_FOR_TRANSITION as u64, d)
}

} // verus!

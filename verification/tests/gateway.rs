//! The session with the main gateway, the requests and what becomes of the orders.

use discord_lite::gateway::{
    body_kind, build_resume, jittered_wait, Body, BodyKind, Ended, Gateway, GatewayCommand, GatewayStep,
};
use discord_lite::json::Json;
use discord_lite::model::{
    opcode, Hello, IdentifyProperties, Message, Ready, User, VoiceStateUpdateData,
};
use discord_lite::net::{NetAction, VoiceLink};
use discord_lite::rest::{
    chronological, friendly_auth_error, http_error, judge, retry_wait, Method, RestClient,
    Verdict,
};
use discord_lite::state::{AppEvent, Command, ConnState, VoiceControl, VoiceSignal};

fn show(j: &Json) -> String {
    match j {
        Json::Null => "null".to_string(),
        Json::Bool(b) => b.to_string(),
        Json::Number { exact, whole } => exact.unwrap_or(*whole).to_string(),
        Json::Text(s) => format!("{:?}", s),
        Json::List(v) => format!("[{}]", v.iter().map(show).collect::<Vec<_>>().join(",")),
        Json::Object(v) => format!(
            "{{{}}}",
            v.iter().map(|(k, x)| format!("{:?}:{}", k, show(x))).collect::<Vec<_>>().join(",")
        ),
    }
}

fn sent(step: &GatewayStep) -> Option<String> {
    step.send.as_ref().map(show)
}

fn user(id: &str) -> User {
    User {
        id: id.to_string(),
        username: "ana".to_string(),
        global_name: None,
        discriminator: None,
        bot: false,
    }
}

fn message(id: &str) -> Message {
    Message {
        id: id.to_string(),
        channel_id: "c".to_string(),
        author: None,
        content: "x".to_string(),
        timestamp: None,
        guild_id: None,
    }
}

fn voice(channel: Option<&str>) -> VoiceStateUpdateData {
    VoiceStateUpdateData {
        guild_id: "g".to_string(),
        channel_id: channel.map(|s| s.to_string()),
        self_mute: false,
        self_deaf: false,
    }
}

fn hello() -> Body {
    Body::Hello(Hello { heartbeat_interval: 41250 })
}

fn ready(url: Option<&str>) -> Body {
    Body::Ready(Ready {
        session_id: "sess".to_string(),
        resume_gateway_url: url.map(|s| s.to_string()),
        user: user("1"),
    })
}

fn object(pairs: Vec<(&str, &str)>) -> Json {
    Json::Object(
        pairs.into_iter().map(|(k, v)| (k.to_string(), Json::Text(v.to_string()))).collect(),
    )
}

const IDENTIFY: &str = "{\"op\":2,\"d\":{\"token\":\"tok\",\"properties\":{\"os\":\"linux\",\"browser\":\"discord-lite\",\"device\":\"discord-lite\"},\"compress\":false}}";

#[test]
fn properties() {
    let p = IdentifyProperties::on_os("windows");
    assert_eq!((p.os.as_str(), p.browser.as_str(), p.device.as_str()), ("windows", "discord-lite", "discord-lite"));
}

#[test]
fn first_connection_identifies() {
    let mut g = Gateway::new("tok", "linux");
    let (state, url) = g.open();
    assert_eq!(state, ConnState::Connecting);
    assert_eq!(url, "wss://gateway.discord.gg/?v=10&encoding=json");
    // Nothing is sent before the greeting.
    let step = g.on_tick();
    assert!(step.send.is_none() && step.end.is_none());
    let step = g.on_message(opcode::HELLO, None, None, hello());
    assert_eq!(sent(&step).unwrap(), IDENTIFY);
    assert_eq!(step.heartbeat, Some(41250));
    assert_eq!(sent(&g.on_tick()).unwrap(), "{\"op\":1,\"d\":null}");
    // Not answered: the connection is dead.
    assert_eq!(g.on_tick().end, Some(Ended::Lost));
    g.on_message(opcode::HEARTBEAT_ACK, None, None, Body::Raw(Json::Null));
    assert_eq!(g.on_tick().end, None);
}

#[test]
fn greeting_that_cannot_be_read_fails() {
    let mut g = Gateway::new("tok", "linux");
    g.open();
    let step = g.on_message(opcode::HELLO, None, None, Body::Unreadable);
    assert_eq!(step.end, Some(Ended::Failed));
    assert!(step.send.is_none());
}

#[test]
fn server_may_ask_for_a_heartbeat() {
    let mut g = Gateway::new("tok", "linux");
    g.open();
    g.on_message(opcode::HELLO, None, None, hello());
    let step = g.on_message(opcode::HEARTBEAT, Some(7), None, Body::Raw(Json::Null));
    assert_eq!(sent(&step).unwrap(), "{\"op\":1,\"d\":7}");
    assert_eq!(g.on_tick().end, Some(Ended::Lost));
}

#[test]
fn lost_connection_is_resumed() {
    let mut g = Gateway::new("tok", "linux");
    g.open();
    g.on_message(opcode::HELLO, None, None, hello());
    let step = g.on_message(opcode::DISPATCH, Some(12), Some("READY"), ready(Some("wss://r//")));
    assert!(matches!(
        step.events[..],
        [AppEvent::Connection(ConnState::Connected), AppEvent::Ready(_)]
    ));
    let step = g.on_message(opcode::RECONNECT, None, None, Body::Raw(Json::Null));
    assert_eq!(step.end, Some(Ended::Lost));
    g.close(Ended::Lost);
    assert_eq!(g.backoff(), 1);
    let (state, url) = g.open();
    assert_eq!(state, ConnState::Reconnecting);
    assert_eq!(url, "wss://r/?v=10&encoding=json");
    let step = g.on_message(opcode::HELLO, None, None, hello());
    assert_eq!(
        sent(&step).unwrap(),
        "{\"op\":6,\"d\":{\"token\":\"tok\",\"session_id\":\"sess\",\"seq\":12}}"
    );
    let step = g.on_message(opcode::DISPATCH, Some(13), Some("RESUMED"), Body::Raw(Json::Null));
    assert!(matches!(step.events[..], [AppEvent::Connection(ConnState::Connected)]));
}

#[test]
fn session_without_an_address_is_not_resumed() {
    let mut g = Gateway::new("tok", "linux");
    g.open();
    g.on_message(opcode::HELLO, None, None, hello());
    g.on_message(opcode::DISPATCH, Some(12), Some("READY"), ready(None));
    g.close(Ended::Lost);
    let (_, url) = g.open();
    assert_eq!(url, "wss://gateway.discord.gg/?v=10&encoding=json");
    assert_eq!(sent(&g.on_message(opcode::HELLO, None, None, hello())).unwrap(), IDENTIFY);
}

#[test]
fn invalid_session_starts_over() {
    let mut g = Gateway::new("tok", "linux");
    g.open();
    g.on_message(opcode::HELLO, None, None, hello());
    g.on_message(opcode::DISPATCH, Some(12), Some("READY"), ready(Some("wss://r")));
    let step = g.on_message(opcode::INVALID_SESSION, None, None, Body::Raw(Json::Null));
    assert_eq!(step.end, Some(Ended::Invalid));
    g.close(Ended::Invalid);
    let (_, url) = g.open();
    assert_eq!(url, "wss://gateway.discord.gg/?v=10&encoding=json");
    assert_eq!(sent(&g.on_message(opcode::HELLO, None, None, hello())).unwrap(), IDENTIFY);
}

#[test]
fn waits_double_up_to_thirty() {
    let mut g = Gateway::new("tok", "linux");
    let mut waits = Vec::new();
    for n in 0..7 {
        assert_eq!(matches!(g.open().0, ConnState::Connecting), n == 0);
        g.close(Ended::Failed);
        waits.push(g.backoff());
    }
    assert_eq!(waits, vec![1, 2, 4, 8, 16, 30, 30]);
    g.close(Ended::Lost);
    assert_eq!(g.backoff(), 1);
    assert_eq!(g.backoff(), 2);
}

const JOIN: &str =
    "{\"op\":4,\"d\":{\"guild_id\":\"g\",\"channel_id\":\"v\",\"self_mute\":false,\"self_deaf\":false}}";

#[test]
fn voice_is_asked_for_once_ready() {
    let mut g = Gateway::new("tok", "linux");
    g.open();
    g.on_message(opcode::HELLO, None, None, hello());
    let step = g.on_command(GatewayCommand::VoiceState(voice(Some("v"))));
    assert!(step.send.is_none());
    let step = g.on_message(opcode::DISPATCH, Some(1), Some("READY"), ready(None));
    assert_eq!(sent(&step).unwrap(), JOIN);
    // Only the first time.
    let step = g.on_message(opcode::DISPATCH, Some(2), Some("READY"), ready(None));
    assert!(step.send.is_none());
    let step = g.on_command(GatewayCommand::VoiceState(voice(None)));
    assert_eq!(
        sent(&step).unwrap(),
        "{\"op\":4,\"d\":{\"guild_id\":\"g\",\"channel_id\":null,\"self_mute\":false,\"self_deaf\":false}}"
    );
    // After a break the last wish is sent again, even where READY cannot be read.
    g.on_command(GatewayCommand::VoiceState(voice(Some("v"))));
    g.close(Ended::Failed);
    g.open();
    let step = g.on_message(opcode::DISPATCH, None, Some("READY"), Body::Unreadable);
    assert_eq!(sent(&step).unwrap(), JOIN);
    assert!(step.events.is_empty());
}

#[test]
fn events_reach_the_window_and_voice() {
    let mut g = Gateway::new("tok", "linux");
    g.open();
    let step = g.on_message(
        opcode::DISPATCH,
        Some(1),
        Some("MESSAGE_CREATE"),
        Body::Message(message("m1")),
    );
    assert!(matches!(&step.events[..], [AppEvent::NewMessage(m)] if m.id == "m1"));
    let step = g.on_message(opcode::DISPATCH, None, Some("MESSAGE_CREATE"), Body::Unreadable);
    assert!(step.events.is_empty());
    let d = object(vec![("session_id", "vs"), ("user_id", "1"), ("channel_id", "v")]);
    let step = g.on_message(opcode::DISPATCH, None, Some("VOICE_STATE_UPDATE"), Body::Raw(d));
    match step.signal {
        Some(VoiceSignal::State { user_id, guild_id, channel_id, session_id }) => {
            assert_eq!(user_id, "1");
            assert_eq!(guild_id, None);
            assert_eq!(channel_id, Some("v".to_string()));
            assert_eq!(session_id, "vs");
        }
        _ => panic!("no signal"),
    }
    let d = object(vec![("guild_id", "g")]);
    let step = g.on_message(opcode::DISPATCH, None, Some("VOICE_STATE_UPDATE"), Body::Raw(d));
    assert!(step.signal.is_none());
    let d = object(vec![("token", "vt"), ("endpoint", "e")]);
    let step = g.on_message(opcode::DISPATCH, None, Some("VOICE_SERVER_UPDATE"), Body::Raw(d));
    match step.signal {
        Some(VoiceSignal::Server { guild_id, endpoint, token }) => {
            assert_eq!(guild_id, "");
            assert_eq!(endpoint, Some("e".to_string()));
            assert_eq!(token, "vt");
        }
        _ => panic!("no signal"),
    }
    let step = g.on_message(opcode::DISPATCH, None, Some("TYPING_START"), Body::Raw(Json::Null));
    assert!(step.events.is_empty() && step.signal.is_none());
    let step = g.on_message(opcode::DISPATCH, None, None, Body::Raw(Json::Null));
    assert!(step.events.is_empty());
    let step = g.on_message(99, None, None, Body::Raw(Json::Null));
    assert!(step.events.is_empty() && step.end.is_none());
}

#[test]
fn bodies_are_read_by_opcode_and_name() {
    assert_eq!(body_kind(opcode::HELLO, None), BodyKind::Hello);
    assert_eq!(body_kind(opcode::DISPATCH, Some("READY")), BodyKind::Ready);
    assert_eq!(body_kind(opcode::DISPATCH, Some("MESSAGE_CREATE")), BodyKind::Message);
    assert_eq!(body_kind(opcode::DISPATCH, Some("RESUMED")), BodyKind::Raw);
    assert_eq!(body_kind(opcode::HEARTBEAT, Some("READY")), BodyKind::Raw);
    assert_eq!(body_kind(opcode::DISPATCH, None), BodyKind::Raw);
}

#[test]
fn resume_needs_all_parts() {
    let s = || Some("s".to_string());
    assert!(build_resume(None, s(), Some(1)).is_none());
    assert!(build_resume(s(), None, Some(1)).is_none());
    assert!(build_resume(s(), s(), None).is_none());
    let r = build_resume(s(), Some("u".to_string()), Some(1)).unwrap();
    assert_eq!((r.session_id.as_str(), r.url.as_str(), r.seq), ("s", "u", 1));
}

fn join() -> Command {
    Command::JoinVoice { guild_id: "g".to_string(), channel_id: "v".to_string() }
}

fn state_signal(user: &str) -> VoiceSignal {
    VoiceSignal::State {
        user_id: user.to_string(),
        guild_id: None,
        channel_id: None,
        session_id: "vs".to_string(),
    }
}

fn server_signal(guild: &str, endpoint: Option<&str>) -> VoiceSignal {
    VoiceSignal::Server {
        guild_id: guild.to_string(),
        endpoint: endpoint.map(|s| s.to_string()),
        token: "vt".to_string(),
    }
}

#[test]
fn voice_starts_when_everything_is_there() {
    for state_first in [true, false] {
        let mut link = VoiceLink::new("me");
        assert!(matches!(link.on_command(join()), NetAction::Gateway(v) if v.channel_id == Some("v".to_string())));
        let (a, b) = if state_first {
            (state_signal("me"), server_signal("g", Some("e")))
        } else {
            (server_signal("g", Some("e")), state_signal("me"))
        };
        assert!(link.on_signal(a).is_none());
        let info = link.on_signal(b).unwrap();
        assert_eq!(info.guild_id, "g");
        assert_eq!(info.channel_id, "v");
        assert_eq!(info.user_id, "me");
        assert_eq!(info.session_id, "vs");
        assert_eq!(info.endpoint, "e");
        assert_eq!(info.token, "vt");
        // It starts once.
        assert!(link.on_signal(state_signal("me")).is_none());
        assert!(link.on_signal(server_signal("g", Some("e"))).is_none());
    }
}

#[test]
fn voice_does_not_start_for_others() {
    let mut link = VoiceLink::new("me");
    link.on_command(join());
    assert!(link.on_signal(server_signal("g", Some("e"))).is_none());
    assert!(link.on_signal(state_signal("you")).is_none());
    assert!(link.on_signal(server_signal("other", Some("e"))).is_none());
    assert!(link.on_signal(state_signal("me")).is_none());
    assert!(link.on_signal(server_signal("g", None)).is_none());
    assert!(link.on_signal(server_signal("g", Some(""))).is_none());
    link.on_command(Command::LeaveVoice { guild_id: "g".to_string() });
    assert!(link.on_signal(server_signal("g", Some("e"))).is_none());
}

#[test]
fn orders_become_actions() {
    let mut link = VoiceLink::new("me");
    let c = || "c".to_string();
    assert!(matches!(
        link.on_command(Command::LoadHistory { channel_id: c() }),
        NetAction::LoadHistory { limit: 50, .. }
    ));
    assert!(matches!(
        link.on_command(Command::ResolveChannel { channel_id: c() }),
        NetAction::ResolveChannel { channel_id } if channel_id == "c"
    ));
    assert!(matches!(link.on_command(Command::LoadDms), NetAction::LoadDms));
    assert!(matches!(
        link.on_command(Command::SendMessage { channel_id: c(), content: "x".to_string() }),
        NetAction::SendMessage { content, .. } if content == "x"
    ));
    assert!(matches!(
        link.on_command(Command::LeaveVoice { guild_id: "g".to_string() }),
        NetAction::StopVoice(v) if v.channel_id.is_none() && v.guild_id == "g"
    ));
    assert!(matches!(
        link.on_command(Command::VoiceMute(true)),
        NetAction::Control(VoiceControl::Mute(true))
    ));
    assert!(matches!(
        link.on_command(Command::VoiceDeaf(false)),
        NetAction::Control(VoiceControl::Deaf(false))
    ));
    assert!(matches!(link.on_command(Command::Logout), NetAction::Logout));
}

#[test]
fn requests() {
    let c = RestClient::new("tok");
    let r = c.validate_token();
    assert_eq!(r.method, Method::Get);
    assert_eq!(r.url, "https://discord.com/api/v10/users/@me");
    assert_eq!(r.authorization, "tok");
    assert_eq!(c.list_guilds().url, "https://discord.com/api/v10/users/@me/guilds");
    assert_eq!(
        c.list_guild_channels("7").url,
        "https://discord.com/api/v10/guilds/7/channels"
    );
    assert_eq!(c.list_dms().url, "https://discord.com/api/v10/users/@me/channels");
    assert_eq!(c.get_channel("8").url, "https://discord.com/api/v10/channels/8");
    let r = c.get_channel_messages("8", 50);
    assert_eq!(r.url, "https://discord.com/api/v10/channels/8/messages");
    assert_eq!(r.limit, Some(50));
    assert_eq!(c.get_channel_messages("8", 0).limit, Some(1));
    assert_eq!(c.get_channel_messages("8", 200).limit, Some(100));
    let r = c.create_message("8", "hola");
    assert_eq!(r.method, Method::Post);
    assert_eq!(show(&r.body.unwrap()), "{\"content\":\"hola\"}");
    let r = c.open_dm("9");
    assert_eq!(r.url, "https://discord.com/api/v10/users/@me/channels");
    assert_eq!(show(&r.body.unwrap()), "{\"recipient_id\":\"9\"}");
}

#[test]
fn answers_are_judged() {
    assert_eq!(judge(200, 0), Verdict::Accept);
    assert_eq!(judge(299, 9), Verdict::Accept);
    assert_eq!(judge(429, 0), Verdict::Retry);
    assert_eq!(judge(429, 3), Verdict::Retry);
    assert_eq!(judge(429, 4), Verdict::Fail);
    assert_eq!(judge(404, 0), Verdict::Fail);
    assert_eq!(judge(199, 0), Verdict::Fail);
}

#[test]
fn failures_are_explained() {
    let long = "ñ".repeat(400);
    let text = http_error("404 Not Found", &long);
    assert_eq!(text, format!("HTTP 404 Not Found: {}", "ñ".repeat(300)));
    assert_eq!(http_error("500", "x"), "HTTP 500: x");
    assert_eq!(friendly_auth_error("HTTP 401 Unauthorized: x"), "Token inválido o expirado.");
    assert_eq!(friendly_auth_error("timeout"), "Error de red/API: timeout");
}

#[test]
fn history_is_turned_round() {
    let list = chronological(vec![message("3"), message("2"), message("1")]);
    let ids: Vec<&str> = list.iter().map(|m| m.id.as_str()).collect();
    assert_eq!(ids, vec!["1", "2", "3"]);
}

#[test]
fn waits_vary_and_are_bounded() {
    assert_eq!(jittered_wait(1, 0), 500);
    assert_eq!(jittered_wait(1, 999), 1499);
    assert_eq!(jittered_wait(16, 500), 16000);
    assert_eq!(jittered_wait(30, 500), 30000);
    assert_eq!(jittered_wait(30, 999), 30000);
}

#[test]
fn waits_come_from_the_header_or_the_body() {
    assert_eq!(retry_wait(Some(1600), Some(900)), 1600);
    assert_eq!(retry_wait(None, Some(900)), 900);
    assert_eq!(retry_wait(Some(0), None), 0);
    assert_eq!(retry_wait(None, None), 2000);
}

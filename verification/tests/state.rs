//! The state behind the window, the preferences, the log, the token and small texts.

use discord_lite::applog;
use discord_lite::auth::{
    delete_token, load_token, redact, save_token, Deletion, TokenStore,
};
use discord_lite::bytes::{push_be64, push_le64, read_be16, read_be32};
use discord_lite::config::{Config, NoiseMode, VoiceSettings};
use discord_lite::json::Json;
use discord_lite::model::{Channel, Message, User};
use discord_lite::state::{AppEvent, AppState, ConnState};
use discord_lite::text::{
    contains_text, decimal_text, first_chars, parse_u64, same_text, to_hex, trim_text,
};
use discord_lite::textmap::TextMap;

fn user(name: &str, global: Option<&str>) -> User {
    User {
        id: "1".to_string(),
        username: name.to_string(),
        global_name: global.map(|s| s.to_string()),
        discriminator: None,
        bot: false,
    }
}

fn message(channel: &str, id: &str) -> Message {
    Message {
        id: id.to_string(),
        channel_id: channel.to_string(),
        author: Some(user("ana", Some("Ana"))),
        content: "hola".to_string(),
        timestamp: None,
        guild_id: None,
    }
}

fn channel(id: &str, kind: u8, name: Option<&str>) -> Channel {
    Channel {
        id: id.to_string(),
        kind,
        name: name.map(|s| s.to_string()),
        guild_id: None,
        recipients: Vec::new(),
        position: None,
    }
}

fn ids(s: &AppState, channel: &str) -> Vec<String> {
    s.channel_messages(channel).iter().map(|m| m.id.clone()).collect()
}

#[test]
fn names_and_labels() {
    assert_eq!(user("ana", Some("Ana")).display_name(), "Ana");
    assert_eq!(user("ana", Some("")).display_name(), "ana");
    assert_eq!(user("ana", None).display_name(), "ana");
    assert_eq!(channel("1", 0, Some("general")).label(), "# general");
    assert_eq!(channel("1", 2, Some("sala")).label(), "🔊 sala");
    assert_eq!(channel("1", 13, Some("sala")).label(), "🔊 sala");
    assert_eq!(channel("1", 0, Some("")).label(), "canal 1");
    let mut dm = channel("9", 3, None);
    dm.recipients = vec![user("ana", None), user("b", Some("Beto"))];
    assert_eq!(dm.label(), "@ ana, Beto");
    assert!(dm.is_dm() && !dm.is_text() && !dm.is_voice());
    assert!(channel("1", 5, None).is_text());
    let mut m = message("c", "1");
    assert_eq!(m.author_name(), "Ana");
    m.author = None;
    assert_eq!(m.author_name(), "desconocido");
}

#[test]
fn connection_labels() {
    assert_eq!(ConnState::Connecting.label(), "conectando…");
    assert_eq!(ConnState::Connected.label(), "conectado");
    assert_eq!(ConnState::Reconnecting.label(), "reconectando…");
    assert_eq!(ConnState::Offline.label(), "sin conexión");
}

#[test]
fn channels_keep_their_last_messages() {
    let mut s = AppState::new(3);
    assert_eq!(s.history_limit, 10);
    for i in 0..12 {
        s.apply(AppEvent::NewMessage(message("c", &i.to_string())));
    }
    assert_eq!(ids(&s, "c"), (2..12).map(|i| i.to_string()).collect::<Vec<_>>());
    // An echo changes nothing.
    s.apply(AppEvent::Sent(message("c", "11")));
    assert_eq!(ids(&s, "c").len(), 10);
    assert!(ids(&s, "d").is_empty());
    s.apply(AppEvent::Sent(message("d", "11")));
    assert_eq!(ids(&s, "d"), vec!["11"]);
    assert_eq!(ids(&s, "c").len(), 10);
}

#[test]
fn history_replaces_what_was_kept() {
    let mut s = AppState::new(10);
    s.apply(AppEvent::NewMessage(message("c", "old")));
    let messages = (0..15).map(|i| message("c", &i.to_string())).collect();
    s.apply(AppEvent::History { channel_id: "c".to_string(), messages });
    assert_eq!(ids(&s, "c"), (5..15).map(|i| i.to_string()).collect::<Vec<_>>());
    s.apply(AppEvent::History { channel_id: "c".to_string(), messages: Vec::new() });
    assert!(ids(&s, "c").is_empty());
}

#[test]
fn other_events() {
    let mut s = AppState::new(10);
    s.apply(AppEvent::Ready(user("ana", None)));
    assert_eq!(s.me.as_ref().unwrap().username, "ana");
    s.apply(AppEvent::Connection(ConnState::Connected));
    assert_eq!(s.conn, ConnState::Connected);
    s.apply(AppEvent::Channels(vec![channel("1", 0, None)]));
    assert_eq!(s.channels.len(), 1);
    s.apply(AppEvent::ChannelInfo(channel("2", 0, Some("x"))));
    assert_eq!(s.channels.len(), 2);
    assert_eq!(s.channel_names.get("2").map(|n| n.as_str()), Some("# x"));
    s.apply(AppEvent::Dms(vec![channel("3", 1, Some("y")), channel("2", 1, Some("z"))]));
    assert_eq!(s.dms.len(), 2);
    assert_eq!(s.channel_names.get("3").map(|n| n.as_str()), Some("# y"));
    assert_eq!(s.channel_names.get("2").map(|n| n.as_str()), Some("# z"));
    s.apply(AppEvent::Error("e".to_string()));
    assert_eq!(s.last_error.as_deref(), Some("e"));
    s.apply(AppEvent::VoiceUpdate { connected: true, text: "voz".to_string() });
    assert!(s.voice_connected);
    assert_eq!(s.voice_status.as_deref(), Some("voz"));
}

#[test]
fn text_maps() {
    let mut m: TextMap<u32> = TextMap::new();
    m.insert("a".to_string(), 1);
    m.insert("b".to_string(), 2);
    m.insert("a".to_string(), 3);
    assert_eq!(m.get("a"), Some(&3));
    assert_eq!(m.get("b"), Some(&2));
    assert_eq!(m.get("c"), None);
    assert_eq!(m.remove("a"), Some(3));
    assert_eq!(m.get("a"), None);
    assert_eq!(m.remove("a"), None);
}

#[test]
fn following() {
    let mut c = Config::initial();
    assert_eq!(c.history_limit, 100);
    c.follow("a".to_string());
    c.follow("b".to_string());
    c.follow("a".to_string());
    assert_eq!(c.followed_channels, vec!["a", "b"]);
    c.last_channel = Some("a".to_string());
    c.unfollow("b");
    assert_eq!(c.last_channel.as_deref(), Some("a"));
    c.unfollow("a");
    assert!(c.followed_channels.is_empty());
    assert_eq!(c.last_channel, None);
    c.unfollow("a");
    assert!(c.followed_channels.is_empty());
}

#[test]
fn defaults() {
    let v = VoiceSettings::default();
    assert_eq!((v.input_volume, v.output_volume, v.sensitivity_db), (100, 100, -60));
    assert!(v.echo_suppression && v.auto_sensitivity && !v.auto_gain && !v.aec);
    assert_eq!(v.noise_mode, NoiseMode::VoiceIsolation);
    for n in 0..3u8 {
        assert_eq!(NoiseMode::from_u8(n).as_u8(), n);
    }
    assert_eq!(NoiseMode::from_u8(200), NoiseMode::VoiceIsolation);
}

#[test]
fn tokens_are_redacted() {
    assert_eq!(redact("12345678"), "***");
    assert_eq!(redact(""), "***");
    assert_eq!(redact("123456789"), "1234…(+5 car. ocultos)");
    assert_eq!(redact("1234aaaaaaaa"), redact("1234bbbbbbbb"));
    assert_ne!(redact("1234aaaaaaaa"), redact("1235aaaaaaaa"));
    assert_eq!(redact("ñandúñandú"), "ñand…(+6 car. ocultos)");
}

#[test]
fn tokens_come_from_the_keychain_or_the_file() {
    assert_eq!(load_token(Some(" k ".to_string()), Some("f")), Some(" k ".to_string()));
    assert_eq!(load_token(None, Some(" f\n")), Some("f".to_string()));
    assert_eq!(load_token(None, Some(" \t\n")), None);
    assert_eq!(load_token(None, None), None);
    assert_eq!(save_token(true), TokenStore::Keychain);
    assert_eq!(save_token(false), TokenStore::File);
}

#[test]
fn tokens_are_deleted_in_both_places() {
    assert_eq!(delete_token(Deletion::Deleted, Deletion::Deleted), Ok(()));
    assert_eq!(delete_token(Deletion::Absent, Deletion::Absent), Ok(()));
    assert_eq!(delete_token(Deletion::Failed, Deletion::Deleted), Err(TokenStore::Keychain));
    assert_eq!(delete_token(Deletion::Failed, Deletion::Failed), Err(TokenStore::Keychain));
    assert_eq!(delete_token(Deletion::Absent, Deletion::Failed), Err(TokenStore::File));
}

#[test]
fn log_keeps_its_last_lines() {
    let mut log = applog::writer();
    assert_eq!(log.write(b"uno\r\n\ndos\ntres"), 14);
    assert_eq!(applog::snapshot(&log), "uno\ndos\ntres");
    assert_eq!(log.write(&[0xff, 0xfe]), 2);
    assert_eq!(applog::len(&log), 3);
    for i in 0..1000 {
        log.write(format!("línea {}\n", i).as_bytes());
    }
    assert_eq!(applog::len(&log), 1000);
    assert!(applog::snapshot(&log).starts_with("línea 0\nlínea 1\n"));
    log.write(b"fin\r");
    assert!(applog::snapshot(&log).ends_with("línea 999\nfin\r"));
}

#[test]
fn texts() {
    assert_eq!(decimal_text(0), "0");
    assert_eq!(decimal_text(u64::MAX), u64::MAX.to_string());
    assert_eq!(parse_u64("007"), Some(7));
    assert_eq!(parse_u64("+7"), Some(7));
    for bad in ["", "+", "-1", " 1", "1 ", "1_0", "18446744073709551616"] {
        assert_eq!(parse_u64(bad), None);
    }
    assert_eq!(parse_u64("18446744073709551615"), Some(u64::MAX));
    assert_eq!(trim_text("\u{2003} x y \n\u{85}"), "x y");
    assert_eq!(trim_text("  "), "");
    assert!(contains_text("abcabd", "abd"));
    assert!(contains_text("x", ""));
    assert!(!contains_text("ab", "abc"));
    assert!(same_text("ñ", "ñ") && !same_text("ñ", "n"));
    assert_eq!(first_chars("ñandú", 2), "ña");
    assert_eq!(first_chars("a", 2), "a");
    assert_eq!(to_hex(&[0, 0x1f, 0xab]), "001fab");
}

#[test]
fn numbers_in_bytes() {
    let mut out = Vec::new();
    push_be64(&mut out, 0x0102030405060708);
    push_le64(&mut out, 0x0102030405060708);
    assert_eq!(out, vec![1, 2, 3, 4, 5, 6, 7, 8, 8, 7, 6, 5, 4, 3, 2, 1]);
    assert_eq!(read_be16(&out, 1), 0x0203);
    assert_eq!(read_be32(&out, 2), 0x03040506);
}

#[test]
fn json_access() {
    let j = Json::object()
        .with("a", Json::from_u64(3))
        .with("b", Json::List(vec![Json::from_text("x"), Json::Null, Json::from_u64(300)]))
        .with("c", Json::Bool(true))
        .with("d", Json::Number { exact: None, whole: 7 });
    assert_eq!(j.get_u64("a"), Some(3));
    assert_eq!(j.get_u64("b"), None);
    assert_eq!(j.get_texts("b"), vec!["x"]);
    assert_eq!(j.get_bytes("b"), vec![44]);
    assert_eq!(j.get_u64("d"), None);
    assert_eq!(j.get_whole("d"), Some(7));
    assert_eq!(j.get_text("a"), None);
    assert_eq!(j.text_or_empty("zz"), "");
    assert!(j.get("zz").is_none());
    assert!(Json::Null.get("a").is_none());
}

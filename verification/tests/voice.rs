//! Voice packets, the receiving and the sending side, address discovery and the session
//! with the voice gateway.

use discord_lite::audio::devices::{loop_step, LoopStep};
use discord_lite::audio::FRAME_LEN;
use discord_lite::dave::error::DaveError;
use discord_lite::dave::FrameCryptor;
use discord_lite::json::Json;
use discord_lite::state::{AppEvent, VoiceControl};
use discord_lite::voice::discovery::{discovery_answer, discovery_request};
use discord_lite::voice::error::VoiceError;
use discord_lite::voice::jitter::{seq_diff, JitterBuffer, Play};
use discord_lite::voice::keys::{MediaFrame, MediaKeys};
use discord_lite::voice::receiver::Receiver;
use discord_lite::voice::rtp::{
    open_packet, rtp_header, unencrypted_prefix_len, Received, RtpSender,
};
use discord_lite::voice::sender::Sender;
use discord_lite::voice::session::{
    connecting_event, ended_event, pick_mode, CallEvent, CallFlags, VoiceAction, VoiceSession,
};
use discord_lite::voice::{endpoint_host, gateway_url, VoiceConnInfo, PREFERRED_MODE};

fn info() -> VoiceConnInfo {
    VoiceConnInfo {
        guild_id: "11".to_string(),
        channel_id: "22".to_string(),
        user_id: "33".to_string(),
        session_id: "abc".to_string(),
        endpoint: "wss://host.example:443/path".to_string(),
        token: "tok".to_string(),
    }
}

fn num(n: u64) -> Json {
    Json::Number { exact: Some(n), whole: n }
}

fn text(s: &str) -> Json {
    Json::Text(s.to_string())
}

fn object(pairs: Vec<(&str, Json)>) -> Json {
    Json::Object(pairs.into_iter().map(|(k, v)| (k.to_string(), v)).collect())
}

fn message(op: u64, d: Json) -> Json {
    object(vec![("op", num(op)), ("d", d)])
}

fn show(j: &Json) -> String {
    match j {
        Json::Null => "null".to_string(),
        Json::Bool(b) => b.to_string(),
        Json::Number { exact, whole } => exact.unwrap_or(*whole).to_string(),
        Json::Text(s) => format!("{:?}", s),
        Json::List(v) => {
            format!("[{}]", v.iter().map(show).collect::<Vec<_>>().join(","))
        }
        Json::Object(v) => format!(
            "{{{}}}",
            v.iter().map(|(k, x)| format!("{:?}:{}", k, show(x))).collect::<Vec<_>>().join(",")
        ),
    }
}

#[test]
fn header_layout() {
    assert_eq!(
        rtp_header(0x0102, 0x03040506, 0x0708090A),
        [0x80, 0x78, 1, 2, 3, 4, 5, 6, 7, 8, 9, 10]
    );
}

#[test]
fn clear_part_of_a_packet() {
    let mut packet = vec![0u8; 60];
    packet[0] = 0x80;
    assert_eq!(unencrypted_prefix_len(&packet, 60), Some(12));
    assert_eq!(unencrypted_prefix_len(&packet, 32), Some(12));
    assert_eq!(unencrypted_prefix_len(&packet, 31), None);
    packet[0] = 0x90;
    assert_eq!(unencrypted_prefix_len(&packet, 60), Some(16));
    packet[0] = 0x92;
    assert_eq!(unencrypted_prefix_len(&packet, 60), Some(24));
    assert_eq!(unencrypted_prefix_len(&packet, 43), None);
    assert_eq!(unencrypted_prefix_len(&[], 11), None);
}

#[test]
fn packet_roundtrip() {
    let key = [7u8; 32];
    let mut sender = RtpSender::new(5, 65535, u32::MAX);
    let packet = sender.packet(&key, b"payload").unwrap();
    assert_eq!(packet.len(), 12 + 7 + 16 + 4);
    assert_eq!(&packet[packet.len() - 4..], &[0, 0, 0, 0]);
    assert_ne!(&packet[12..19], b"payload");
    match open_packet(&key, &packet) {
        Received::Packet { seq, ssrc, payload } => {
            assert_eq!((seq, ssrc), (65535, 5));
            assert_eq!(payload, b"payload".to_vec());
        }
        _ => panic!("not opened"),
    }
    assert_eq!(sender.seq, 0);
    assert_eq!(sender.timestamp, 959);
    assert_eq!(sender.counter, 1);
    assert!(matches!(open_packet(&[8u8; 32], &packet), Received::Rejected));
    let mut bad = packet.clone();
    bad[3] ^= 1;
    assert!(matches!(open_packet(&key, &bad), Received::Rejected));
    assert!(matches!(open_packet(&key, &packet[..20]), Received::Unreadable));
}

#[test]
fn sequence_differences_wrap() {
    assert_eq!(seq_diff(5, 3), 2);
    assert_eq!(seq_diff(3, 5), -2);
    assert_eq!(seq_diff(1, 65535), 2);
    assert_eq!(seq_diff(65535, 1), -2);
    assert_eq!(seq_diff(0x8000, 0), -32768);
    assert_eq!(seq_diff(0x7fff, 0), 32767);
}

fn names(plays: &[Play]) -> Vec<String> {
    plays
        .iter()
        .map(|p| match p {
            Play::Audio(o) => format!("a{}", o[0]),
            Play::Silence => "s".to_string(),
            Play::Recover(o) => format!("r{}", o[0]),
            Play::Conceal => "c".to_string(),
        })
        .collect()
}

#[test]
fn jitter_reorders() {
    let mut b = JitterBuffer::new();
    b.push(10, vec![10]);
    assert!(b.drain().is_empty());
    b.push(12, vec![12]);
    assert!(b.drain().is_empty());
    b.push(11, vec![11]);
    assert_eq!(names(&b.drain()), vec!["a10"]);
    b.push(13, vec![13]);
    assert_eq!(names(&b.drain()), vec!["a11"]);
    // Late packets are dropped.
    b.push(9, vec![9]);
    assert!(b.drain().is_empty());
    b.push(14, vec![14]);
    assert_eq!(names(&b.drain()), vec!["a12"]);
}

#[test]
fn jitter_recovers_and_conceals() {
    let mut b = JitterBuffer::new();
    b.push(1, vec![1]);
    b.push(3, vec![3]);
    b.push(4, vec![4]);
    // 1 plays; then only two are held.
    assert_eq!(names(&b.drain()), vec!["a1"]);
    b.push(5, vec![5]);
    // 2 was lost and 3 is there.
    assert_eq!(names(&b.drain()), vec!["r3", "a3"]);
    let mut b = JitterBuffer::new();
    b.push(1, vec![1]);
    b.push(4, vec![4]);
    b.push(5, vec![5]);
    assert_eq!(names(&b.drain()), vec!["a1"]);
    b.push(6, vec![6]);
    assert_eq!(names(&b.drain()), vec!["c", "r4", "a4"]);
}

#[test]
fn jitter_silence_is_not_concealed() {
    let mut b = JitterBuffer::new();
    b.push(1, vec![1]);
    b.note_silence(2);
    b.note_silence(3);
    assert_eq!(names(&b.drain()), vec!["a1"]);
    b.push(4, vec![4]);
    assert_eq!(names(&b.drain()), vec!["s"]);
    b.push(5, vec![5]);
    assert_eq!(names(&b.drain()), vec!["s"]);
}

#[test]
fn jitter_starts_over_after_a_large_gap() {
    let mut b = JitterBuffer::new();
    b.push(1, vec![1]);
    b.push(26, vec![26]);
    b.push(27, vec![27]);
    b.push(28, vec![28]);
    assert_eq!(names(&b.drain()), vec!["a26"]);
    // Exactly the largest gap is still waited for.
    let mut b = JitterBuffer::new();
    b.push(1, vec![1]);
    b.push(25, vec![25]);
    assert!(b.drain().is_empty());
    b.push(2, vec![2]);
    assert_eq!(names(&b.drain()), vec!["a1"]);
}

#[test]
fn jitter_order_survives_the_wrap() {
    let mut b = JitterBuffer::new();
    b.push(65535, vec![1]);
    b.push(1, vec![3]);
    b.push(0, vec![2]);
    b.push(2, vec![4]);
    assert_eq!(names(&b.drain()), vec!["a1", "a2"]);
}

#[test]
fn receiver_counts_and_plays() {
    let key = [1u8; 32];
    let keys = MediaKeys::new();
    let mut r = Receiver::new();
    let mut s = RtpSender::new(77, 100, 0);
    assert!(r.receive(&key, &keys, &[0u8; 31], false).is_none());
    assert_eq!(r.counters.received, 0);
    let p = s.packet(&key, &[9]).unwrap();
    assert!(r.receive(&key, &keys, &p, true).is_none());
    assert_eq!(r.counters.received, 0);
    let (ssrc, plays) = r.receive(&key, &keys, &p, false).unwrap();
    assert_eq!(ssrc, 77);
    assert!(plays.is_empty());
    assert_eq!(r.counters.received, 1);
    let p = s.packet(&key, &[10]).unwrap();
    r.receive(&key, &keys, &p, false);
    let p = s.packet(&key, &[11]).unwrap();
    let (_, plays) = r.receive(&key, &keys, &p, false).unwrap();
    assert_eq!(names(&plays), vec!["a9"]);
    // Not authentic.
    let mut bad = p.clone();
    bad[20] ^= 1;
    assert!(r.receive(&key, &keys, &bad, false).is_none());
    assert_eq!(r.counters.transport_fail, 1);
    // Empty.
    let empty = s.packet(&key, &[]).unwrap();
    assert!(r.receive(&key, &keys, &empty, false).is_none());
    // Too many sources for its length.
    let mut crowded = vec![0u8; 40];
    crowded[0] = 0x8F;
    assert!(r.receive(&key, &keys, &crowded, false).is_none());
    assert_eq!(r.counters.received, 6);
    r.counters.note_decoded(false);
    r.counters.note_decoded(true);
    assert_eq!((r.counters.decoded, r.counters.concealed), (2, 1));
}

#[test]
fn sender_skips_warns_and_sends() {
    let key = [2u8; 32];
    let mut keys = MediaKeys::new();
    let mut s = Sender::new(9, 1, 2);
    for _ in 0..599 {
        assert!(!s.on_empty());
    }
    assert!(s.on_empty());
    assert!(!s.on_empty());
    s.on_muted();
    assert_eq!((s.rtp.seq, s.rtp.timestamp, s.rtp.counter), (2, 962, 0));
    let p = s.send(&key, &mut keys, b"opus").unwrap();
    assert_eq!(s.frames_sent, 1);
    match open_packet(&key, &p) {
        Received::Packet { seq, ssrc, payload } => {
            assert_eq!((seq, ssrc, payload), (2, 9, b"opus".to_vec()));
        }
        _ => panic!("not opened"),
    }
}

#[test]
fn keys_pass_plain_packets_while_not_encrypted() {
    let mut keys = MediaKeys::new();
    assert!(!keys.is_active());
    assert_eq!(keys.seal(b"opus"), b"opus".to_vec());
    assert!(matches!(keys.open(1, b"opus".to_vec()), MediaFrame::Audio(o) if o == b"opus"));
    keys.deactivate();
    assert!(!keys.is_active());
}

#[test]
fn frames_of_a_sender_and_their_failures_differ() {
    // The same base secret on both ends opens; the marker tells filler from failure.
    let mut enc = FrameCryptor::from_base_secret(&[1u8; 16]);
    let frame = enc.encrypt(b"opus").unwrap();
    assert_eq!(FrameCryptor::from_base_secret(&[1u8; 16]).decrypt(&frame), Ok(b"opus".to_vec()));
    assert!(FrameCryptor::from_base_secret(&[2u8; 16]).decrypt(&frame).is_err());
}

#[test]
fn discovery_request_and_answer() {
    let req = discovery_request(0x01020304);
    assert_eq!(req.len(), 74);
    assert_eq!(&req[..8], &[0, 1, 0, 70, 1, 2, 3, 4]);
    assert!(req[8..].iter().all(|&b| b == 0));

    let mut answer = vec![0u8; 74];
    answer[8..8 + 9].copy_from_slice(b"127.0.0.1");
    answer[72] = 0x12;
    answer[73] = 0x34;
    match discovery_answer(&answer) {
        Ok((address, port)) => {
            assert_eq!(address, "127.0.0.1");
            assert_eq!(port, 0x1234);
        }
        Err(_) => panic!("refused"),
    }
    let short = discovery_answer(&answer[..73]);
    assert!(matches!(&short, Err(VoiceError::ShortDiscovery(73))));
    if let Err(e) = short {
        assert_eq!(e.text(), "respuesta de IP discovery corta (73)");
    }
    let mut no_port = answer.clone();
    no_port[72] = 0;
    no_port[73] = 0;
    assert!(matches!(discovery_answer(&no_port), Err(VoiceError::BadDiscovery)));
    answer[8] = 0;
    assert!(matches!(discovery_answer(&answer), Err(VoiceError::BadDiscovery)));
    // Bytes that are not UTF-8 are replaced, and a field without a zero is used whole.
    let mut odd = vec![b'a'; 74];
    odd[8] = 0xff;
    match discovery_answer(&odd) {
        Ok((address, _)) => {
            assert_eq!(address.chars().count(), 64);
            assert!(address.starts_with("\u{fffd}aa"));
        }
        Err(_) => panic!("refused"),
    }
}

#[test]
fn endpoints() {
    assert_eq!(endpoint_host("host.example:443"), "host.example:443");
    assert_eq!(endpoint_host("wss://host/x/y"), "host");
    assert_eq!(endpoint_host("wss://wss://host"), "host");
    assert_eq!(endpoint_host(""), "");
    assert_eq!(gateway_url(&info()), "wss://host.example:443/?v=8");
}

#[test]
fn modes() {
    assert_eq!(
        pick_mode(vec!["other".to_string(), PREFERRED_MODE.to_string()]).ok(),
        Some(PREFERRED_MODE.to_string())
    );
    match pick_mode(vec!["a\"b".to_string(), "c".to_string()]) {
        Err(e) => assert_eq!(
            e.text(),
            "el servidor no ofrece aead_xchacha20_poly1305_rtpsize (modos: [\"a\\\"b\", \"c\"])"
        ),
        Ok(_) => panic!("accepted"),
    }
}

#[test]
fn session_identifies_and_beats() {
    let mut s = VoiceSession::new(info());
    assert_eq!(
        show(&s.identify()),
        "{\"op\":0,\"d\":{\"server_id\":\"11\",\"user_id\":\"33\",\"session_id\":\"abc\",\"token\":\"tok\",\"max_dave_protocol_version\":1}}"
    );
    // No heartbeat before HELLO.
    assert!(matches!(s.on_tick(1), Ok(None)));
    let mut keys = MediaKeys::new();
    let hello = message(8, object(vec![("heartbeat_interval", Json::Number { exact: None, whole: 13750 })]));
    let step = s.on_text(&mut keys, &hello);
    assert!(step.error.is_none());
    assert!(matches!(step.actions[..], [VoiceAction::SetHeartbeat(13750)]));
    match s.on_tick(5) {
        Ok(Some(j)) => assert_eq!(show(&j), "{\"op\":3,\"d\":{\"t\":5,\"seq_ack\":null}}"),
        _ => panic!("no heartbeat"),
    }
    match s.on_tick(6) {
        Err(e) => assert_eq!(e.text(), "sin ACK de heartbeat de voz"),
        Ok(_) => panic!("went on"),
    }
    let mut ack = vec![("op", num(6)), ("seq", num(9))];
    ack.push(("d", Json::Null));
    s.on_text(&mut keys, &object(ack));
    match s.on_tick(7) {
        Ok(Some(j)) => assert_eq!(show(&j), "{\"op\":3,\"d\":{\"t\":7,\"seq_ack\":9}}"),
        _ => panic!("no heartbeat"),
    }
}

fn ready() -> Json {
    message(
        2,
        object(vec![
            ("ssrc", num(1234)),
            ("ip", text("1.2.3.4")),
            ("port", num(5000)),
            ("modes", Json::List(vec![text("x"), num(3), text(PREFERRED_MODE)])),
        ]),
    )
}

fn description(key_len: usize, dave: Option<u64>) -> Json {
    let mut d = vec![("secret_key", Json::List((0..key_len).map(|i| num(i as u64)).collect()))];
    if let Some(v) = dave {
        d.push(("dave_protocol_version", num(v)));
    }
    message(4, object(d))
}

#[test]
fn session_handshake() {
    let mut s = VoiceSession::new(info());
    let mut keys = MediaKeys::new();
    let step = s.on_text(&mut keys, &ready());
    match &step.actions[..] {
        [VoiceAction::Discover { address, ssrc }] => {
            assert_eq!(address, "1.2.3.4:5000");
            assert_eq!(*ssrc, 1234);
        }
        _ => panic!("no discovery"),
    }
    // The key comes too early.
    let early = s.on_text(&mut keys, &description(32, None));
    assert!(matches!(early.error, Some(VoiceError::UdpNotReady)));
    assert_eq!(early.error.unwrap().text(), "UDP no listo");
    assert_eq!(
        show(&s.on_discovered("5.6.7.8", 9)),
        "{\"op\":1,\"d\":{\"protocol\":\"udp\",\"data\":{\"address\":\"5.6.7.8\",\"port\":9,\"mode\":\"aead_xchacha20_poly1305_rtpsize\"}}}"
    );
    let short = s.on_text(&mut keys, &description(31, None));
    assert_eq!(short.error.unwrap().text(), "secret_key inválida (31 bytes)");
    let step = s.on_text(&mut keys, &description(32, None));
    assert!(step.error.is_none());
    match &step.actions[..] {
        [VoiceAction::Send(j), VoiceAction::StartAudio { key, ssrc, mode }, VoiceAction::Notify { connected, text }] =>
        {
            assert_eq!(
                show(j),
                "{\"op\":5,\"d\":{\"speaking\":1,\"delay\":0,\"ssrc\":1234}}"
            );
            assert_eq!(key[31], 31);
            assert_eq!(*ssrc, 1234);
            assert_eq!(mode, PREFERRED_MODE);
            assert!(*connected);
            assert_eq!(text, "voz: conectado");
        }
        _ => panic!("no audio"),
    }
    // The socket was taken.
    let again = s.on_text(&mut keys, &description(32, None));
    assert!(matches!(again.error, Some(VoiceError::UdpNotReady)));
}

#[test]
fn session_refuses_what_is_incomplete() {
    let mut keys = MediaKeys::new();
    let mut s = VoiceSession::new(info());
    let step = s.on_text(&mut keys, &message(2, object(vec![("ssrc", num(1))])));
    assert_eq!(step.error.unwrap().text(), "READY de voz incompleto");
    let none = message(
        2,
        object(vec![("ssrc", num(1)), ("ip", text("h")), ("port", num(1)), ("modes", Json::Null)]),
    );
    let step = VoiceSession::new(info()).on_text(&mut keys, &none);
    assert!(matches!(step.error, Some(VoiceError::ModeNotOffered(_))));
    // Unknown opcodes and empty messages do nothing.
    let step = s.on_text(&mut keys, &message(77, Json::Null));
    assert!(step.error.is_none() && step.actions.is_empty());
    let step = s.on_text(&mut keys, &Json::Null);
    assert!(step.error.is_none() && step.actions.is_empty());
}

#[test]
fn session_offers_a_key_package_once() {
    let mut s = VoiceSession::new(info());
    let mut keys = MediaKeys::new();
    let step = s.on_text(&mut keys, &description(0, Some(1)));
    assert!(matches!(step.error, Some(VoiceError::BadSecretKey(0))));
    match &step.actions[..] {
        [VoiceAction::SendBinary(b)] => {
            assert_eq!(b[0], 26);
            assert!(b.windows(8).any(|w| w == 33u64.to_be_bytes()));
        }
        _ => panic!("no key package"),
    }
    let step = s.on_text(&mut keys, &description(0, Some(1)));
    assert!(step.actions.is_empty());
    let mut plain = VoiceSession::new(info());
    let step = plain.on_text(&mut keys, &description(0, Some(0)));
    assert!(step.actions.is_empty());
}

#[test]
fn binary_messages_without_a_group_do_nothing() {
    let mut s = VoiceSession::new(info());
    let mut keys = MediaKeys::new();
    for b in [
        vec![],
        vec![0, 1],
        vec![0, 1, 25],
        vec![0, 1, 27, 9],
        vec![0, 1, 29, 0],
        vec![0, 1, 29, 0, 1, 2],
        vec![0, 1, 30, 0, 1, 2],
    ] {
        let step = s.on_binary(&mut keys, &b);
        assert!(step.actions.is_empty() && step.error.is_none());
    }
    assert!(!keys.is_active());
}

#[test]
fn control_flags() {
    let mut f = CallFlags::new();
    assert!(!f.on_event(CallEvent::Control(Some(VoiceControl::Mute(true)))));
    assert!(!f.on_event(CallEvent::Control(Some(VoiceControl::Deaf(true)))));
    assert!(!f.on_event(CallEvent::Handled { over: false }));
    assert_eq!(f, CallFlags { stop: false, mute: true, deaf: true });
    f.on_event(CallEvent::Control(Some(VoiceControl::Mute(false))));
    assert!(f.on_event(CallEvent::Control(None)));
    assert_eq!(f, CallFlags { stop: true, mute: false, deaf: true });
}

#[test]
fn every_end_stops_the_call() {
    for end in [
        CallEvent::Control(None),
        CallEvent::Control(Some(VoiceControl::Stop)),
        CallEvent::Handled { over: true },
        CallEvent::Closed,
        CallEvent::Broken,
    ] {
        let mut f = CallFlags::new();
        assert!(f.on_event(end));
        // Nothing brings it back.
        assert!(f.on_event(CallEvent::Control(Some(VoiceControl::Mute(false)))));
        assert!(f.on_event(CallEvent::Handled { over: false }));
        assert_eq!(loop_step(f.stop, 1, 2, FRAME_LEN), LoopStep::End);
    }
}

fn text_of(action: &VoiceAction) -> String {
    match action {
        VoiceAction::Notify { text, .. } => text.clone(),
        VoiceAction::Send(Json::Object(fields)) => match &fields[0].1 {
            Json::Number { whole, .. } => whole.to_string(),
            _ => String::new(),
        },
        _ => String::new(),
    }
}

#[test]
fn outcomes_of_the_handshake() {
    let mut s = VoiceSession::new(info());
    let mut keys = MediaKeys::new();
    // Without a group nothing happens.
    assert!(s.after_welcome(&mut keys, 3, Ok(())).actions.is_empty());
    assert!(s.after_commit(&mut keys, 3, Ok(())).actions.is_empty());
    // With one, a good outcome is confirmed and a bad one is not.
    let d = object(vec![("dave_protocol_version", num(1))]);
    let describe = object(vec![("op", num(4)), ("d", d)]);
    s.on_text(&mut keys, &describe);
    assert!(s.after_welcome(&mut keys, 3, Err(DaveError::WelcomeRefused)).actions.is_empty());
    assert!(s.after_commit(&mut keys, 3, Err(DaveError::CommitRefused)).actions.is_empty());
    let step = s.after_welcome(&mut keys, 3, Ok(()));
    let texts: Vec<String> = step.actions.iter().map(text_of).collect();
    assert_eq!(texts, ["voz: conectado (E2EE)", "23"]);
    for id in [0, 3] {
        let step = s.after_commit(&mut keys, id, Ok(()));
        let texts: Vec<String> = step.actions.iter().map(text_of).collect();
        assert_eq!(texts, ["23"]);
    }
    // The client was not let in, so there is no key to install.
    assert!(!keys.is_active());
}

fn voice_text(e: AppEvent) -> (bool, String) {
    match e {
        AppEvent::VoiceUpdate { connected, text } => (connected, text),
        _ => panic!("not about voice"),
    }
}

#[test]
fn session_events() {
    assert_eq!(voice_text(connecting_event()), (false, "voz: conectando…".to_string()));
    assert_eq!(voice_text(ended_event(None)), (false, "voz: desconectado".to_string()));
    assert_eq!(
        voice_text(ended_event(Some("UDP no listo"))),
        (false, "voz: desconectado (UDP no listo)".to_string())
    );
}

#[test]
fn packets_have_their_own_nonces() {
    let key = [7u8; 32];
    let mut sender = RtpSender::new(5, 0, 0);
    let a = sender.packet(&key, b"same").unwrap();
    let b = sender.packet(&key, b"same").unwrap();
    assert_eq!(&a[a.len() - 4..], &[0, 0, 0, 0]);
    assert_eq!(&b[b.len() - 4..], &[0, 0, 0, 1]);
    assert_ne!(&a[12..16], &b[12..16]);
}

#[test]
fn jitter_plays_each_packet_in_its_turn() {
    let mut b = JitterBuffer::new();
    for seq in [50u16, 54, 52, 51, 53, 56, 55] {
        b.push(seq, vec![seq as u8]);
    }
    assert_eq!(names(&b.drain()), vec!["a50", "a51", "a52", "a53", "a54"]);
}

//! What the window shows and what the user can do in it.

use discord_lite::audio::{apply_settings, AudioOptions, Chain, EchoStage};
use discord_lite::config::{Config, NoiseMode, VoiceSettings};
use discord_lite::model::{Channel, Message, User};
use discord_lite::state::{AppEvent, Command, ConnState};
use discord_lite::ui::actions::{
    autojoin, deaf_label, leave_voice, mute_label, purge, Follow, Refresh, VoicePrompt,
};
use discord_lite::ui::login::{
    entered_token, import_failure, login_step, token_source, LoginStep, TokenSource,
};
use discord_lite::ui::settings::{change_setting, device_at, device_index, menu_escape, Setting};
use discord_lite::ui::{channel_label, conn_icon, is_snowflake, render_content, UiState};

const A: &str = "1234567890123456";
const B: &str = "12345678901234567890";

fn user(name: &str) -> User {
    User {
        id: "1".to_string(),
        username: name.to_string(),
        global_name: None,
        discriminator: None,
        bot: false,
    }
}

fn message(channel: &str, id: &str, content: &str) -> Message {
    Message {
        id: id.to_string(),
        channel_id: channel.to_string(),
        author: Some(user("ana")),
        content: content.to_string(),
        timestamp: None,
        guild_id: None,
    }
}

fn channel(id: &str, kind: u8, name: &str, guild: Option<&str>) -> Channel {
    Channel {
        id: id.to_string(),
        kind,
        name: Some(name.to_string()),
        guild_id: guild.map(|s| s.to_string()),
        recipients: Vec::new(),
        position: None,
    }
}

fn state(followed: &[&str]) -> UiState {
    let mut cfg = Config::initial();
    for id in followed {
        cfg.follow(id.to_string());
    }
    UiState::new(cfg)
}

fn joined(p: &VoicePrompt) -> Option<(String, String)> {
    match &p.command {
        Some(Command::JoinVoice { guild_id, channel_id }) => {
            Some((guild_id.clone(), channel_id.clone()))
        }
        _ => None,
    }
}

#[test]
fn ids() {
    assert!(is_snowflake(A));
    assert!(is_snowflake(B));
    assert!(!is_snowflake("123456789012345"));
    assert!(!is_snowflake("123456789012345678901"));
    assert!(!is_snowflake("123456789012345x"));
    assert!(!is_snowflake("１234567890123456"));
}

#[test]
fn labels() {
    assert_eq!(channel_label("7"), "# 7");
    assert_eq!(conn_icon(ConnState::Connected), "🟢 conectado");
    assert_eq!(conn_icon(ConnState::Connecting), "🟡 conectando…");
    assert_eq!(conn_icon(ConnState::Reconnecting), "🟡 reconectando…");
    assert_eq!(conn_icon(ConnState::Offline), "🔴 sin conexión");
    assert_eq!(render_content(&message("c", "1", "")), "(sin texto)");
    assert_eq!(render_content(&message("c", "1", "x")), "x");
    assert_eq!(mute_label(true), "🎙 Mic: OFF");
    assert_eq!(mute_label(false), "🎙 Mic: ON");
    assert_eq!(deaf_label(true), "🔊 Salida: OFF");
    assert_eq!(deaf_label(false), "🔊 Salida: ON");
}

#[test]
fn open_channel_shows_its_messages() {
    let mut s = state(&[A]);
    assert_eq!(s.messages_text(), "");
    assert_eq!(s.active_title_text(), "Selecciona un canal o DM");
    s.handle_event(AppEvent::NewMessage(message(A, "1", "hola")));
    s.handle_event(AppEvent::NewMessage(message(A, "2", "")));
    assert!(matches!(s.on_select(1), Some(Command::LoadHistory { channel_id }) if channel_id == A));
    assert_eq!(s.cfg.last_channel.as_deref(), Some(A));
    assert_eq!(s.messages_text(), "ana: hola\nana: (sin texto)\n");
    assert_eq!(s.active_title_text(), format!("# {}", A));
    s.handle_event(AppEvent::ChannelInfo(channel(A, 0, "general", Some("g"))));
    assert_eq!(s.active_title_text(), "# general");
    assert!(s.on_select(0).is_none());
    assert!(s.on_select(2).is_none());
}

#[test]
fn details() {
    let mut s = state(&[A]);
    assert_eq!(
        s.info_text(),
        "Sin conversación activa.\n\nElige un canal o un mensaje directo para ver sus datos aquí."
    );
    s.on_select(1);
    assert_eq!(
        s.info_text(),
        format!("Nombre:\n  # {0}\n\nID del canal:\n  {0}\n\nMensajes cargados:\n  0\n", A)
    );
    s.handle_event(AppEvent::ChannelInfo(channel(A, 2, "sala", Some("g"))));
    s.handle_event(AppEvent::NewMessage(message(A, "1", "x")));
    assert_eq!(
        s.info_text(),
        format!(
            "Nombre:\n  🔊 sala\n\nID del canal:\n  {}\n\nTipo:\n  Canal de voz\n\nServidor:\n  g\n\nMensajes cargados:\n  1\n",
            A
        )
    );
    let mut dm = channel("5", 1, "", None);
    dm.recipients = vec![user("ana"), user("beto")];
    s.handle_event(AppEvent::Dms(vec![dm]));
    assert!(s.on_select_dm(1).is_some());
    assert_eq!(
        s.info_text(),
        "Nombre:\n  @ ana, beto\n\nID del canal:\n  5\n\nTipo:\n  Mensaje directo\n\nParticipantes:\n  ana\n  beto\n\nMensajes cargados:\n  0\n"
    );
}

#[test]
fn conversations_are_filtered() {
    let mut s = state(&[]);
    s.handle_event(AppEvent::Dms(vec![
        channel("1", 1, "ÁRBOL", None),
        channel("2", 1, "beto", None),
        channel("3", 1, "Bárbara", None),
    ]));
    let names = |s: &UiState| s.filtered_dms().iter().map(|c| c.id.clone()).collect::<Vec<_>>();
    assert_eq!(names(&s), vec!["1", "2", "3"]);
    s.dm_filter = " ár ".to_string();
    assert_eq!(names(&s), vec!["1", "3"]);
    assert!(matches!(s.on_select_dm(2), Some(Command::LoadHistory { channel_id }) if channel_id == "3"));
    assert_eq!(s.active.as_deref(), Some("3"));
    assert!(s.on_select_dm(3).is_none());
    assert!(s.on_select_dm(0).is_none());
    s.dm_filter = "zzz".to_string();
    assert!(names(&s).is_empty());
}

#[test]
fn status_line() {
    let mut s = state(&[]);
    assert_eq!(s.status_label(None), "conectando…");
    assert_eq!(s.status_label(Some("mal")), "⚠ mal");
    s.handle_event(AppEvent::Connection(ConnState::Connected));
    s.handle_event(AppEvent::Ready(user("ana")));
    assert_eq!(s.status_label(None), "🟢 conectado — ana");
    s.handle_event(AppEvent::Ready(user("")));
    assert_eq!(s.status_label(None), "conectado");
}

#[test]
fn old_entries_are_purged() {
    let mut cfg = Config::initial();
    cfg.followed_channels = vec!["general".to_string(), A.to_string()];
    cfg.last_channel = Some("general".to_string());
    assert!(purge(&mut cfg));
    assert_eq!(cfg.followed_channels, vec![A]);
    assert_eq!(cfg.last_channel, None);
    cfg.last_channel = Some("general".to_string());
    assert!(!purge(&mut cfg));
    assert_eq!(cfg.last_channel, None);
    cfg.last_channel = Some(A.to_string());
    purge(&mut cfg);
    assert_eq!(cfg.last_channel.as_deref(), Some(A));
}

#[test]
fn start() {
    let mut s = state(&[A, B]);
    let commands = s.startup_commands();
    assert_eq!(commands.len(), 5);
    assert!(matches!(&commands[0], Command::LoadHistory { channel_id } if channel_id == A));
    assert!(matches!(&commands[1], Command::ResolveChannel { channel_id } if channel_id == A));
    assert!(matches!(&commands[3], Command::ResolveChannel { channel_id } if channel_id == B));
    assert!(matches!(&commands[4], Command::LoadDms));
    assert_eq!(s.open_initial(), Some(0));
    assert_eq!(s.active.as_deref(), Some(A));
    let mut s = state(&[A, B]);
    s.cfg.last_channel = Some(B.to_string());
    assert_eq!(s.open_initial(), Some(1));
    let mut s = state(&[A]);
    s.cfg.last_channel = Some("5".to_string());
    assert_eq!(s.open_initial(), None);
    assert_eq!(s.active.as_deref(), Some("5"));
    let mut s = state(&[]);
    assert_eq!(s.open_initial(), None);
    assert_eq!(s.active, None);
}

#[test]
fn follow_and_unfollow() {
    let mut s = state(&[]);
    assert!(matches!(s.on_follow("  "), Follow::Nothing));
    assert!(matches!(s.on_follow("general"), Follow::NotAnId));
    assert!(matches!(s.on_follow(" 1234567890123456 "), Follow::Added(id) if id == A));
    assert!(matches!(s.on_follow(A), Follow::Already));
    assert_eq!(s.cfg.followed_channels, vec![A]);
    s.on_select(1);
    assert!(!s.on_unfollow(2));
    assert!(s.on_unfollow(1));
    assert!(s.cfg.followed_channels.is_empty());
    assert_eq!(s.active, None);
    assert_eq!(s.cfg.last_channel, None);
}

#[test]
fn joining_voice() {
    let mut s = state(&[A]);
    assert!(s.on_voice_click(0).is_none());
    assert!(s.on_voice_click(2).is_none());
    assert_eq!(s.on_voice_click(1).unwrap().status, "voz: canal aún sin resolver; reintenta");
    s.handle_event(AppEvent::ChannelInfo(channel(A, 0, "t", Some("g"))));
    assert_eq!(s.on_voice_click(1).unwrap().status, "voz: ese canal no es de voz (🔊)");
    s.handle_event(AppEvent::ChannelInfo(channel(A, 2, "v", None)));
    assert_eq!(
        s.on_voice_click(1).unwrap().status,
        "voz: resolviendo el canal; reintenta en 1 s"
    );
    assert!(s.cfg.last_voice.is_none());
    assert_eq!(
        s.on_rejoin().status,
        "voz: aún no hay último canal; únete una vez y se recordará"
    );
    s.handle_event(AppEvent::ChannelInfo(channel(A, 2, "v", Some("g"))));
    let p = s.on_voice_click(1).unwrap();
    assert_eq!(p.status, "voz: conectando…");
    assert_eq!(joined(&p), Some(("g".to_string(), A.to_string())));
    let p = s.on_rejoin();
    assert_eq!(p.status, "voz: reuniéndote al último canal…");
    assert_eq!(joined(&p), Some(("g".to_string(), A.to_string())));
    let p = s.on_join("", A);
    assert_eq!(p.status, "voz: pon ID de servidor y de canal de voz");
    let p = s.on_join("x", A);
    assert_eq!(p.status, "voz: usa IDs numéricos (Modo desarrollador → Copiar ID)");
    assert!(p.command.is_none());
    let p = s.on_join(B, " 1234567890123456\n");
    assert_eq!(joined(&p), Some((B.to_string(), A.to_string())));
    assert_eq!(s.cfg.last_voice.as_ref().unwrap().guild_id, B);
    assert!(leave_voice(" ").is_none());
    assert!(matches!(leave_voice(" g "), Some(Command::LeaveVoice { guild_id }) if guild_id == "g"));
    assert!(autojoin("nada").is_none());
    assert!(matches!(
        autojoin(" 1 : 2:3"),
        Some(Command::JoinVoice { guild_id, channel_id }) if guild_id == "1" && channel_id == "2:3"
    ));
}

#[test]
fn sending() {
    let mut s = state(&[A]);
    assert!(s.compose("hola").is_none());
    s.on_select(1);
    assert!(s.compose(" \n").is_none());
    assert!(matches!(
        s.compose(" hola "),
        Some(Command::SendMessage { channel_id, content }) if channel_id == A && content == "hola"
    ));
}

#[test]
fn events_touch_parts_of_the_window() {
    let none = Refresh { channels: false, dms: false, views: false, voice: false, messages: false };
    let mut s = state(&[A]);
    assert_eq!(s.handle_event(AppEvent::NewMessage(message(A, "1", "x"))), none);
    s.on_select(1);
    let open = Refresh { views: true, messages: true, ..none };
    assert_eq!(s.handle_event(AppEvent::NewMessage(message(A, "2", "x"))), open);
    assert_eq!(s.handle_event(AppEvent::Sent(message("9", "2", "x"))), none);
    assert_eq!(
        s.handle_event(AppEvent::History { channel_id: A.to_string(), messages: Vec::new() }),
        open
    );
    assert_eq!(
        s.handle_event(AppEvent::ChannelInfo(channel(A, 0, "x", None))),
        Refresh { channels: true, views: true, ..none }
    );
    assert_eq!(
        s.handle_event(AppEvent::Dms(Vec::new())),
        Refresh { dms: true, views: true, ..none }
    );
    assert_eq!(
        s.handle_event(AppEvent::VoiceUpdate { connected: true, text: "v".to_string() }),
        Refresh { voice: true, ..none }
    );
    assert_eq!(s.handle_event(AppEvent::Error("e".to_string())), none);
}

#[test]
fn menus() {
    assert_eq!(menu_escape("a/b_c&d\\e|f"), "a\\/b\\_c\\&d\\\\e¦f");
    let names = vec!["x".to_string(), "y".to_string()];
    assert_eq!(device_index(&names, Some("y")), 2);
    assert_eq!(device_index(&names, Some("z")), 0);
    assert_eq!(device_index(&names, None), 0);
    assert_eq!(device_at(&names, 2), Some("y".to_string()));
    assert_eq!(device_at(&names, 0), None);
    assert_eq!(device_at(&names, 3), None);
}

#[test]
fn settings_are_kept_and_in_force() {
    let mut v = VoiceSettings::default();
    let mut o = AudioOptions::new();
    apply_settings(&mut o, &v);
    assert_eq!(o.generation(), 2);
    assert_eq!(
        o.chain(),
        Chain { scale: false, echo: EchoStage::Duck, noise: NoiseMode::VoiceIsolation, agc: false }
    );
    change_setting(&mut v, &mut o, Setting::InputVolume(150));
    change_setting(&mut v, &mut o, Setting::OutputVolume(300));
    assert_eq!((v.input_volume, o.input_volume()), (150, 150));
    assert_eq!((v.output_volume, o.output_volume()), (300, 200));
    change_setting(&mut v, &mut o, Setting::Sensitivity(-200));
    assert_eq!((v.sensitivity_db, o.sensitivity_db()), (-200, -100));
    change_setting(&mut v, &mut o, Setting::Noise(NoiseMode::Light));
    change_setting(&mut v, &mut o, Setting::Echo(false));
    change_setting(&mut v, &mut o, Setting::AutoGain(true));
    change_setting(&mut v, &mut o, Setting::AutoSensitivity(false));
    assert!(!o.auto_sensitivity() && !v.auto_sensitivity);
    assert_eq!(
        o.chain(),
        Chain { scale: true, echo: EchoStage::Keep, noise: NoiseMode::Light, agc: true }
    );
    change_setting(&mut v, &mut o, Setting::Aec(true));
    assert_eq!(o.chain().echo, EchoStage::Cancel);
    change_setting(&mut v, &mut o, Setting::InputDevice(Some("mic".to_string())));
    change_setting(&mut v, &mut o, Setting::OutputDevice(Some("out".to_string())));
    assert_eq!(o.generation(), 4);
    assert_eq!(o.input_device(), Some("mic".to_string()));
    assert_eq!(o.output_device(), v.output_device);
}

#[test]
fn logging_in() {
    assert!(matches!(token_source(Some("k".to_string()), Some("e")), TokenSource::Stored(t) if t == "k"));
    assert!(matches!(token_source(None, Some(" e ")), TokenSource::Environment(t) if t == "e"));
    assert!(matches!(token_source(None, Some(" ")), TokenSource::Ask));
    assert!(matches!(token_source(None, None), TokenSource::Ask));
    assert_eq!(entered_token(Some(" t\n")), Some("t".to_string()));
    assert_eq!(entered_token(Some("")), None);
    assert_eq!(import_failure(0), "No se encontró token local (¿Discord instalado y con sesión?).");
    assert_eq!(
        import_failure(2),
        "Se encontró token pero no validó (¿expiró? abre Discord e inténtalo)."
    );
}

#[test]
fn only_good_tokens_are_accepted() {
    let token = "abc".to_string();
    assert!(matches!(login_step(token.clone(), Ok(())), LoginStep::Accept(t) if t == "abc"));
    match login_step(token.clone(), Err("HTTP 401 Unauthorized: ".to_string())) {
        LoginStep::Show(text) => assert_eq!(text, "Token inválido o expirado."),
        LoginStep::Accept(_) => panic!("accepted"),
    }
    match login_step(token, Err("timeout".to_string())) {
        LoginStep::Show(text) => assert_eq!(text, "Error de red/API: timeout"),
        LoginStep::Accept(_) => panic!("accepted"),
    }
}

//! The session with the main gateway as a state machine: greeting, heartbeats, events,
//! taking a session up again, and how long to wait before the next attempt.

use vstd::arithmetic::power2::{lemma_pow2_pos, lemma_pow2_unfold, pow2};
use vstd::prelude::*;

use crate::json::{Json, JsonView};
use crate::model::{
    copy_option, envelope, envelope_view, identify_json, opcode, option_view, resume_json, Hello,
    IdentifyData, IdentifyProperties, Message, MessageView, Ready, ResumeData, UserView,
    VoiceStateUpdateData, VoiceStateView,
};
use crate::state::{AppEvent, ConnState, EventView, VoiceSignal};
use crate::text::{concat2, same_text, trim_trailing, without_trailing};

verus! {

/// Where the gateway is.
pub const GATEWAY_URL: &'static str = "wss://gateway.discord.gg/?v=10&encoding=json";

/// What goes behind the address of a session that is taken up again.
pub const GATEWAY_QUERY: &'static str = "/?v=10&encoding=json";

/// The longest wait between two attempts, in seconds.
pub const MAX_BACKOFF: u64 = 30;

/// What the gateway is asked to do.
pub enum GatewayCommand {
    /// Join or leave a voice channel.
    VoiceState(VoiceStateUpdateData),
}

/// What it takes to take a session up again.
pub struct ResumeInfo {
    /// The session.
    pub session_id: String,
    /// The number of the last event that came in.
    pub seq: u64,
    /// Where to take it up again.
    pub url: String,
}

/// What it takes to take a session up again, in contracts.
pub struct ResumeView {
    pub session_id: Seq<char>,
    pub seq: u64,
    pub url: Seq<char>,
}

impl View for ResumeInfo {
    type V = ResumeView;

    open spec fn view(&self) -> ResumeView {
        ResumeView { session_id: self.session_id@, seq: self.seq, url: self.url@ }
    }
}

/// What is known of a session, if it is enough to take it up again.
pub open spec fn resume_of(
    session_id: Option<Seq<char>>,
    url: Option<Seq<char>>,
    seq: Option<u64>,
) -> Option<ResumeView> {
    match (session_id, url, seq) {
        (Some(session_id), Some(url), Some(seq)) => Some(ResumeView { session_id, seq, url }),
        _ => None,
    }
}

/// Puts together what it takes to take a session up again; all three parts are needed.
pub fn build_resume(
    session_id: Option<String>,
    url: Option<String>,
    seq: Option<u64>,
) -> (r: Option<ResumeInfo>)
    ensures
        (match r {
            Some(info) => Some(info@),
            None => None,
        }) == resume_of(option_view(session_id), option_view(url), seq),
{
    match (session_id, url, seq) {
        (Some(session_id), Some(url), Some(seq)) => Some(ResumeInfo { session_id, seq, url }),
        _ => None,
    }
}

/// The data of a message, read as far as its opcode and its name ask for.
pub enum Body {
    /// The greeting.
    Hello(Hello),
    /// The session that was opened.
    Ready(Ready),
    /// A chat message.
    Message(Message),
    /// As it came.
    Raw(Json),
    /// Not what it should be.
    Unreadable,
}

/// How the data of a message is to be read.
#[derive(Clone, Copy, Debug, PartialEq, Eq, Structural)]
pub enum BodyKind {
    /// As a greeting.
    Hello,
    /// As an opened session.
    Ready,
    /// As a chat message.
    Message,
    /// Not at all.
    Raw,
}

/// How the data of a message with the opcode and the name is to be read.
pub open spec fn kind_of(op: u8, name: Option<Seq<char>>) -> BodyKind {
    if op == opcode::HELLO {
        BodyKind::Hello
    } else if op == opcode::DISPATCH && name == Some("READY"@) {
        BodyKind::Ready
    } else if op == opcode::DISPATCH && name == Some("MESSAGE_CREATE"@) {
        BodyKind::Message
    } else {
        BodyKind::Raw
    }
}

/// How the data of a message with the opcode and the name is to be read.
pub fn body_kind(op: u8, name: Option<&str>) -> (r: BodyKind)
    ensures
        r == kind_of(
            op,
            match name {
                Some(s) => Some(s@),
                None => None,
            },
        ),
{
    if op == opcode::HELLO {
        return BodyKind::Hello;
    }
    if op != opcode::DISPATCH {
        return BodyKind::Raw;
    }
    match name {
        Some(name) => if same_text(name, "READY") {
            BodyKind::Ready
        } else if same_text(name, "MESSAGE_CREATE") {
            BodyKind::Message
        } else {
            BodyKind::Raw
        },
        None => BodyKind::Raw,
    }
}

/// The data of a message, in contracts.
pub enum BodyView {
    Hello { heartbeat_interval: u64 },
    Ready { session_id: Seq<char>, resume_gateway_url: Option<Seq<char>>, user: UserView },
    Message(MessageView),
    Raw(JsonView),
    Unreadable,
}

impl View for Body {
    type V = BodyView;

    open spec fn view(&self) -> BodyView {
        match *self {
            Body::Hello(h) => BodyView::Hello { heartbeat_interval: h.heartbeat_interval },
            Body::Ready(r) => BodyView::Ready {
                session_id: r.session_id@,
                resume_gateway_url: option_view(r.resume_gateway_url),
                user: r.user@,
            },
            Body::Message(m) => BodyView::Message(m@),
            Body::Raw(d) => BodyView::Raw(d@),
            Body::Unreadable => BodyView::Unreadable,
        }
    }
}

/// How a connection ended.
#[derive(Clone, Copy, Debug, PartialEq, Eq, Structural)]
pub enum Ended {
    /// It was lost, or the server asked for a new one.
    Lost,
    /// The session is not valid any more.
    Invalid,
    /// Something went wrong.
    Failed,
}

/// What the gateway says about voice, in contracts.
#[allow(inconsistent_fields)]
pub enum SignalView {
    State {
        user_id: Seq<char>,
        guild_id: Option<Seq<char>>,
        channel_id: Option<Seq<char>>,
        session_id: Seq<char>,
    },
    Server { guild_id: Seq<char>, endpoint: Option<Seq<char>>, token: Seq<char> },
}

impl View for VoiceSignal {
    type V = SignalView;

    open spec fn view(&self) -> SignalView {
        match *self {
            VoiceSignal::State { user_id, guild_id, channel_id, session_id } => SignalView::State {
                user_id: user_id@,
                guild_id: option_view(guild_id),
                channel_id: option_view(channel_id),
                session_id: session_id@,
            },
            VoiceSignal::Server { guild_id, endpoint, token } => SignalView::Server {
                guild_id: guild_id@,
                endpoint: option_view(endpoint),
                token: token@,
            },
        }
    }
}

/// What a message led to.
pub struct GatewayStep {
    /// What is to be sent.
    pub send: Option<Json>,
    /// What the window is told, in order.
    pub events: Vec<AppEvent>,
    /// What voice is told.
    pub signal: Option<VoiceSignal>,
    /// How often heartbeats come due from now on, in milliseconds.
    pub heartbeat: Option<u64>,
    /// How the connection ended, if it did.
    pub end: Option<Ended>,
}

/// What a message led to, in contracts.
pub struct GatewayStepView {
    pub send: Option<JsonView>,
    pub events: Seq<EventView>,
    pub signal: Option<SignalView>,
    pub heartbeat: Option<u64>,
    pub end: Option<Ended>,
}

impl View for GatewayStep {
    type V = GatewayStepView;

    open spec fn view(&self) -> GatewayStepView {
        GatewayStepView {
            send: match self.send {
                Some(j) => Some(j@),
                None => None,
            },
            events: self.events@.map_values(|e: AppEvent| e@),
            signal: match self.signal {
                Some(s) => Some(s@),
                None => None,
            },
            heartbeat: self.heartbeat,
            end: self.end,
        }
    }
}

impl GatewayStepView {
    /// Nothing is to be done.
    pub open spec fn nothing() -> GatewayStepView {
        GatewayStepView {
            send: None,
            events: Seq::empty(),
            signal: None,
            heartbeat: None,
            end: None,
        }
    }
}

impl GatewayStep {
    fn nothing() -> (r: GatewayStep)
        ensures
            r@ == GatewayStepView::nothing(),
            r.events@.len() == 0,
            r.send is None,
            r.signal is None,
            r.heartbeat is None,
            r.end is None,
    {
        let r = GatewayStep {
            send: None,
            events: Vec::new(),
            signal: None,
            heartbeat: None,
            end: None,
        };
        assert(r@.events =~= Seq::<EventView>::empty());
        r
    }

    fn sending(message: Json) -> (r: GatewayStep)
        ensures
            r@ == (GatewayStepView { send: Some(message@), ..GatewayStepView::nothing() }),
    {
        let mut r = GatewayStep::nothing();
        r.send = Some(message);
        r
    }

    fn ending(end: Ended) -> (r: GatewayStep)
        ensures
            r@ == (GatewayStepView { end: Some(end), ..GatewayStepView::nothing() }),
    {
        let mut r = GatewayStep::nothing();
        r.end = Some(end);
        r
    }
}

/// What the client knows of its connection and of the session behind it, in contracts.
pub struct GatewayView {
    pub token: Seq<char>,
    pub os: Seq<char>,
    pub backoff: u64,
    pub resume: Option<ResumeView>,
    pub first: bool,
    pub desired_voice: Option<VoiceStateView>,
    pub resuming: bool,
    pub last_seq: Option<u64>,
    pub session_id: Option<Seq<char>>,
    pub resume_url: Option<Seq<char>>,
    pub got_ack: bool,
    pub identified: bool,
    pub ready: bool,
}

/// The string under a name in the data.
pub open spec fn text_in(d: BodyView, name: Seq<char>) -> Option<Seq<char>> {
    match d {
        BodyView::Raw(d) => d.text_field(name),
        _ => None,
    }
}

/// The string under a name in the data, or an empty one.
pub open spec fn text_or_empty_in(d: BodyView, name: Seq<char>) -> Seq<char> {
    match text_in(d, name) {
        Some(s) => s,
        None => Seq::empty(),
    }
}

/// What an event tells voice.
pub open spec fn signal_of(name: Seq<char>, d: BodyView) -> Option<SignalView> {
    if name == "VOICE_STATE_UPDATE"@ {
        match text_in(d, "session_id"@) {
            Some(session_id) => Some(
                SignalView::State {
                    user_id: text_or_empty_in(d, "user_id"@),
                    guild_id: text_in(d, "guild_id"@),
                    channel_id: text_in(d, "channel_id"@),
                    session_id,
                },
            ),
            None => None,
        }
    } else if name == "VOICE_SERVER_UPDATE"@ {
        match text_in(d, "token"@) {
            Some(token) => Some(
                SignalView::Server {
                    guild_id: text_or_empty_in(d, "guild_id"@),
                    endpoint: text_in(d, "endpoint"@),
                    token,
                },
            ),
            None => None,
        }
    } else {
        None
    }
}

/// What an event tells the window.
pub open spec fn events_of(name: Seq<char>, d: BodyView) -> Seq<EventView> {
    let none = Seq::<EventView>::empty();
    if name == "READY"@ {
        match d {
            BodyView::Ready { session_id, resume_gateway_url, user } => none.push(
                EventView::Connection(ConnState::Connected),
            ).push(EventView::Ready(user)),
            _ => none,
        }
    } else if name == "RESUMED"@ {
        none.push(EventView::Connection(ConnState::Connected))
    } else if name == "MESSAGE_CREATE"@ {
        match d {
            BodyView::Message(m) => none.push(EventView::NewMessage(m)),
            _ => none,
        }
    } else {
        none
    }
}

/// An event says that the session is open.
pub open spec fn opens_session(name: Option<Seq<char>>) -> bool {
    name == Some("READY"@) || name == Some("RESUMED"@)
}

impl GatewayView {
    /// The state at the start.
    pub open spec fn fresh(token: Seq<char>, os: Seq<char>) -> GatewayView {
        GatewayView {
            token,
            os,
            backoff: 1,
            resume: None,
            first: true,
            desired_voice: None,
            resuming: false,
            last_seq: None,
            session_id: None,
            resume_url: None,
            got_ack: true,
            identified: false,
            ready: false,
        }
    }

    /// The wait is at least a second and not too long.
    pub open spec fn wf(self) -> bool {
        1 <= self.backoff <= MAX_BACKOFF
    }

    /// Where to connect: where the session can be taken up again, or to the gateway.
    pub open spec fn url(self) -> Seq<char> {
        match self.resume {
            Some(r) => without_trailing(r.url, '/') + GATEWAY_QUERY@,
            None => GATEWAY_URL@,
        }
    }

    /// The state with a new connection, before anything came in.
    pub open spec fn opened(self) -> GatewayView {
        GatewayView {
            first: false,
            resuming: self.resume is Some,
            last_seq: match self.resume {
                Some(r) => Some(r.seq),
                None => None,
            },
            session_id: match self.resume {
                Some(r) => Some(r.session_id),
                None => None,
            },
            resume_url: match self.resume {
                Some(r) => Some(r.url),
                None => None,
            },
            got_ack: true,
            identified: false,
            ready: false,
            ..self
        }
    }

    /// The state once the connection ended. A lost one is taken up again where enough is
    /// known; after an invalid session everything starts over; where something went wrong
    /// the wait grows.
    pub open spec fn closed(self, how: Ended) -> GatewayView {
        match how {
            Ended::Lost => GatewayView {
                resume: resume_of(self.session_id, self.resume_url, self.last_seq),
                backoff: 1,
                ..self
            },
            Ended::Invalid => GatewayView { resume: None, backoff: 1, ..self },
            Ended::Failed => self,
        }
    }

    /// The state once the wait is over: the next one is twice as long.
    pub open spec fn waited(self) -> GatewayView {
        GatewayView {
            backoff: if self.backoff * 2 <= MAX_BACKOFF {
                (self.backoff * 2) as u64
            } else {
                MAX_BACKOFF
            },
            ..self
        }
    }

    /// The state after some attempts that failed, each followed by a wait.
    pub open spec fn after_failures(self, n: nat) -> GatewayView
        decreases n,
    {
        if n == 0 {
            self
        } else {
            self.after_failures((n - 1) as nat).opened().closed(Ended::Failed).waited()
        }
    }

    /// A heartbeat: the number of the last event.
    pub open spec fn heartbeat(self) -> JsonView {
        envelope_view(opcode::HEARTBEAT as u64, JsonView::number_or_null(self.last_seq))
    }

    /// What the greeting is answered with.
    pub open spec fn greeting(self) -> JsonView {
        match self.session_id {
            Some(session_id) if self.resuming => envelope_view(
                opcode::RESUME as u64,
                resume_json(
                    self.token,
                    session_id,
                    match self.last_seq {
                        Some(n) => n,
                        None => 0,
                    },
                ),
            ),
            _ => envelope_view(
                opcode::IDENTIFY as u64,
                identify_json(self.token, self.os, "discord-lite"@, "discord-lite"@, false),
            ),
        }
    }

    /// The message that asks for the voice channel that is wanted.
    pub open spec fn voice_request(self) -> Option<JsonView> {
        match self.desired_voice {
            Some(v) => Some(envelope_view(opcode::VOICE_STATE_UPDATE as u64, v.json())),
            None => None,
        }
    }

    /// A heartbeat came due. None is sent before the greeting was answered; a connection
    /// on which the last one was not answered is lost.
    pub open spec fn on_tick(self) -> (GatewayView, GatewayStepView) {
        let nothing = GatewayStepView::nothing();
        if !self.identified {
            (self, nothing)
        } else if !self.got_ack {
            (self, GatewayStepView { end: Some(Ended::Lost), ..nothing })
        } else {
            (
                GatewayView { got_ack: false, ..self },
                GatewayStepView { send: Some(self.heartbeat()), ..nothing },
            )
        }
    }

    /// A voice channel is wanted. It is remembered; the server hears of it only once the
    /// session is open.
    pub open spec fn on_voice(self, v: VoiceStateView) -> (GatewayView, GatewayStepView) {
        let s = GatewayView { desired_voice: Some(v), ..self };
        let nothing = GatewayStepView::nothing();
        (
            s,
            if self.ready {
                GatewayStepView { send: s.voice_request(), ..nothing }
            } else {
                nothing
            },
        )
    }

    /// The state after the number of a message was noted.
    pub open spec fn heard(self, s: Option<u64>) -> GatewayView {
        match s {
            Some(n) => GatewayView { last_seq: Some(n), ..self },
            None => self,
        }
    }

    /// The state with what READY says of the session.
    pub open spec fn with_session(self, name: Seq<char>, d: BodyView) -> GatewayView {
        match d {
            BodyView::Ready { session_id, resume_gateway_url, user } if name == "READY"@ =>
                GatewayView {
                session_id: Some(session_id),
                resume_url: resume_gateway_url,
                ..self
            },
            _ => self,
        }
    }

    /// An event came in. Once the session is open, the wanted voice channel is asked for.
    pub open spec fn on_dispatch(self, name: Option<Seq<char>>, d: BodyView) -> (
        GatewayView,
        GatewayStepView,
    ) {
        let told = match name {
            Some(name) => GatewayStepView {
                events: events_of(name, d),
                signal: signal_of(name, d),
                ..GatewayStepView::nothing()
            },
            None => GatewayStepView::nothing(),
        };
        let s = match name {
            Some(name) => self.with_session(name, d),
            None => self,
        };
        if opens_session(name) && !self.ready {
            (
                GatewayView { ready: true, ..s },
                GatewayStepView { send: s.voice_request(), ..told },
            )
        } else {
            (s, told)
        }
    }

    /// A message came in.
    pub open spec fn on_message(
        self,
        op: u8,
        number: Option<u64>,
        name: Option<Seq<char>>,
        d: BodyView,
    ) -> (GatewayView, GatewayStepView) {
        let s = self.heard(number);
        let nothing = GatewayStepView::nothing();
        if op == opcode::HELLO {
            match d {
                BodyView::Hello { heartbeat_interval } => (
                    GatewayView { identified: true, ..s },
                    GatewayStepView {
                        send: Some(s.greeting()),
                        heartbeat: Some(heartbeat_interval),
                        ..nothing
                    },
                ),
                _ => (s, GatewayStepView { end: Some(Ended::Failed), ..nothing }),
            }
        } else if op == opcode::HEARTBEAT {
            (
                GatewayView { got_ack: false, ..s },
                GatewayStepView { send: Some(s.heartbeat()), ..nothing },
            )
        } else if op == opcode::HEARTBEAT_ACK {
            (GatewayView { got_ack: true, ..s }, nothing)
        } else if op == opcode::RECONNECT {
            (s, GatewayStepView { end: Some(Ended::Lost), ..nothing })
        } else if op == opcode::INVALID_SESSION {
            (s, GatewayStepView { end: Some(Ended::Invalid), ..nothing })
        } else if op == opcode::DISPATCH {
            s.on_dispatch(name, d)
        } else {
            (s, nothing)
        }
    }
}

/// The message asks for a voice channel.
pub open spec fn asks_for_voice(message: Option<JsonView>) -> bool {
    exists|d: JsonView|
        message == Some(#[trigger] envelope_view(opcode::VOICE_STATE_UPDATE as u64, d))
}

proof fn lemma_envelope_op(a: u64, x: JsonView, b: u64, y: JsonView)
    requires
        a != b,
    ensures
        envelope_view(a, x) != envelope_view(b, y),
{
    let p = envelope_view(a, x)->Object_0;
    let q = envelope_view(b, y)->Object_0;
    assert(p[0] == ("op"@, JsonView::whole_number(a)));
    assert(q[0] == ("op"@, JsonView::whole_number(b)));
}

/// The server hears of a voice channel only once the session is open.
pub proof fn lemma_voice_only_when_ready(
    s: GatewayView,
    v: VoiceStateView,
    op: u8,
    number: Option<u64>,
    name: Option<Seq<char>>,
    d: BodyView,
)
    requires
        !s.ready,
    ensures
        s.on_voice(v).1.send is None,
        !asks_for_voice(s.on_tick().1.send),
        asks_for_voice(s.on_message(op, number, name, d).1.send) ==> {
            &&& opens_session(name)
            &&& s.on_message(op, number, name, d).0.ready
        },
{
    assert forall|e: JsonView| s.on_tick().1.send != Some(
        #[trigger] envelope_view(opcode::VOICE_STATE_UPDATE as u64, e),
    ) by {
        lemma_envelope_op(
            opcode::HEARTBEAT as u64,
            JsonView::number_or_null(s.last_seq),
            opcode::VOICE_STATE_UPDATE as u64,
            e,
        );
    }
    let (t, step) = s.on_message(op, number, name, d);
    let h = s.heard(number);
    assert forall|e: JsonView|
        step.send == Some(
            #[trigger] envelope_view(opcode::VOICE_STATE_UPDATE as u64, e),
        ) implies opens_session(name) && t.ready by {
        lemma_envelope_op(
            opcode::HEARTBEAT as u64,
            JsonView::number_or_null(h.last_seq),
            opcode::VOICE_STATE_UPDATE as u64,
            e,
        );
        lemma_envelope_op(
            opcode::IDENTIFY as u64,
            identify_json(h.token, h.os, "discord-lite"@, "discord-lite"@, false),
            opcode::VOICE_STATE_UPDATE as u64,
            e,
        );
        if h.session_id is Some {
            lemma_envelope_op(
                opcode::RESUME as u64,
                resume_json(
                    h.token,
                    h.session_id->Some_0,
                    match h.last_seq {
                        Some(n) => n,
                        None => 0,
                    },
                ),
                opcode::VOICE_STATE_UPDATE as u64,
                e,
            );
        }
    }
}

/// The voice channel that was wanted before the session opened is asked for when it opens.
pub proof fn lemma_wanted_voice_is_sent_on_ready(
    s: GatewayView,
    v: VoiceStateView,
    name: Option<Seq<char>>,
    d: BodyView,
)
    requires
        !s.ready,
        opens_session(name),
    ensures
        ({
            let (t, step) = s.on_voice(v).0.on_dispatch(name, d);
            t.ready && step.send == Some(
                envelope_view(opcode::VOICE_STATE_UPDATE as u64, v.json()),
            )
        }),
{
}

/// After an invalid session the client opens a new one: nothing of the old one is used.
pub proof fn lemma_invalid_session_starts_over(s: GatewayView, interval: u64)
    ensures
        s.closed(Ended::Invalid).url() == GATEWAY_URL@,
        s.closed(Ended::Invalid).opened().on_message(
            opcode::HELLO,
            None,
            None,
            BodyView::Hello { heartbeat_interval: interval },
        ).1.send == Some(
            envelope_view(
                opcode::IDENTIFY as u64,
                identify_json(s.token, s.os, "discord-lite"@, "discord-lite"@, false),
            ),
        ),
{
}

/// A connection that was lost is taken up again: with the session and the number of the
/// last event, where the server said it could be.
pub proof fn lemma_lost_session_is_resumed(s: GatewayView, interval: u64)
    requires
        s.session_id is Some,
        s.resume_url is Some,
        s.last_seq is Some,
    ensures
        s.closed(Ended::Lost).url() == without_trailing(s.resume_url->Some_0, '/')
            + GATEWAY_QUERY@,
        s.closed(Ended::Lost).opened().on_message(
            opcode::HELLO,
            None,
            None,
            BodyView::Hello { heartbeat_interval: interval },
        ).1.send == Some(
            envelope_view(
                opcode::RESUME as u64,
                resume_json(s.token, s.session_id->Some_0, s.last_seq->Some_0),
            ),
        ),
{
}

/// The wait never leaves its bounds, and a connection that ended well resets it.
pub proof fn lemma_backoff_bounds(s: GatewayView, how: Ended)
    requires
        s.wf(),
    ensures
        s.closed(how).wf(),
        s.waited().wf(),
        s.waited().backoff >= s.backoff,
        how != Ended::Failed ==> s.closed(how).backoff == 1,
        how == Ended::Failed ==> s.closed(how) == s,
{
}

/// After how long the next attempt is made, in milliseconds: the wait in seconds, varied by a
/// number of thousandths between a half and one and a half times, and never too long.
pub open spec fn varied_wait(backoff: u64, thousandths: u64) -> u64 {
    if backoff * (500 + thousandths) <= MAX_BACKOFF * 1000 {
        (backoff * (500 + thousandths)) as u64
    } else {
        (MAX_BACKOFF * 1000) as u64
    }
}

/// Tells after how long the next attempt is made, in milliseconds.
pub fn jittered_wait(backoff: u64, thousandths: u64) -> (r: u64)
    requires
        backoff <= MAX_BACKOFF,
        thousandths < 1000,
    ensures
        r == varied_wait(backoff, thousandths),
{
    assert(backoff * (500 + thousandths) <= 30 * 1500) by (nonlinear_arith)
        requires
            backoff <= 30,
            thousandths < 1000,
    ;
    let wait: u64 = backoff * (500 + thousandths);
    if wait <= MAX_BACKOFF * 1000 {
        wait
    } else {
        MAX_BACKOFF * 1000
    }
}

/// The wait after the attempt that follows `n` failed ones, where it fails too, is `2^n`
/// seconds, up to half a minute: 1, 2, 4, 8, 16, 30, 30 and so on. However it is varied, it
/// is never longer than that half minute. The user is told of connecting before the first
/// attempt and of reconnecting before each later one.
pub proof fn lemma_backoff_after_failures(token: Seq<char>, os: Seq<char>, n: nat, thousandths: u64)
    ensures
        ({
            let s = GatewayView::fresh(token, os).after_failures(n);
            let wait = s.opened().closed(Ended::Failed).backoff;
            &&& wait == (if pow2(n) <= MAX_BACKOFF {
                pow2(n)
            } else {
                MAX_BACKOFF as nat
            })
            &&& varied_wait(wait, thousandths) <= MAX_BACKOFF * 1000
            &&& s.first == (n == 0)
        }),
    decreases n,
{
    let s = GatewayView::fresh(token, os);
    if n == 0 {
        vstd::arithmetic::power2::lemma2_to64();
    } else {
        lemma_backoff_after_failures(token, os, (n - 1) as nat, thousandths);
        lemma_pow2_unfold(n);
        lemma_pow2_pos((n - 1) as nat);
        assert(s.after_failures(n) == s.after_failures((n - 1) as nat).opened().closed(
            Ended::Failed,
        ).waited());
        if pow2((n - 1) as nat) > MAX_BACKOFF {
            assert(pow2(n) > MAX_BACKOFF);
        }
    }
}

/// The client's side of the gateway.
pub struct Gateway {
    token: String,
    os: String,
    backoff: u64,
    resume: Option<ResumeInfo>,
    first: bool,
    desired_voice: Option<VoiceStateUpdateData>,
    resuming: bool,
    last_seq: Option<u64>,
    session_id: Option<String>,
    resume_url: Option<String>,
    got_ack: bool,
    identified: bool,
    ready: bool,
}

impl View for Gateway {
    type V = GatewayView;

    closed spec fn view(&self) -> GatewayView {
        GatewayView {
            token: self.token@,
            os: self.os@,
            backoff: self.backoff,
            resume: match self.resume {
                Some(r) => Some(r@),
                None => None,
            },
            first: self.first,
            desired_voice: match self.desired_voice {
                Some(v) => Some(v@),
                None => None,
            },
            resuming: self.resuming,
            last_seq: self.last_seq,
            session_id: option_view(self.session_id),
            resume_url: option_view(self.resume_url),
            got_ack: self.got_ack,
            identified: self.identified,
            ready: self.ready,
        }
    }
}

fn owned(s: Option<&str>) -> (r: Option<String>)
    ensures
        option_view(r) == (match s {
            Some(s) => Some(s@),
            None => None,
        }),
{
    match s {
        Some(s) => Some(s.to_owned()),
        None => None,
    }
}

impl Gateway {
    /// A client with a token, on an operating system.
    pub fn new(token: &str, os: &str) -> (r: Gateway)
        ensures
            r@.wf(),
            r@ == GatewayView::fresh(token@, os@),
    {
        Gateway {
            token: token.to_owned(),
            os: os.to_owned(),
            backoff: 1,
            resume: None,
            first: true,
            desired_voice: None,
            resuming: false,
            last_seq: None,
            session_id: None,
            resume_url: None,
            got_ack: true,
            identified: false,
            ready: false,
        }
    }

    /// Starts an attempt: what the user is told of the connection, and where to connect.
    pub fn open(&mut self) -> (r: (ConnState, String))
        ensures
            final(self)@ == old(self)@.opened(),
            r.0 == (if old(self)@.first {
                ConnState::Connecting
            } else {
                ConnState::Reconnecting
            }),
            r.1@ == old(self)@.url(),
    {
        let state = if self.first {
            ConnState::Connecting
        } else {
            ConnState::Reconnecting
        };
        self.first = false;
        self.got_ack = true;
        self.identified = false;
        self.ready = false;
        match &self.resume {
            Some(info) => {
                self.resuming = true;
                self.last_seq = Some(info.seq);
                self.session_id = Some(info.session_id.clone());
                self.resume_url = Some(info.url.clone());
                let base = trim_trailing(info.url.as_str(), '/');
                (state, concat2(base.as_str(), GATEWAY_QUERY))
            },
            None => {
                self.resuming = false;
                self.last_seq = None;
                self.session_id = None;
                self.resume_url = None;
                (state, GATEWAY_URL.to_owned())
            },
        }
    }

    /// The connection ended.
    pub fn close(&mut self, how: Ended)
        ensures
            final(self)@ == old(self)@.closed(how),
    {
        match how {
            Ended::Lost => {
                self.resume = build_resume(
                    copy_option(&self.session_id),
                    copy_option(&self.resume_url),
                    self.last_seq,
                );
                self.backoff = 1;
            },
            Ended::Invalid => {
                self.resume = None;
                self.backoff = 1;
            },
            Ended::Failed => {},
        }
    }

    /// How long to wait before the next attempt, in seconds before it is varied. The wait
    /// after that will be twice as long, up to the longest.
    pub fn backoff(&mut self) -> (r: u64)
        requires
            old(self)@.wf(),
        ensures
            r == old(self)@.backoff,
            final(self)@ == old(self)@.waited(),
            final(self)@.wf(),
    {
        let wait: u64 = self.backoff;
        self.backoff = if wait * 2 <= MAX_BACKOFF {
            wait * 2
        } else {
            MAX_BACKOFF
        };
        wait
    }

    fn heartbeat_message(&self) -> (r: Json)
        ensures
            r@ == self@.heartbeat(),
    {
        envelope(opcode::HEARTBEAT as u64, Json::from_option(self.last_seq))
    }

    fn voice_message(&self) -> (r: Option<Json>)
        ensures
            (match r {
                Some(j) => Some(j@),
                None => None,
            }) == self@.voice_request(),
    {
        match &self.desired_voice {
            Some(v) => Some(envelope(opcode::VOICE_STATE_UPDATE as u64, v.to_json())),
            None => None,
        }
    }

    fn greeting(&self) -> (r: Json)
        ensures
            r@ == self@.greeting(),
    {
        match &self.session_id {
            Some(session_id) if self.resuming => {
                let data = ResumeData {
                    token: self.token.clone(),
                    session_id: session_id.clone(),
                    seq: self.last_seq.unwrap_or(0),
                };
                envelope(opcode::RESUME as u64, data.to_json())
            },
            _ => {
                let data = IdentifyData {
                    token: self.token.clone(),
                    properties: IdentifyProperties::on_os(self.os.as_str()),
                    compress: false,
                };
                envelope(opcode::IDENTIFY as u64, data.to_json())
            },
        }
    }

    /// A heartbeat came due.
    pub fn on_tick(&mut self) -> (r: GatewayStep)
        ensures
            (final(self)@, r@) == old(self)@.on_tick(),
    {
        if !self.identified {
            return GatewayStep::nothing();
        }
        if !self.got_ack {
            return GatewayStep::ending(Ended::Lost);
        }
        self.got_ack = false;
        GatewayStep::sending(self.heartbeat_message())
    }

    /// The gateway is asked to do something.
    pub fn on_command(&mut self, command: GatewayCommand) -> (r: GatewayStep)
        ensures
            match command {
                GatewayCommand::VoiceState(v) => (final(self)@, r@) == old(self)@.on_voice(v@),
            },
    {
        match command {
            GatewayCommand::VoiceState(v) => {
                self.desired_voice = Some(v);
                let mut step = GatewayStep::nothing();
                if self.ready {
                    step.send = self.voice_message();
                }
                step
            },
        }
    }

    /// An event came in: what the window and voice are told of it.
    pub fn handle_dispatch(&mut self, name: &str, body: Body) -> (r: GatewayStep)
        ensures
            final(self)@ == old(self)@.with_session(name@, body@),
            r@ == (GatewayStepView {
                events: events_of(name@, body@),
                signal: signal_of(name@, body@),
                ..GatewayStepView::nothing()
            }),
    {
        let mut step = GatewayStep::nothing();
        let ghost d = body@;
        proof {
            reveal_strlit("READY");
            reveal_strlit("RESUMED");
            reveal_strlit("MESSAGE_CREATE");
            reveal_strlit("VOICE_STATE_UPDATE");
            reveal_strlit("VOICE_SERVER_UPDATE");
            assert("READY"@.len() == 5 && "RESUMED"@.len() == 7 && "MESSAGE_CREATE"@.len() == 14);
            assert("VOICE_STATE_UPDATE"@.len() == 18 && "VOICE_SERVER_UPDATE"@.len() == 19);
        }
        if same_text(name, "READY") {
            if let Body::Ready(ready) = body {
                self.session_id = Some(ready.session_id);
                self.resume_url = ready.resume_gateway_url;
                step.events.push(AppEvent::Connection(ConnState::Connected));
                step.events.push(AppEvent::Ready(ready.user));
            }
        } else if same_text(name, "RESUMED") {
            step.events.push(AppEvent::Connection(ConnState::Connected));
        } else if same_text(name, "MESSAGE_CREATE") {
            if let Body::Message(msg) = body {
                step.events.push(AppEvent::NewMessage(msg));
            }
        } else if same_text(name, "VOICE_STATE_UPDATE") {
            if let Body::Raw(d) = body {
                if let Some(session) = d.get_text("session_id") {
                    step.signal = Some(
                        VoiceSignal::State {
                            user_id: d.text_or_empty("user_id"),
                            guild_id: owned(d.get_text("guild_id")),
                            channel_id: owned(d.get_text("channel_id")),
                            session_id: session.to_owned(),
                        },
                    );
                }
            }
        } else if same_text(name, "VOICE_SERVER_UPDATE") {
            if let Body::Raw(d) = body {
                if let Some(token) = d.get_text("token") {
                    step.signal = Some(
                        VoiceSignal::Server {
                            guild_id: d.text_or_empty("guild_id"),
                            endpoint: owned(d.get_text("endpoint")),
                            token: token.to_owned(),
                        },
                    );
                }
            }
        }
        proof {
            assert(step@.events =~= events_of(name@, d));
            assert(step@.signal == signal_of(name@, d));
        }
        step
    }

    /// A message came in.
    pub fn on_message(&mut self, op: u8, number: Option<u64>, name: Option<&str>, body: Body) -> (r:
        GatewayStep)
        ensures
            (final(self)@, r@) == old(self)@.on_message(
                op,
                number,
                match name {
                    Some(s) => Some(s@),
                    None => None,
                },
                body@,
            ),
    {
        if let Some(n) = number {
            self.last_seq = Some(n);
        }
        assert(self@ == old(self)@.heard(number));
        if op == opcode::HELLO {
            match body {
                Body::Hello(hello) => {
                    let mut step = GatewayStep::sending(self.greeting());
                    step.heartbeat = Some(hello.heartbeat_interval);
                    self.identified = true;
                    step
                },
                _ => GatewayStep::ending(Ended::Failed),
            }
        } else if op == opcode::HEARTBEAT {
            self.got_ack = false;
            GatewayStep::sending(self.heartbeat_message())
        } else if op == opcode::HEARTBEAT_ACK {
            self.got_ack = true;
            GatewayStep::nothing()
        } else if op == opcode::RECONNECT {
            GatewayStep::ending(Ended::Lost)
        } else if op == opcode::INVALID_SESSION {
            GatewayStep::ending(Ended::Invalid)
        } else if op == opcode::DISPATCH {
            match name {
                None => GatewayStep::nothing(),
                Some(name) => {
                    let mut step = self.handle_dispatch(name, body);
                    let opens = same_text(name, "READY") || same_text(name, "RESUMED");
                    if opens && !self.ready {
                        step.send = self.voice_message();
                        self.ready = true;
                    }
                    step
                },
            }
        } else {
            GatewayStep::nothing()
        }
    }
}

} // verus!

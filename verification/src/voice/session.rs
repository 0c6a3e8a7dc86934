//! The session with the voice gateway as a state machine: each message that comes in
//! changes the state and says what is to be done.

use std::collections::HashMap;

use vstd::prelude::*;
use vstd::slice::slice_subrange;

use crate::audio::devices::{next_step, LoopStep};
use crate::bytes::{read_be16, u16_be_at};
use crate::dave::error::DaveError;
use crate::dave::mls::{
    commit_outcome, is_external_sender, is_key_package, welcome_outcome, MlsSession,
};
use crate::dave::{client_binary, op};
use crate::json::{bytes_in, texts_in, Json, JsonView};
use crate::state::{AppEvent, EventView, VoiceControl};
use crate::text::{concat3, decimal, decimal_text, parse_u64, same_text, u64_of_text};
use crate::voice::error::{texts_view, VoiceError, VoiceErrorView};
use crate::voice::keys::{KeysView, MediaFrameView, MediaKeys};
use crate::voice::messages::{
    heartbeat, heartbeat_view, identify, identify_view, select_protocol, select_view, speaking,
    speaking_view, transition_ready, transition_ready_view,
};
use crate::voice::{VoiceConnInfo, PREFERRED_MODE};

verus! {

broadcast use vstd::std_specs::hash::group_hash_axioms;

/// The bytes of the transport key.
pub const SECRET_KEY_BYTES: usize = 32;

/// Something to be done for the session.
pub enum VoiceAction {
    /// Send a message.
    Send(Json),
    /// Send a binary message.
    SendBinary(Vec<u8>),
    /// Let a heartbeat come due every so many milliseconds from now on.
    SetHeartbeat(u64),
    /// Open a socket to the address, find out how the server sees it, and report.
    Discover { address: String, ssrc: u32 },
    /// Start to send and receive over the socket.
    StartAudio { key: [u8; 32], ssrc: u32, mode: String },
    /// Tell the user how the session stands.
    Notify { connected: bool, text: String },
}

/// Something to be done for the session, in contracts.
pub enum ActionView {
    Send(JsonView),
    SendBinary(Seq<u8>),
    SetHeartbeat(u64),
    Discover { address: Seq<char>, ssrc: u32 },
    StartAudio { key: Seq<u8>, ssrc: u32, mode: Seq<char> },
    Notify { connected: bool, text: Seq<char> },
}

impl View for VoiceAction {
    type V = ActionView;

    open spec fn view(&self) -> ActionView {
        match *self {
            VoiceAction::Send(message) => ActionView::Send(message@),
            VoiceAction::SendBinary(bytes) => ActionView::SendBinary(bytes@),
            VoiceAction::SetHeartbeat(ms) => ActionView::SetHeartbeat(ms),
            VoiceAction::Discover { address, ssrc } => ActionView::Discover {
                address: address@,
                ssrc,
            },
            VoiceAction::StartAudio { key, ssrc, mode } => ActionView::StartAudio {
                key: key@,
                ssrc,
                mode: mode@,
            },
            VoiceAction::Notify { connected, text } => ActionView::Notify {
                connected,
                text: text@,
            },
        }
    }
}

/// The actions in a list.
pub open spec fn actions_view(actions: Seq<VoiceAction>) -> Seq<ActionView> {
    actions.map_values(|a: VoiceAction| a@)
}

/// What a message led to: things to be done, in order, and why the session is then over,
/// if it is.
pub struct Step {
    pub actions: Vec<VoiceAction>,
    pub error: Option<VoiceError>,
}

/// What a message led to, in contracts.
pub struct StepView {
    pub actions: Seq<ActionView>,
    pub error: Option<VoiceErrorView>,
}

impl View for Step {
    type V = StepView;

    open spec fn view(&self) -> StepView {
        StepView {
            actions: actions_view(self.actions@),
            error: match self.error {
                Some(e) => Some(e@),
                None => None,
            },
        }
    }
}

impl StepView {
    /// Nothing is to be done.
    pub open spec fn nothing() -> StepView {
        StepView { actions: Seq::empty(), error: None }
    }

    /// One thing is to be done.
    pub open spec fn one(action: ActionView) -> StepView {
        StepView { actions: Seq::empty().push(action), error: None }
    }

    /// The session is over.
    pub open spec fn failed(error: VoiceErrorView) -> StepView {
        StepView { actions: Seq::empty(), error: Some(error) }
    }

    /// The same, with one more thing to be done at the end.
    pub open spec fn then_do(self, action: ActionView) -> StepView {
        StepView { actions: self.actions.push(action), error: self.error }
    }
}

impl Step {
    fn nothing() -> (r: Step)
        ensures
            r@ == StepView::nothing(),
            r.error is None,
    {
        let r = Step { actions: Vec::new(), error: None };
        assert(r@.actions =~= Seq::<ActionView>::empty());
        r
    }

    fn failed(error: VoiceError) -> (r: Step)
        ensures
            r@ == StepView::failed(error@),
    {
        let r = Step { actions: Vec::new(), error: Some(error) };
        assert(r@.actions =~= Seq::<ActionView>::empty());
        r
    }

    fn then_do(self, action: VoiceAction) -> (r: Step)
        ensures
            r@ == self@.then_do(action@),
    {
        let ghost before = self@.actions;
        let ghost a = action@;
        let mut actions = self.actions;
        actions.push(action);
        let r = Step { actions, error: self.error };
        assert(r@.actions =~= before.push(a));
        r
    }

    fn then_fail(self, error: VoiceError) -> (r: Step)
        ensures
            r@.actions == self@.actions,
            r@.error == Some(error@),
    {
        Step { actions: self.actions, error: Some(error) }
    }
}

/// What the session knows, apart from the group: whether the last heartbeat was answered
/// and whether they may be sent yet, the last message number, the client's source, whether
/// there is a socket, the encryption, who speaks under which source, and the transitions
/// that are announced.
pub struct SessionView {
    pub got_ack: bool,
    pub hello_seen: bool,
    pub last_seq: Option<u64>,
    pub ssrc: u32,
    pub udp_ready: bool,
    pub mode: Option<Seq<char>>,
    pub speakers: Map<u32, u64>,
    pub pending: Option<u16>,
    pub downgrade: Option<u16>,
}

/// The number under a name, or zero.
pub open spec fn number_or_zero(d: JsonView, name: Seq<char>) -> u64 {
    match d.u64_field(name) {
        Some(n) => n,
        None => 0,
    }
}

/// The strings in the array under a name.
pub open spec fn texts_field(d: JsonView, name: Seq<char>) -> Seq<Seq<char>> {
    match d.list_field(name) {
        Some(items) => texts_in(items),
        None => Seq::empty(),
    }
}

/// The bytes in the array under a name.
pub open spec fn bytes_field(d: JsonView, name: Seq<char>) -> Seq<u8> {
    match d.list_field(name) {
        Some(items) => bytes_in(items),
        None => Seq::empty(),
    }
}

/// The string under a name, or an empty one.
pub open spec fn text_or_empty(d: JsonView, name: Seq<char>) -> Seq<char> {
    match d.text_field(name) {
        Some(s) => s,
        None => Seq::empty(),
    }
}

/// The number of the transition that a message is about: its low 16 bits.
pub open spec fn transition_of(d: JsonView) -> Option<u16> {
    match d.u64_field("transition_id"@) {
        Some(n) => Some((n % 0x1_0000) as u16),
        None => None,
    }
}

impl SessionView {
    /// The state at the start.
    pub open spec fn fresh() -> SessionView {
        SessionView {
            got_ack: true,
            hello_seen: false,
            last_seq: None,
            ssrc: 0,
            udp_ready: false,
            mode: None,
            speakers: Map::empty(),
            pending: None,
            downgrade: None,
        }
    }

    /// The state after the number of a message was noted.
    pub open spec fn heard(self, message: JsonView) -> SessionView {
        match message.u64_field("seq"@) {
            Some(n) => SessionView { last_seq: Some(n), ..self },
            None => self,
        }
    }

    /// The encryption in use.
    pub open spec fn mode_or_preferred(self) -> Seq<char> {
        match self.mode {
            Some(mode) => mode,
            None => PREFERRED_MODE@,
        }
    }

    /// HELLO: heartbeats may be sent, as often as it says.
    pub open spec fn on_hello(self, d: JsonView) -> (SessionView, StepView) {
        (
            SessionView { hello_seen: true, ..self },
            match d.whole_field("heartbeat_interval"@) {
                Some(ms) => StepView::one(ActionView::SetHeartbeat(ms)),
                None => StepView::nothing(),
            },
        )
    }

    /// READY: the source, the address and the encryptions on offer.
    pub open spec fn on_ready(self, d: JsonView) -> (SessionView, StepView) {
        let ssrc = (number_or_zero(d, "ssrc"@) % 0x1_0000_0000) as u32;
        let ip = text_or_empty(d, "ip"@);
        let port = (number_or_zero(d, "port"@) % 0x1_0000) as u16;
        let modes = texts_field(d, "modes"@);
        let s = SessionView { ssrc, ..self };
        if ssrc == 0 || ip.len() == 0 || port == 0 {
            (s, StepView::failed(VoiceErrorView::IncompleteReady))
        } else if !modes.contains(PREFERRED_MODE@) {
            (s, StepView::failed(VoiceErrorView::ModeNotOffered(modes)))
        } else {
            (
                SessionView { mode: Some(PREFERRED_MODE@), ..s },
                StepView::one(
                    ActionView::Discover { address: ip + ":"@ + decimal(port as nat), ssrc },
                ),
            )
        }
    }

    /// The end of SESSION DESCRIPTION: with a key and a socket, audio starts.
    pub open spec fn on_key(self, before: StepView, d: JsonView) -> (SessionView, StepView) {
        let key = bytes_field(d, "secret_key"@);
        if key.len() != 32 {
            (
                self,
                StepView { error: Some(VoiceErrorView::BadSecretKey(key.len())), ..before },
            )
        } else if !self.udp_ready {
            (self, StepView { error: Some(VoiceErrorView::UdpNotReady), ..before })
        } else {
            (
                SessionView { udp_ready: false, ..self },
                before.then_do(ActionView::Send(speaking_view(self.ssrc))).then_do(
                    ActionView::StartAudio {
                        key,
                        ssrc: self.ssrc,
                        mode: self.mode_or_preferred(),
                    },
                ).then_do(ActionView::Notify { connected: true, text: "voz: conectado"@ }),
            )
        }
    }

    /// SESSION DESCRIPTION, where `package` is the key package to be sent, if any.
    pub open spec fn on_description(self, d: JsonView, package: Option<Seq<u8>>) -> (
        SessionView,
        StepView,
    ) {
        let before = match package {
            Some(bytes) => StepView::one(
                ActionView::SendBinary(seq![op::KEY_PACKAGE] + bytes),
            ),
            None => StepView::nothing(),
        };
        self.on_key(before, d)
    }

    /// SPEAKING: who is behind a source. The client's own source is passed over.
    pub open spec fn speaker_in(self, d: JsonView) -> Option<(u32, u64)> {
        match (d.text_field("user_id"@), d.u64_field("ssrc"@)) {
            (Some(id), Some(n)) => match u64_of_text(id) {
                Some(user_id) if (n % 0x1_0000_0000) as u32 != self.ssrc => Some(
                    ((n % 0x1_0000_0000) as u32, user_id),
                ),
                _ => None,
            },
            _ => None,
        }
    }

    /// PREPARE TRANSITION: one to protocol version 0 leaves end-to-end encryption.
    pub open spec fn on_prepare(self, d: JsonView) -> SessionView {
        if d.u64_field("protocol_version"@) == Some(0u64) && transition_of(d) is Some {
            SessionView { downgrade: transition_of(d), ..self }
        } else {
            self
        }
    }

    /// EXECUTE TRANSITION: the announced one with this number is over.
    pub open spec fn on_execute(self, d: JsonView) -> SessionView {
        match transition_of(d) {
            Some(id) => if self.downgrade == Some(id) {
                SessionView { downgrade: None, ..self }
            } else if self.pending == Some(id) {
                SessionView { pending: None, ..self }
            } else {
                self
            },
            None => self,
        }
    }

    /// What a welcome leads to, once the group has said what came of it. Where it let the
    /// client in, the keys of the epoch are installed, the user is told, and the transition
    /// is confirmed. Otherwise nothing happens.
    pub open spec fn on_joined(
        self,
        keys: KeysView,
        group: Option<MlsSession>,
        id: u16,
        joined: Result<(), DaveError>,
    ) -> (KeysView, StepView) {
        if joined is Ok && group is Some {
            (
                keys.installed(group->Some_0, self.speakers),
                StepView::nothing().then_do(
                    ActionView::Notify { connected: true, text: "voz: conectado (E2EE)"@ },
                ).then_do(ActionView::Send(transition_ready_view(id))),
            )
        } else {
            (keys, StepView::nothing())
        }
    }

    /// What a commit leads to, once the group has said what came of it. Where it followed, the
    /// transition is confirmed; the keys of the new epoch are installed at once for
    /// transition zero, and otherwise wait for the transition to be executed. Where it did
    /// not, nothing happens.
    pub open spec fn on_followed(
        self,
        keys: KeysView,
        group: Option<MlsSession>,
        id: u16,
        followed: Result<(), DaveError>,
    ) -> (SessionView, KeysView, StepView) {
        if followed is Ok && group is Some {
            let step = StepView::one(ActionView::Send(transition_ready_view(id)));
            if id == 0 {
                (self, keys.installed(group->Some_0, self.speakers), step)
            } else {
                (SessionView { pending: Some(id), ..self }, keys, step)
            }
        } else {
            (self, keys, StepView::nothing())
        }
    }

    /// What EXECUTE TRANSITION does to the keys: leaving encryption drops them, an epoch
    /// change brings those of the new epoch, and any other number changes nothing.
    pub open spec fn keys_on_execute(
        self,
        d: JsonView,
        keys: KeysView,
        group: Option<MlsSession>,
    ) -> KeysView {
        match transition_of(d) {
            Some(id) => if self.downgrade == Some(id) {
                KeysView::none()
            } else if self.pending == Some(id) && group is Some {
                keys.installed(group->Some_0, self.speakers)
            } else {
                keys
            },
            None => keys,
        }
    }
}

/// The call is to be end-to-end encrypted and there is no group to be in yet.
pub open spec fn wants_group(d: JsonView, group: Option<MlsSession>) -> bool {
    &&& group is None
    &&& match d.u64_field("dave_protocol_version"@) {
        Some(v) => v >= 1,
        None => false,
    }
}

/// The user as a number; zero where the id is not one.
pub open spec fn user_number(info: VoiceConnInfo) -> u64 {
    match u64_of_text(info.user_id@) {
        Some(n) => n,
        None => 0,
    }
}

/// Where a group is wanted there is one then: it belongs to the user, who has not been let
/// in yet.
pub open spec fn group_opened(
    before: Option<MlsSession>,
    after: Option<MlsSession>,
    wanted: bool,
    user_id: u64,
) -> bool {
    if wanted {
        match after {
            Some(g) => g.wf() && g.user() == user_id && !g.in_group() && !g.knows_sender(),
            None => false,
        }
    } else {
        after == before
    }
}

/// The opcode of a message; one that is not in use where there is none.
pub open spec fn opcode_of(message: JsonView) -> u64 {
    match message.u64_field("op"@) {
        Some(n) => n,
        None => 999,
    }
}

/// The number of the transition at the front of a binary payload; zero where there is no
/// room for one.
pub open spec fn payload_transition(payload: Seq<u8>) -> u16 {
    if payload.len() >= 2 {
        u16_be_at(payload, 0)
    } else {
        0
    }
}

/// What an external sender does: the group keeps it where it is one.
pub open spec fn sender_kept(
    before: Option<MlsSession>,
    after: Option<MlsSession>,
    payload: Seq<u8>,
) -> bool {
    match (before, after) {
        (Some(g), Some(h)) => {
            &&& h.user() == g.user()
            &&& h.same_group(&g)
            &&& h.knows_sender() == (g.knows_sender() || is_external_sender(payload))
        },
        (None, None) => true,
        _ => false,
    }
}

/// What a welcome does: the group is handed the payload, and what comes of it decides. Without
/// a group nothing happens.
pub open spec fn welcomed(
    s: SessionView,
    before: Option<MlsSession>,
    after: Option<MlsSession>,
    payload: Seq<u8>,
    old_keys: KeysView,
    keys: KeysView,
    step: StepView,
) -> bool {
    match (before, after) {
        (Some(g), Some(h)) => exists|joined: Result<(), DaveError>|
            {
                &&& #[trigger] welcome_outcome(g, h, payload, joined)
                &&& (keys, step) == s.on_joined(
                    old_keys,
                    after,
                    payload_transition(payload),
                    joined,
                )
            },
        (None, None) => keys == old_keys && step == StepView::nothing(),
        _ => false,
    }
}

/// What a commit does: the group is handed what follows the transition number, and what comes
/// of it decides. Without a group nothing happens.
pub open spec fn committed(
    s: SessionView,
    t: SessionView,
    before: Option<MlsSession>,
    after: Option<MlsSession>,
    payload: Seq<u8>,
    old_keys: KeysView,
    keys: KeysView,
    step: StepView,
) -> bool {
    match (before, after) {
        (Some(g), Some(h)) => exists|followed: Result<(), DaveError>|
            {
                &&& #[trigger] commit_outcome(g, h, payload.skip(2), followed)
                &&& (t, keys, step) == s.on_followed(
                    old_keys,
                    after,
                    payload_transition(payload),
                    followed,
                )
            },
        (None, None) => t == s && keys == old_keys && step == StepView::nothing(),
        _ => false,
    }
}

/// The keys change on EXECUTE TRANSITION only where its number was announced: one that was
/// announced for neither a new epoch nor leaving encryption changes nothing.
pub proof fn lemma_only_announced_transitions_change_keys(
    s: SessionView,
    d: JsonView,
    keys: KeysView,
    group: Option<MlsSession>,
)
    requires
        transition_of(d) is None || (transition_of(d) != s.pending && transition_of(d)
            != s.downgrade),
    ensures
        s.keys_on_execute(d, keys, group) == keys,
        s.on_execute(d) == s,
{
}

/// A welcome or a commit that came to nothing changes neither the session nor the keys, and
/// nothing is answered.
pub proof fn lemma_refused_handshake_changes_nothing(
    s: SessionView,
    keys: KeysView,
    group: Option<MlsSession>,
    id: u16,
    error: DaveError,
)
    ensures
        s.on_joined(keys, group, id, Err(error)) == (keys, StepView::nothing()),
        s.on_followed(keys, group, id, Err(error)) == (s, keys, StepView::nothing()),
{
}

/// A commit that the group followed under a number keeps the keys until that number is
/// executed, and then brings those of the epoch that the group is in. Leaving encryption under
/// the same number comes first.
pub proof fn lemma_commit_takes_effect_when_executed(
    s: SessionView,
    keys: KeysView,
    group: MlsSession,
    id: u16,
    execute: JsonView,
)
    requires
        id != 0,
        transition_of(execute) == Some(id),
        s.downgrade != Some(id),
    ensures
        ({
            let (t, kept, _) = s.on_followed(keys, Some(group), id, Ok(()));
            &&& kept == keys
            &&& t.keys_on_execute(execute, kept, Some(group)) == keys.installed(
                group,
                s.speakers,
            )
            &&& t.on_execute(execute).pending is None
        }),
{
}

/// Leaving encryption is announced, then executed, and leaves no key behind: packets are
/// then taken and sent as they are.
pub proof fn lemma_downgrade_drops_keys(
    s: SessionView,
    prepare: JsonView,
    execute: JsonView,
    keys: KeysView,
    group: Option<MlsSession>,
    ssrc: u32,
    plain: Seq<u8>,
)
    requires
        prepare.u64_field("protocol_version"@) == Some(0u64),
        transition_of(prepare) is Some,
        transition_of(execute) == transition_of(prepare),
    ensures
        ({
            let after = s.on_prepare(prepare).keys_on_execute(execute, keys, group);
            after == KeysView::none() && after.frame(ssrc, plain) == MediaFrameView::Audio(plain)
        }),
{
}

/// The session with the voice gateway.
pub struct VoiceSession {
    info: VoiceConnInfo,
    got_ack: bool,
    hello_seen: bool,
    last_seq: Option<u64>,
    ssrc: u32,
    udp_ready: bool,
    mode: Option<String>,
    group: Option<MlsSession>,
    speakers: HashMap<u32, u64>,
    pending: Option<u16>,
    downgrade: Option<u16>,
}

impl View for VoiceSession {
    type V = SessionView;

    closed spec fn view(&self) -> SessionView {
        SessionView {
            got_ack: self.got_ack,
            hello_seen: self.hello_seen,
            last_seq: self.last_seq,
            ssrc: self.ssrc,
            udp_ready: self.udp_ready,
            mode: match self.mode {
                Some(mode) => Some(mode@),
                None => None,
            },
            speakers: self.speakers@,
            pending: self.pending,
            downgrade: self.downgrade,
        }
    }
}

/// Tells whether the list holds the text.
fn holds_text(list: &Vec<String>, text: &str) -> (r: bool)
    ensures
        r == texts_view(list@).contains(text@),
{
    let mut i: usize = 0;
    while i < list.len()
        invariant
            i <= list@.len(),
            forall|k: int| 0 <= k < i ==> texts_view(list@)[k] != text@,
        decreases list@.len() - i,
    {
        if same_text(list[i].as_str(), text) {
            assert(texts_view(list@)[i as int] == text@);
            return true;
        }
        i = i + 1;
    }
    false
}

/// The encryption to use: the one this client speaks, where it is on offer.
pub fn pick_mode(modes: Vec<String>) -> (r: Result<String, VoiceError>)
    ensures
        match r {
            Ok(mode) => texts_view(modes@).contains(PREFERRED_MODE@) && mode@ == PREFERRED_MODE@,
            Err(e) => !texts_view(modes@).contains(PREFERRED_MODE@)
                && e@ == VoiceErrorView::ModeNotOffered(texts_view(modes@)),
        },
{
    if holds_text(&modes, PREFERRED_MODE) {
        Ok(PREFERRED_MODE.to_owned())
    } else {
        Err(VoiceError::ModeNotOffered(modes))
    }
}

impl VoiceSession {
    /// Where the session connects to and as whom.
    pub closed spec fn conn_info(&self) -> VoiceConnInfo {
        self.info
    }

    /// The group of the call, once there is one to be in.
    pub closed spec fn group(&self) -> Option<MlsSession> {
        self.group
    }

    /// The group's session is as it should be.
    pub open spec fn wf(&self) -> bool {
        self.group() is Some ==> self.group()->Some_0.wf()
    }

    /// A session that has just connected.
    pub fn new(info: VoiceConnInfo) -> (r: VoiceSession)
        ensures
            r.wf(),
            r@ == SessionView::fresh(),
            r.conn_info() == info,
            r.group() is None,
    {
        VoiceSession {
            info,
            got_ack: true,
            hello_seen: false,
            last_seq: None,
            ssrc: 0,
            udp_ready: false,
            mode: None,
            group: None,
            speakers: HashMap::new(),
            pending: None,
            downgrade: None,
        }
    }

    /// The message that opens the session.
    pub fn identify(&self) -> (r: Json)
        ensures
            r@ == identify_view(self.conn_info()),
    {
        identify(&self.info)
    }

    /// A heartbeat is due. None is sent before HELLO; where the last one was not answered
    /// the session is over.
    pub fn on_tick(&mut self, now_ms: u64) -> (r: Result<Option<Json>, VoiceError>)
        ensures
            final(self).group() == old(self).group(),
            final(self).conn_info() == old(self).conn_info(),
            if !old(self)@.hello_seen {
                r == Ok::<Option<Json>, VoiceError>(None) && final(self)@ == old(self)@
            } else if !old(self)@.got_ack {
                r is Err && r->Err_0@ == VoiceErrorView::NoHeartbeatAck && final(self)@ == old(self)@
            } else {
                &&& r is Ok
                &&& r->Ok_0 is Some
                &&& r->Ok_0->Some_0@ == heartbeat_view(now_ms, old(self)@.last_seq)
                &&& final(self)@ == (SessionView { got_ack: false, ..old(self)@ })
            },
    {
        if !self.hello_seen {
            return Ok(None);
        }
        if !self.got_ack {
            return Err(VoiceError::NoHeartbeatAck);
        }
        self.got_ack = false;
        Ok(Some(heartbeat(now_ms, self.last_seq)))
    }

    fn on_hello(&mut self, d: &Json) -> (r: Step)
        ensures
            final(self).group() == old(self).group(),
            final(self).conn_info() == old(self).conn_info(),
            (final(self)@, r@) == old(self)@.on_hello(d@),
    {
        self.hello_seen = true;
        match d.get_whole("heartbeat_interval") {
            Some(ms) => Step::nothing().then_do(VoiceAction::SetHeartbeat(ms)),
            None => Step::nothing(),
        }
    }

    fn on_ready(&mut self, d: &Json) -> (r: Step)
        ensures
            final(self).group() == old(self).group(),
            final(self).conn_info() == old(self).conn_info(),
            (final(self)@, r@) == old(self)@.on_ready(d@),
    {
        let ssrc: u32 = (d.get_u64("ssrc").unwrap_or(0) % 0x1_0000_0000) as u32;
        let ip = d.text_or_empty("ip");
        let port: u16 = (d.get_u64("port").unwrap_or(0) % 0x1_0000) as u16;
        let modes = d.get_texts("modes");
        self.ssrc = ssrc;
        if ssrc == 0 || ip.as_str().is_empty() || port == 0 {
            return Step::failed(VoiceError::IncompleteReady);
        }
        match pick_mode(modes) {
            Err(e) => Step::failed(e),
            Ok(mode) => {
                self.mode = Some(mode);
                let address = concat3(ip.as_str(), ":", decimal_text(port as u64).as_str());
                Step::nothing().then_do(VoiceAction::Discover { address, ssrc })
            },
        }
    }

    /// The server sees the socket under this address: the message that chooses the
    /// transport. Audio may start once there is a key.
    pub fn on_discovered(&mut self, address: &str, port: u16) -> (r: Json)
        ensures
            final(self).group() == old(self).group(),
            final(self).conn_info() == old(self).conn_info(),
            final(self)@ == (SessionView { udp_ready: true, ..old(self)@ }),
            r@ == select_view(address@, port, old(self)@.mode_or_preferred()),
    {
        self.udp_ready = true;
        match &self.mode {
            Some(mode) => select_protocol(address, port, mode.as_str()),
            None => select_protocol(address, port, PREFERRED_MODE),
        }
    }

    /// Makes a group to be in, and a key package for it.
    fn open_group(&mut self) -> (r: Option<Vec<u8>>)
        requires
            old(self).wf(),
            old(self).group() is None,
        ensures
            final(self).wf(),
            final(self)@ == old(self)@,
            final(self).conn_info() == old(self).conn_info(),
            group_opened(None, final(self).group(), true, user_number(old(self).conn_info())),
            r is Some ==> is_key_package(r->Some_0@, user_number(old(self).conn_info())),
    {
        let user_id: u64 = parse_u64(self.info.user_id.as_str()).unwrap_or(0);
        match MlsSession::new(user_id) {
            Ok(group) => {
                let package = group.key_package_bytes();
                self.group = Some(group);
                match package {
                    Ok(bytes) => Some(bytes),
                    Err(_) => None,
                }
            },
            Err(_) => None,
        }
    }

    /// The key and the socket decide whether audio starts; a key package goes out first.
    pub fn describe(&mut self, d: &Json, package: Option<Vec<u8>>) -> (r: Step)
        ensures
            final(self).group() == old(self).group(),
            final(self).conn_info() == old(self).conn_info(),
            (final(self)@, r@) == old(self)@.on_description(
                d@,
                match package {
                    Some(bytes) => Some(bytes@),
                    None => None,
                },
            ),
    {
        let step = match package {
            Some(bytes) => Step::nothing().then_do(
                VoiceAction::SendBinary(client_binary(op::KEY_PACKAGE, bytes.as_slice())),
            ),
            None => Step::nothing(),
        };
        let bytes = d.get_bytes("secret_key");
        if bytes.len() != SECRET_KEY_BYTES {
            return step.then_fail(VoiceError::BadSecretKey(bytes.len()));
        }
        if !self.udp_ready {
            return step.then_fail(VoiceError::UdpNotReady);
        }
        self.udp_ready = false;
        let mode = match &self.mode {
            Some(mode) => mode.clone(),
            None => PREFERRED_MODE.to_owned(),
        };
        let key = key_array(bytes.as_slice());
        step.then_do(VoiceAction::Send(speaking(self.ssrc))).then_do(
            VoiceAction::StartAudio { key, ssrc: self.ssrc, mode },
        ).then_do(VoiceAction::Notify { connected: true, text: "voz: conectado".to_owned() })
    }

    fn on_description(&mut self, d: &Json) -> (r: Step)
        requires
            old(self).wf(),
        ensures
            final(self).wf(),
            final(self).conn_info() == old(self).conn_info(),
            group_opened(
                old(self).group(),
                final(self).group(),
                wants_group(d@, old(self).group()),
                user_number(old(self).conn_info()),
            ),
            exists|package: Option<Seq<u8>>|
                {
                    &&& package is Some ==> wants_group(d@, old(self).group()) && is_key_package(
                        package->Some_0,
                        user_number(old(self).conn_info()),
                    )
                    &&& (final(self)@, r@) == #[trigger] old(self)@.on_description(d@, package)
                },
    {
        let wanted = self.group.is_none() && match d.get_u64("dave_protocol_version") {
            Some(v) => v >= 1,
            None => false,
        };
        let package = if wanted {
            self.open_group()
        } else {
            None
        };
        let ghost p: Option<Seq<u8>> = if package is Some {
            Some(package->Some_0@)
        } else {
            None
        };
        let r = self.describe(d, package);
        assert((self@, r@) == old(self)@.on_description(d@, p));
        r
    }

    fn on_speaking(&mut self, keys: &mut MediaKeys, d: &Json)
        ensures
            final(self).group() == old(self).group(),
            final(self).conn_info() == old(self).conn_info(),
            match old(self)@.speaker_in(d@) {
                Some((ssrc, user_id)) => {
                    &&& final(self)@ == (SessionView {
                        speakers: old(self)@.speakers.insert(ssrc, user_id),
                        ..old(self)@
                    })
                    &&& final(keys)@ == (match old(self).group() {
                        Some(group) => old(keys)@.with_speaker(group, ssrc, user_id),
                        None => old(keys)@,
                    })
                },
                None => final(self)@ == old(self)@ && final(keys)@ == old(keys)@,
            },
    {
        let user_id: u64 = match d.get_text("user_id") {
            Some(id) => match parse_u64(id) {
                Some(n) => n,
                None => {
                    return;
                },
            },
            None => {
                return;
            },
        };
        let ssrc: u32 = match d.get_u64("ssrc") {
            Some(n) => (n % 0x1_0000_0000) as u32,
            None => {
                return;
            },
        };
        if ssrc == self.ssrc {
            return;
        }
        self.speakers.insert(ssrc, user_id);
        match &self.group {
            Some(group) => keys.add_speaker(group, ssrc, user_id),
            None => {},
        }
    }

    fn on_prepare(&mut self, d: &Json)
        ensures
            final(self).group() == old(self).group(),
            final(self).conn_info() == old(self).conn_info(),
            final(self)@ == old(self)@.on_prepare(d@),
    {
        let version: u64 = d.get_u64("protocol_version").unwrap_or(1);
        if version == 0 {
            if let Some(n) = d.get_u64("transition_id") {
                self.downgrade = Some((n % 0x1_0000) as u16);
            }
        }
    }

    fn on_execute(&mut self, keys: &mut MediaKeys, d: &Json)
        ensures
            final(self).group() == old(self).group(),
            final(self).conn_info() == old(self).conn_info(),
            final(self)@ == old(self)@.on_execute(d@),
            final(keys)@ == old(self)@.keys_on_execute(d@, old(keys)@, old(self).group()),
    {
        let id: u16 = match d.get_u64("transition_id") {
            Some(n) => (n % 0x1_0000) as u16,
            None => {
                return;
            },
        };
        if self.downgrade == Some(id) {
            keys.deactivate();
            self.downgrade = None;
        } else if self.pending == Some(id) {
            match &self.group {
                Some(group) => keys.install(group, &self.speakers),
                None => {},
            }
            self.pending = None;
        }
    }

    /// A message came in. Its number is noted; what else happens depends on its opcode.
    pub fn on_text(&mut self, keys: &mut MediaKeys, message: &Json) -> (r: Step)
        requires
            old(self).wf(),
        ensures
            final(self).wf(),
            final(self).conn_info() == old(self).conn_info(),
            opcode_of(message@) != 4 ==> final(self).group() == old(self).group(),
            opcode_of(message@) != 5 && opcode_of(message@) != 22 ==> final(keys)@ == old(keys)@,
            ({
                let s = old(self)@.heard(message@);
                let d = message@.field_or_null("d"@);
                let group = old(self).group();
                let code = opcode_of(message@);
                if code == 8 {
                    (final(self)@, r@) == s.on_hello(d)
                } else if code == 2 {
                    (final(self)@, r@) == s.on_ready(d)
                } else if code == 4 {
                    &&& group_opened(
                        group,
                        final(self).group(),
                        wants_group(d, group),
                        user_number(old(self).conn_info()),
                    )
                    &&& exists|package: Option<Seq<u8>>|
                        {
                            &&& package is Some ==> wants_group(d, group) && is_key_package(
                                package->Some_0,
                                user_number(old(self).conn_info()),
                            )
                            &&& (final(self)@, r@) == #[trigger] s.on_description(d, package)
                        }
                } else if code == 5 {
                    &&& r@ == StepView::nothing()
                    &&& match s.speaker_in(d) {
                        Some((ssrc, user_id)) => {
                            &&& final(self)@ == (SessionView {
                                speakers: s.speakers.insert(ssrc, user_id),
                                ..s
                            })
                            &&& final(keys)@ == (match group {
                                Some(g) => old(keys)@.with_speaker(g, ssrc, user_id),
                                None => old(keys)@,
                            })
                        },
                        None => final(self)@ == s && final(keys)@ == old(keys)@,
                    }
                } else if code == 6 {
                    r@ == StepView::nothing() && final(self)@ == (SessionView {
                        got_ack: true,
                        ..s
                    })
                } else if code == 21 {
                    r@ == StepView::nothing() && final(self)@ == s.on_prepare(d)
                } else if code == 22 {
                    &&& r@ == StepView::nothing()
                    &&& final(self)@ == s.on_execute(d)
                    &&& final(keys)@ == s.keys_on_execute(d, old(keys)@, group)
                } else {
                    r@ == StepView::nothing() && final(self)@ == s
                }
            }),
    {
        if let Some(n) = message.get_u64("seq") {
            self.last_seq = Some(n);
        }
        assert(self@ == old(self)@.heard(message@));
        let code: u64 = message.get_u64("op").unwrap_or(999);
        let null = Json::Null;
        let d: &Json = match message.get("d") {
            Some(d) => d,
            None => &null,
        };
        assert(d@ == message@.field_or_null("d"@));
        if code == 8 {
            self.on_hello(d)
        } else if code == 2 {
            self.on_ready(d)
        } else if code == 4 {
            self.on_description(d)
        } else if code == 5 {
            self.on_speaking(keys, d);
            Step::nothing()
        } else if code == 6 {
            self.got_ack = true;
            Step::nothing()
        } else if code == op::PREPARE_TRANSITION as u64 {
            self.on_prepare(d);
            Step::nothing()
        } else if code == op::EXECUTE_TRANSITION as u64 {
            self.on_execute(keys, d);
            Step::nothing()
        } else {
            Step::nothing()
        }
    }
}

impl VoiceSession {
    /// The group was handed a welcome, and this came of it.
    pub fn after_welcome(
        &mut self,
        keys: &mut MediaKeys,
        id: u16,
        joined: Result<(), DaveError>,
    ) -> (r: Step)
        ensures
            final(self)@ == old(self)@,
            final(self).group() == old(self).group(),
            final(self).conn_info() == old(self).conn_info(),
            (final(keys)@, r@) == old(self)@.on_joined(
                old(keys)@,
                old(self).group(),
                id,
                joined,
            ),
    {
        match (joined, &self.group) {
            (Ok(()), Some(group)) => {
                keys.install(group, &self.speakers);
                Step::nothing().then_do(
                    VoiceAction::Notify {
                        connected: true,
                        text: "voz: conectado (E2EE)".to_owned(),
                    },
                ).then_do(VoiceAction::Send(transition_ready(id)))
            },
            _ => Step::nothing(),
        }
    }

    /// The group was handed a commit, and this came of it.
    pub fn after_commit(
        &mut self,
        keys: &mut MediaKeys,
        id: u16,
        followed: Result<(), DaveError>,
    ) -> (r: Step)
        ensures
            final(self).group() == old(self).group(),
            final(self).conn_info() == old(self).conn_info(),
            (final(self)@, final(keys)@, r@) == old(self)@.on_followed(
                old(keys)@,
                old(self).group(),
                id,
                followed,
            ),
    {
        match (followed, &self.group) {
            (Ok(()), Some(group)) => {
                if id == 0 {
                    keys.install(group, &self.speakers);
                } else {
                    self.pending = Some(id);
                }
                Step::nothing().then_do(VoiceAction::Send(transition_ready(id)))
            },
            _ => Step::nothing(),
        }
    }

    fn on_welcome(&mut self, keys: &mut MediaKeys, payload: &[u8]) -> (r: Step)
        requires
            old(self).wf(),
        ensures
            final(self).wf(),
            final(self).conn_info() == old(self).conn_info(),
            final(self)@ == old(self)@,
            welcomed(
                old(self)@,
                old(self).group(),
                final(self).group(),
                payload@,
                old(keys)@,
                final(keys)@,
                r@,
            ),
    {
        let id: u16 = if payload.len() >= 2 {
            read_be16(payload, 0)
        } else {
            0
        };
        let joined = match &mut self.group {
            None => {
                return Step::nothing();
            },
            Some(group) => group.process_welcome(payload),
        };
        assert(welcome_outcome(
            old(self).group()->Some_0,
            self.group()->Some_0,
            payload@,
            joined,
        ));
        self.after_welcome(keys, id, joined)
    }

    fn on_commit(&mut self, keys: &mut MediaKeys, payload: &[u8]) -> (r: Step)
        requires
            old(self).wf(),
            payload@.len() >= 2,
        ensures
            final(self).wf(),
            final(self).conn_info() == old(self).conn_info(),
            committed(
                old(self)@,
                final(self)@,
                old(self).group(),
                final(self).group(),
                payload@,
                old(keys)@,
                final(keys)@,
                r@,
            ),
    {
        let id: u16 = read_be16(payload, 0);
        assert(payload@.skip(2) =~= payload@.subrange(2, payload@.len() as int));
        let commit = slice_subrange(payload, 2, payload.len());
        let followed = match &mut self.group {
            None => {
                return Step::nothing();
            },
            Some(group) => group.process_commit(commit),
        };
        assert(commit_outcome(
            old(self).group()->Some_0,
            self.group()->Some_0,
            payload@.skip(2),
            followed,
        ));
        self.after_commit(keys, id, followed)
    }

    /// A binary message of the handshake came in: a number, two bytes, an opcode and a
    /// payload. Proposals, and whatever else is not for a client that joins, are passed
    /// over.
    pub fn on_binary(&mut self, keys: &mut MediaKeys, message: &[u8]) -> (r: Step)
        requires
            old(self).wf(),
        ensures
            final(self).wf(),
            final(self).conn_info() == old(self).conn_info(),
            ({
                let code = message@[2];
                let payload = message@.skip(3);
                if message@.len() >= 3 && code == op::EXTERNAL_SENDER {
                    &&& final(self)@ == old(self)@
                    &&& final(keys)@ == old(keys)@
                    &&& r@ == StepView::nothing()
                    &&& sender_kept(old(self).group(), final(self).group(), payload)
                } else if message@.len() >= 3 && code == op::WELCOME {
                    &&& final(self)@ == old(self)@
                    &&& welcomed(
                        old(self)@,
                        old(self).group(),
                        final(self).group(),
                        payload,
                        old(keys)@,
                        final(keys)@,
                        r@,
                    )
                } else if message@.len() >= 5 && code == op::ANNOUNCE_COMMIT {
                    committed(
                        old(self)@,
                        final(self)@,
                        old(self).group(),
                        final(self).group(),
                        payload,
                        old(keys)@,
                        final(keys)@,
                        r@,
                    )
                } else {
                    &&& final(self)@ == old(self)@
                    &&& final(self).group() == old(self).group()
                    &&& final(keys)@ == old(keys)@
                    &&& r@ == StepView::nothing()
                }
            }),
    {
        if message.len() < 3 {
            return Step::nothing();
        }
        let code: u8 = message[2];
        assert(message@.skip(3) =~= message@.subrange(3, message@.len() as int));
        let payload = slice_subrange(message, 3, message.len());
        if code == op::EXTERNAL_SENDER {
            match &mut self.group {
                Some(group) => {
                    let _ = group.set_external_sender(payload);
                },
                None => {},
            }
            Step::nothing()
        } else if code == op::WELCOME {
            self.on_welcome(keys, payload)
        } else if code == op::ANNOUNCE_COMMIT && payload.len() >= 2 {
            self.on_commit(keys, payload)
        } else {
            Step::nothing()
        }
    }
}

/// The switches of a call.
#[derive(Clone, Copy, Debug, PartialEq, Eq, Structural)]
pub struct CallFlags {
    /// The call is over.
    pub stop: bool,
    /// The microphone is off.
    pub mute: bool,
    /// The speaker is off.
    pub deaf: bool,
}

/// Something that happens to the session of a call.
#[derive(Clone, Copy, Debug, PartialEq, Eq, Structural)]
pub enum CallEvent {
    /// It is told something, or nobody is left to tell it anything.
    Control(Option<VoiceControl>),
    /// A message or a heartbeat was handled, and ended the session where it says so.
    Handled { over: bool },
    /// The connection was closed.
    Closed,
    /// Something could not be read, sent or opened, or the session was dropped.
    Broken,
}

impl CallEvent {
    /// The session does not go on after the event.
    pub open spec fn ends(self) -> bool {
        match self {
            CallEvent::Control(Some(VoiceControl::Mute(_))) => false,
            CallEvent::Control(Some(VoiceControl::Deaf(_))) => false,
            CallEvent::Control(_) => true,
            CallEvent::Handled { over } => over,
            CallEvent::Closed => true,
            CallEvent::Broken => true,
        }
    }
}

impl CallFlags {
    /// The switches after an event.
    pub open spec fn after(self, event: CallEvent) -> CallFlags {
        match event {
            CallEvent::Control(Some(VoiceControl::Mute(m))) => CallFlags { mute: m, ..self },
            CallEvent::Control(Some(VoiceControl::Deaf(d))) => CallFlags { deaf: d, ..self },
            _ => CallFlags { stop: self.stop || event.ends(), ..self },
        }
    }

    /// The switches after some events, in order.
    pub open spec fn after_all(self, events: Seq<CallEvent>) -> CallFlags
        decreases events.len(),
    {
        if events.len() == 0 {
            self
        } else {
            self.after_all(events.drop_last()).after(events.last())
        }
    }

    /// The switches at the start of a call: all off.
    pub fn new() -> (r: CallFlags)
        ensures
            r == (CallFlags { stop: false, mute: false, deaf: false }),
    {
        CallFlags { stop: false, mute: false, deaf: false }
    }

    /// Something happens to the session. Tells whether the call is over.
    pub fn on_event(&mut self, event: CallEvent) -> (r: bool)
        ensures
            *final(self) == old(self).after(event),
            r == final(self).stop,
    {
        match event {
            CallEvent::Control(Some(VoiceControl::Mute(m))) => {
                self.mute = m;
            },
            CallEvent::Control(Some(VoiceControl::Deaf(d))) => {
                self.deaf = d;
            },
            CallEvent::Handled { over } => {
                self.stop = self.stop || over;
            },
            _ => {
                self.stop = true;
            },
        }
        self.stop
    }
}

/// However a session ends, and whatever happens before or after, the call is stopped: the
/// loop over the microphone then ends, and sends nothing more.
pub proof fn lemma_every_end_stops_the_call(
    flags: CallFlags,
    events: Seq<CallEvent>,
    i: int,
    opened: u64,
    generation: u64,
    buffered: nat,
)
    requires
        0 <= i < events.len(),
        events[i].ends(),
    ensures
        flags.after_all(events).stop,
        next_step(flags.after_all(events).stop, opened, generation, buffered) == LoopStep::End,
    decreases events.len(),
{
    if i < events.len() - 1 {
        lemma_every_end_stops_the_call(
            flags,
            events.drop_last(),
            i,
            opened,
            generation,
            buffered,
        );
    }
}

/// A call goes on as long as nothing ends its session.
pub proof fn lemma_call_goes_on(flags: CallFlags, events: Seq<CallEvent>)
    requires
        !flags.stop,
        forall|i: int| 0 <= i < events.len() ==> !(#[trigger] events[i]).ends(),
    ensures
        !flags.after_all(events).stop,
    decreases events.len(),
{
    if events.len() > 0 {
        assert forall|i: int| 0 <= i < events.drop_last().len() implies !(
        #[trigger] events.drop_last()[i]).ends() by {
            assert(!events[i].ends());
        }
        lemma_call_goes_on(flags, events.drop_last());
        assert(!events[events.len() - 1].ends());
    }
}

/// What the window is told when a session starts.
pub fn connecting_event() -> (r: AppEvent)
    ensures
        r@ == (EventView::VoiceUpdate { connected: false, text: "voz: conectando…"@ }),
{
    AppEvent::VoiceUpdate { connected: false, text: "voz: conectando…".to_owned() }
}

/// What the window is told when a session is over, and why where something went wrong.
pub fn ended_event(reason: Option<&str>) -> (r: AppEvent)
    ensures
        r@ == (EventView::VoiceUpdate {
            connected: false,
            text: match reason {
                Some(why) => "voz: desconectado ("@ + why@ + ")"@,
                None => "voz: desconectado"@,
            },
        }),
{
    match reason {
        Some(why) => AppEvent::VoiceUpdate {
            connected: false,
            text: concat3("voz: desconectado (", why, ")"),
        },
        None => AppEvent::VoiceUpdate { connected: false, text: "voz: desconectado".to_owned() },
    }
}

fn key_array(bytes: &[u8]) -> (r: [u8; 32])
    requires
        bytes@.len() == 32,
    ensures
        r@ == bytes@,
{
    let mut r: [u8; 32] = [0u8; 32];
    let mut i: usize = 0;
    while i < 32
        invariant
            i <= 32,
            bytes@.len() == 32,
            forall|k: int| 0 <= k < i ==> r@[k] == bytes@[k],
        decreases 32 - i,
    {
        r[i] = bytes[i];
        i = i + 1;
    }
    assert(r@ =~= bytes@);
    r
}

} // verus!

//! The state behind the window, the events that change it, and the orders and signals
//! that go between the window, the network and voice.

use std::collections::VecDeque;

use vstd::prelude::*;

use crate::model::{option_view, Channel, ChannelView, Message, MessageView, User, UserView};
use crate::ring::{keep_last, last_of};
use crate::text::same_text;
use crate::textmap::TextMap;

verus! {

/// The smallest number of messages that a channel may keep.
pub const MIN_HISTORY: usize = 10;

/// What the window asks of the network.
pub enum Command {
    /// Load the last messages of a channel.
    LoadHistory { channel_id: String },
    /// Find out what a channel is.
    ResolveChannel { channel_id: String },
    /// Load the user's conversations.
    LoadDms,
    /// Send a message.
    SendMessage { channel_id: String, content: String },
    /// Join a voice channel.
    JoinVoice { guild_id: String, channel_id: String },
    /// Leave the voice channel.
    LeaveVoice { guild_id: String },
    /// Turn the microphone off or on.
    VoiceMute(bool),
    /// Turn the speaker off or on.
    VoiceDeaf(bool),
    /// Forget the token and end.
    Logout,
}

/// What the window asks of the network, in contracts.
pub enum CommandView {
    LoadHistory { channel_id: Seq<char> },
    ResolveChannel { channel_id: Seq<char> },
    LoadDms,
    SendMessage { channel_id: Seq<char>, content: Seq<char> },
    JoinVoice { guild_id: Seq<char>, channel_id: Seq<char> },
    LeaveVoice { guild_id: Seq<char> },
    VoiceMute(bool),
    VoiceDeaf(bool),
    Logout,
}

impl View for Command {
    type V = CommandView;

    open spec fn view(&self) -> CommandView {
        match *self {
            Command::LoadHistory { channel_id } => CommandView::LoadHistory {
                channel_id: channel_id@,
            },
            Command::ResolveChannel { channel_id } => CommandView::ResolveChannel {
                channel_id: channel_id@,
            },
            Command::LoadDms => CommandView::LoadDms,
            Command::SendMessage { channel_id, content } => CommandView::SendMessage {
                channel_id: channel_id@,
                content: content@,
            },
            Command::JoinVoice { guild_id, channel_id } => CommandView::JoinVoice {
                guild_id: guild_id@,
                channel_id: channel_id@,
            },
            Command::LeaveVoice { guild_id } => CommandView::LeaveVoice { guild_id: guild_id@ },
            Command::VoiceMute(m) => CommandView::VoiceMute(m),
            Command::VoiceDeaf(d) => CommandView::VoiceDeaf(d),
            Command::Logout => CommandView::Logout,
        }
    }
}

/// What the gateway says about voice.
#[allow(inconsistent_fields)]
pub enum VoiceSignal {
    /// The user is in a voice channel, with this session.
    State {
        user_id: String,
        guild_id: Option<String>,
        channel_id: Option<String>,
        session_id: String,
    },
    /// The voice gateway to be used.
    Server { guild_id: String, endpoint: Option<String>, token: String },
}

/// What a voice session is told.
#[derive(Clone, Copy, Debug, PartialEq, Eq, Structural)]
pub enum VoiceControl {
    /// Turn the microphone off or on.
    Mute(bool),
    /// Turn the speaker off or on.
    Deaf(bool),
    /// End.
    Stop,
}

/// What the network tells the window.
pub enum AppEvent {
    /// Logged in, as this user.
    Ready(User),
    /// The connection changed.
    Connection(ConnState),
    /// A message came in.
    NewMessage(Message),
    /// The last messages of a channel.
    History { channel_id: String, messages: Vec<Message> },
    /// A message was sent.
    Sent(Message),
    /// The channels that can be followed.
    Channels(Vec<Channel>),
    /// The user's conversations.
    Dms(Vec<Channel>),
    /// What a channel is.
    ChannelInfo(Channel),
    /// Something went wrong.
    Error(String),
    /// How voice stands.
    VoiceUpdate { connected: bool, text: String },
}

/// How the connection stands.
#[derive(Clone, Copy, Debug, PartialEq, Eq, Structural)]
pub enum ConnState {
    /// On the way.
    Connecting,
    /// Up.
    Connected,
    /// On the way again.
    Reconnecting,
    /// Down.
    Offline,
}

impl ConnState {
    /// How the state is shown, in contracts.
    pub open spec fn label_text(self) -> Seq<char> {
        match self {
            ConnState::Connecting => "conectando…"@,
            ConnState::Connected => "conectado"@,
            ConnState::Reconnecting => "reconectando…"@,
            ConnState::Offline => "sin conexión"@,
        }
    }

    /// How the state is shown.
    pub fn label(&self) -> (r: &'static str)
        ensures
            r@ == self.label_text(),
    {
        match self {
            ConnState::Connecting => "conectando…",
            ConnState::Connected => "conectado",
            ConnState::Reconnecting => "reconectando…",
            ConnState::Offline => "sin conexión",
        }
    }
}

/// The messages in a list.
pub open spec fn messages_view(messages: Seq<Message>) -> Seq<MessageView> {
    messages.map_values(|m: Message| m@)
}

/// The channels in a list.
pub open spec fn channels_view(channels: Seq<Channel>) -> Seq<ChannelView> {
    channels.map_values(|c: Channel| c@)
}

/// A message with the id is in the list.
pub open spec fn has_id(messages: Seq<MessageView>, id: Seq<char>) -> bool {
    exists|i: int| 0 <= i < messages.len() && (#[trigger] messages[i]).id == id
}

/// No two messages in the list have the same id.
pub open spec fn ids_distinct(messages: Seq<MessageView>) -> bool {
    forall|i: int, j: int|
        0 <= i < j < messages.len() ==> (#[trigger] messages[i]).id != (#[trigger] messages[j]).id
}

/// The names with those of the channels put in, by id.
pub open spec fn with_labels(
    names: Map<Seq<char>, Seq<char>>,
    channels: Seq<ChannelView>,
) -> Map<Seq<char>, Seq<char>>
    decreases channels.len(),
{
    if channels.len() == 0 {
        names
    } else {
        with_labels(names, channels.drop_last()).insert(
            channels.last().id,
            channels.last().label(),
        )
    }
}

/// What the network tells the window, in contracts.
pub enum EventView {
    Ready(UserView),
    Connection(ConnState),
    NewMessage(MessageView),
    History { channel_id: Seq<char>, messages: Seq<MessageView> },
    Sent(MessageView),
    Channels(Seq<ChannelView>),
    Dms(Seq<ChannelView>),
    ChannelInfo(ChannelView),
    Error(Seq<char>),
    VoiceUpdate { connected: bool, text: Seq<char> },
}

impl View for AppEvent {
    type V = EventView;

    open spec fn view(&self) -> EventView {
        match *self {
            AppEvent::Ready(user) => EventView::Ready(user@),
            AppEvent::Connection(c) => EventView::Connection(c),
            AppEvent::NewMessage(m) => EventView::NewMessage(m@),
            AppEvent::History { channel_id, messages } => EventView::History {
                channel_id: channel_id@,
                messages: messages_view(messages@),
            },
            AppEvent::Sent(m) => EventView::Sent(m@),
            AppEvent::Channels(list) => EventView::Channels(channels_view(list@)),
            AppEvent::Dms(list) => EventView::Dms(channels_view(list@)),
            AppEvent::ChannelInfo(c) => EventView::ChannelInfo(c@),
            AppEvent::Error(e) => EventView::Error(e@),
            AppEvent::VoiceUpdate { connected, text } => EventView::VoiceUpdate {
                connected,
                text: text@,
            },
        }
    }
}

/// The state behind the window, in contracts.
pub struct StateView {
    pub me: Option<UserView>,
    pub conn: ConnState,
    pub active_channel: Option<Seq<char>>,
    pub messages: Map<Seq<char>, Seq<MessageView>>,
    pub channels: Seq<ChannelView>,
    pub dms: Seq<ChannelView>,
    pub channel_names: Map<Seq<char>, Seq<char>>,
    pub history_limit: usize,
    pub last_error: Option<Seq<char>>,
    pub voice_status: Option<Seq<char>>,
    pub voice_connected: bool,
}

impl StateView {
    /// The state at the start. A limit that is too small is raised.
    pub open spec fn fresh(history_limit: usize) -> StateView {
        StateView {
            me: None,
            conn: ConnState::Connecting,
            active_channel: None,
            messages: Map::empty(),
            channels: Seq::empty(),
            dms: Seq::empty(),
            channel_names: Map::empty(),
            history_limit: if history_limit >= MIN_HISTORY {
                history_limit
            } else {
                MIN_HISTORY
            },
            last_error: None,
            voice_status: None,
            voice_connected: false,
        }
    }

    /// No channel keeps more messages than the limit, and the limit is no smaller than
    /// the least one.
    pub open spec fn bounded(self) -> bool {
        &&& self.history_limit >= MIN_HISTORY
        &&& forall|c: Seq<char>| #[trigger]
            self.messages.contains_key(c) ==> self.messages[c].len() <= self.history_limit
    }

    /// The messages of a channel.
    pub open spec fn of_channel(self, channel: Seq<char>) -> Seq<MessageView> {
        if self.messages.contains_key(channel) {
            self.messages[channel]
        } else {
            Seq::empty()
        }
    }

    /// The state with one more message at the end of its channel; the oldest go where
    /// there are too many. A message that is there already changes nothing.
    pub open spec fn with_message(self, m: MessageView) -> StateView {
        let list = self.of_channel(m.channel_id);
        if has_id(list, m.id) {
            self
        } else {
            StateView {
                messages: self.messages.insert(
                    m.channel_id,
                    last_of(list.push(m), self.history_limit as nat),
                ),
                ..self
            }
        }
    }

    /// The state after an event.
    pub open spec fn after(self, event: EventView) -> StateView {
        match event {
            EventView::Ready(user) => StateView { me: Some(user), ..self },
            EventView::Connection(c) => StateView { conn: c, ..self },
            EventView::NewMessage(m) => self.with_message(m),
            EventView::History { channel_id, messages } => StateView {
                messages: self.messages.insert(
                    channel_id,
                    last_of(messages, self.history_limit as nat),
                ),
                ..self
            },
            EventView::Sent(m) => self.with_message(m),
            EventView::Channels(list) => StateView { channels: list, ..self },
            EventView::Dms(list) => StateView {
                channel_names: with_labels(self.channel_names, list),
                dms: list,
                ..self
            },
            EventView::ChannelInfo(c) => StateView {
                channel_names: self.channel_names.insert(c.id, c.label()),
                channels: self.channels.push(c),
                ..self
            },
            EventView::Error(e) => StateView { last_error: Some(e), ..self },
            EventView::VoiceUpdate { connected, text } => StateView {
                voice_connected: connected,
                voice_status: Some(text),
                ..self
            },
        }
    }
}

/// Whatever happens, no channel keeps more messages than the limit.
pub proof fn lemma_events_keep_bound(s: StateView, event: EventView)
    requires
        s.bounded(),
    ensures
        s.after(event).bounded(),
{
}

/// A message that comes in twice is kept once: the second time changes nothing.
pub proof fn lemma_echo_is_dropped(s: StateView, m: MessageView)
    requires
        s.bounded(),
    ensures
        s.with_message(m).with_message(m) == s.with_message(m),
        has_id(s.with_message(m).of_channel(m.channel_id), m.id),
{
    let list = s.of_channel(m.channel_id);
    if !has_id(list, m.id) {
        let now = last_of(list.push(m), s.history_limit as nat);
        assert(now.last() == m);
        assert(now[now.len() - 1].id == m.id);
        assert(has_id(s.with_message(m).of_channel(m.channel_id), m.id));
    }
}

/// New messages bring no second copy of an id into a channel.
pub proof fn lemma_ids_stay_distinct(s: StateView, m: MessageView, channel: Seq<char>)
    requires
        ids_distinct(s.of_channel(channel)),
    ensures
        ids_distinct(s.with_message(m).of_channel(channel)),
{
    let list = s.of_channel(channel);
    if channel == m.channel_id && !has_id(list, m.id) {
        let grown = list.push(m);
        assert forall|i: int, j: int| 0 <= i < j < grown.len() implies (#[trigger] grown[i]).id != (
        #[trigger] grown[j]).id by {
            assert(grown[i] == list[i]);
            if j < list.len() {
                assert(grown[j] == list[j]);
            }
        }
        let now = last_of(grown, s.history_limit as nat);
        let off = grown.len() - now.len();
        assert forall|i: int, j: int| 0 <= i < j < now.len() implies (#[trigger] now[i]).id != (
        #[trigger] now[j]).id by {
            assert(now[i] == grown[i + off] && now[j] == grown[j + off]);
        }
    }
}

/// A message of one channel leaves the other channels as they were.
pub proof fn lemma_other_channels_unchanged(s: StateView, m: MessageView, channel: Seq<char>)
    requires
        channel != m.channel_id,
    ensures
        s.with_message(m).of_channel(channel) == s.of_channel(channel),
{
}

/// The history of a channel replaces what was kept of it.
pub proof fn lemma_history_replaces(
    s: StateView,
    channel: Seq<char>,
    first: Seq<MessageView>,
    second: Seq<MessageView>,
)
    ensures
        s.after(EventView::History { channel_id: channel, messages: first }).after(
            EventView::History { channel_id: channel, messages: second },
        ) == s.after(EventView::History { channel_id: channel, messages: second }),
        s.after(EventView::History { channel_id: channel, messages: second }).of_channel(channel)
            == last_of(second, s.history_limit as nat),
{
    let a = last_of(first, s.history_limit as nat);
    let b = last_of(second, s.history_limit as nat);
    assert(s.messages.insert(channel, a).insert(channel, b) =~= s.messages.insert(channel, b));
}

/// The state behind the window. Each channel keeps only its last messages.
pub struct AppState {
    /// The user that is logged in.
    pub me: Option<User>,
    /// How the connection stands.
    pub conn: ConnState,
    /// The channel that is open.
    pub active_channel: Option<String>,
    /// The messages that are kept, by channel.
    pub messages: TextMap<VecDeque<Message>>,
    /// The channels that are known.
    pub channels: Vec<Channel>,
    /// The user's conversations.
    pub dms: Vec<Channel>,
    /// How channels are shown, by id.
    pub channel_names: TextMap<String>,
    /// How many messages each channel keeps.
    pub history_limit: usize,
    /// The last thing that went wrong.
    pub last_error: Option<String>,
    /// How voice stands.
    pub voice_status: Option<String>,
    /// Whether voice is up.
    pub voice_connected: bool,
}

impl View for AppState {
    type V = StateView;

    open spec fn view(&self) -> StateView {
        StateView {
            me: match self.me {
                Some(user) => Some(user@),
                None => None,
            },
            conn: self.conn,
            active_channel: option_view(self.active_channel),
            messages: self.messages@.map_values(|b: VecDeque<Message>| messages_view(b@)),
            channels: channels_view(self.channels@),
            dms: channels_view(self.dms@),
            channel_names: self.channel_names@.map_values(|s: String| s@),
            history_limit: self.history_limit,
            last_error: option_view(self.last_error),
            voice_status: option_view(self.voice_status),
            voice_connected: self.voice_connected,
        }
    }
}

fn to_deque(list: Vec<Message>) -> (r: VecDeque<Message>)
    ensures
        r@ == list@,
{
    let mut out: VecDeque<Message> = VecDeque::new();
    for m in it: list
        invariant
            out@ == it.seq().take(it.index() as int),
            it.seq() == list@,
    {
        out.push_back(m);
        assert(out@ =~= it.seq().take(it.index() as int + 1));
    }
    assert(out@ =~= list@);
    out
}

impl AppState {
    /// The maps are as they should be, and no channel keeps too much.
    pub open spec fn wf(&self) -> bool {
        self.messages.wf() && self.channel_names.wf() && self@.bounded()
    }

    /// The state at the start. A limit that is too small is raised.
    pub fn new(history_limit: usize) -> (r: AppState)
        ensures
            r.wf(),
            r@ == StateView::fresh(history_limit),
    {
        let r = AppState {
            me: None,
            conn: ConnState::Connecting,
            active_channel: None,
            messages: TextMap::new(),
            channels: Vec::new(),
            dms: Vec::new(),
            channel_names: TextMap::new(),
            history_limit: if history_limit < MIN_HISTORY {
                MIN_HISTORY
            } else {
                history_limit
            },
            last_error: None,
            voice_status: None,
            voice_connected: false,
        };
        proof {
            assert(r@.messages =~= Map::<Seq<char>, Seq<MessageView>>::empty());
            assert(r@.channel_names =~= Map::<Seq<char>, Seq<char>>::empty());
            assert(r@.channels =~= Seq::<ChannelView>::empty());
            assert(r@.dms =~= Seq::<ChannelView>::empty());
        }
        r
    }

    fn push_message(&mut self, msg: Message)
        requires
            old(self).wf(),
        ensures
            final(self).wf(),
            final(self)@ == old(self)@.with_message(msg@),
    {
        let ghost list = old(self)@.of_channel(msg@.channel_id);
        let channel = msg.channel_id.clone();
        let mut buffer: VecDeque<Message> = match self.messages.remove(channel.as_str()) {
            Some(buffer) => {
                assert(old(self)@.messages.contains_key(channel@));
                buffer
            },
            None => {
                assert(!old(self)@.messages.contains_key(channel@));
                VecDeque::new()
            },
        };
        assert(messages_view(buffer@) =~= list);
        let mut known = false;
        let mut i: usize = 0;
        while i < buffer.len() && !known
            invariant
                i <= buffer@.len(),
                messages_view(buffer@) == list,
                known == exists|k: int| 0 <= k < i && (#[trigger] list[k]).id == msg@.id,
            decreases buffer@.len() - i,
        {
            assert(list[i as int].id == buffer@[i as int]@.id);
            if same_text(buffer[i].id.as_str(), msg.id.as_str()) {
                known = true;
            }
            i = i + 1;
        }
        let ghost m = msg@;
        if !known {
            buffer.push_back(msg);
            assert(messages_view(buffer@) =~= list.push(m));
            keep_last(&mut buffer, self.history_limit);
            assert(messages_view(buffer@) =~= last_of(list.push(m), self.history_limit as nat));
        }
        self.messages.insert(channel, buffer);
        proof {
            assert(known == has_id(list, m.id));
            let want = old(self)@.with_message(m);
            if known {
                assert(old(self)@.messages.contains_key(channel@));
            }
            assert(self@.messages =~= want.messages);
            lemma_events_keep_bound(old(self)@, EventView::NewMessage(m));
        }
    }

    fn add_label(&mut self, channel: &Channel)
        requires
            old(self).wf(),
        ensures
            final(self).wf(),
            final(self)@ == (StateView {
                channel_names: old(self)@.channel_names.insert(channel@.id, channel@.label()),
                ..old(self)@
            }),
    {
        let label = channel.label();
        let ghost text = label@;
        self.channel_names.insert(channel.id.clone(), label);
        assert(self@.channel_names =~= old(self)@.channel_names.insert(channel@.id, text));
    }

    /// Brings an event into the state.
    pub fn apply(&mut self, event: AppEvent)
        requires
            old(self).wf(),
        ensures
            final(self).wf(),
            final(self)@ == old(self)@.after(event@),
    {
        match event {
            AppEvent::Ready(user) => {
                self.me = Some(user);
            },
            AppEvent::Connection(c) => {
                self.conn = c;
            },
            AppEvent::NewMessage(msg) => self.push_message(msg),
            AppEvent::History { channel_id, messages } => {
                let ghost list = messages@;
                let ghost channel = channel_id@;
                let mut buffer = to_deque(messages);
                keep_last(&mut buffer, self.history_limit);
                assert(messages_view(buffer@) =~= last_of(
                    messages_view(list),
                    self.history_limit as nat,
                ));
                self.messages.insert(channel_id, buffer);
                proof {
                    let want = old(self)@.after(event@);
                    assert(self@.messages =~= want.messages);
                    lemma_events_keep_bound(old(self)@, event@);
                }
            },
            AppEvent::Sent(msg) => self.push_message(msg),
            AppEvent::Channels(list) => {
                self.channels = list;
            },
            AppEvent::Dms(list) => {
                let ghost all = channels_view(list@);
                let mut i: usize = 0;
                assert(all.take(0) =~= Seq::<ChannelView>::empty());
                while i < list.len()
                    invariant
                        i <= list@.len(),
                        all == channels_view(list@),
                        self.wf(),
                        self@ == (StateView {
                            channel_names: with_labels(
                                old(self)@.channel_names,
                                all.take(i as int),
                            ),
                            ..old(self)@
                        }),
                    decreases list@.len() - i,
                {
                    self.add_label(&list[i]);
                    assert(all.take(i + 1).drop_last() =~= all.take(i as int));
                    i = i + 1;
                }
                assert(all.take(i as int) =~= all);
                self.dms = list;
            },
            AppEvent::ChannelInfo(c) => {
                self.add_label(&c);
                let ghost before = self@.channels;
                self.channels.push(c);
                assert(self@.channels =~= before.push(c@));
            },
            AppEvent::Error(e) => {
                self.last_error = Some(e);
            },
            AppEvent::VoiceUpdate { connected, text } => {
                self.voice_connected = connected;
                self.voice_status = Some(text);
            },
        }
    }

    /// The messages that are kept of a channel, oldest first.
    pub fn channel_messages(&self, channel_id: &str) -> (r: Vec<&Message>)
        requires
            self.wf(),
        ensures
            r@.map_values(|m: &Message| m@) == self@.of_channel(channel_id@),
    {
        let mut out: Vec<&Message> = Vec::new();
        match self.messages.get(channel_id) {
            Some(buffer) => {
                let ghost list = self@.of_channel(channel_id@);
                assert(list =~= messages_view(buffer@));
                let mut i: usize = 0;
                while i < buffer.len()
                    invariant
                        i <= buffer@.len(),
                        list == messages_view(buffer@),
                        out@.map_values(|m: &Message| m@) =~= list.take(i as int),
                    decreases buffer@.len() - i,
                {
                    let ghost before = out@;
                    let m: &Message = &buffer[i];
                    out.push(m);
                    assert(list[i as int] == m@);
                    assert(out@.map_values(|m: &Message| m@) =~= before.map_values(
                        |m: &Message| m@,
                    ).push(m@));
                    i = i + 1;
                }
                assert(list.take(i as int) =~= list);
            },
            None => {
                assert(out@.map_values(|m: &Message| m@) =~= Seq::<MessageView>::empty());
            },
        }
        out
    }
}

} // verus!

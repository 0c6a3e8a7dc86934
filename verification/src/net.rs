//! What the network does for the window, and when a voice session can start: once the
//! user asked for it and the gateway gave both the session and the server.

use vstd::prelude::*;

use crate::gateway::SignalView;
use crate::model::{option_view, VoiceStateUpdateData, VoiceStateView};
use crate::state::{Command, CommandView, VoiceControl, VoiceSignal};
use crate::text::same_text;
use crate::voice::VoiceConnInfo;

verus! {

/// How many messages of a channel are loaded.
pub const HISTORY_PAGE: u8 = 50;

/// What is to be done for an order of the window.
pub enum NetAction {
    /// Load the last messages of a channel.
    LoadHistory { channel_id: String, limit: u8 },
    /// Find out what a channel is.
    ResolveChannel { channel_id: String },
    /// Load the user's conversations.
    LoadDms,
    /// Send a message.
    SendMessage { channel_id: String, content: String },
    /// Ask the gateway for a voice channel.
    Gateway(VoiceStateUpdateData),
    /// Stop the voice session, if there is one, then ask the gateway to leave.
    StopVoice(VoiceStateUpdateData),
    /// Tell the voice session, if there is one.
    Control(VoiceControl),
    /// Forget the token and end.
    Logout,
}

/// What is to be done for an order of the window, in contracts.
pub enum NetActionView {
    LoadHistory { channel_id: Seq<char>, limit: u8 },
    ResolveChannel { channel_id: Seq<char> },
    LoadDms,
    SendMessage { channel_id: Seq<char>, content: Seq<char> },
    Gateway(VoiceStateView),
    StopVoice(VoiceStateView),
    Control(VoiceControl),
    Logout,
}

impl View for NetAction {
    type V = NetActionView;

    open spec fn view(&self) -> NetActionView {
        match *self {
            NetAction::LoadHistory { channel_id, limit } => NetActionView::LoadHistory {
                channel_id: channel_id@,
                limit,
            },
            NetAction::ResolveChannel { channel_id } => NetActionView::ResolveChannel {
                channel_id: channel_id@,
            },
            NetAction::LoadDms => NetActionView::LoadDms,
            NetAction::SendMessage { channel_id, content } => NetActionView::SendMessage {
                channel_id: channel_id@,
                content: content@,
            },
            NetAction::Gateway(v) => NetActionView::Gateway(v@),
            NetAction::StopVoice(v) => NetActionView::StopVoice(v@),
            NetAction::Control(c) => NetActionView::Control(c),
            NetAction::Logout => NetActionView::Logout,
        }
    }
}

/// What it takes to open a voice session, in contracts.
pub struct InfoView {
    pub guild_id: Seq<char>,
    pub channel_id: Seq<char>,
    pub user_id: Seq<char>,
    pub session_id: Seq<char>,
    pub endpoint: Seq<char>,
    pub token: Seq<char>,
}

impl View for VoiceConnInfo {
    type V = InfoView;

    open spec fn view(&self) -> InfoView {
        InfoView {
            guild_id: self.guild_id@,
            channel_id: self.channel_id@,
            user_id: self.user_id@,
            session_id: self.session_id@,
            endpoint: self.endpoint@,
            token: self.token@,
        }
    }
}

/// The voice channel that the user asked for, and what the gateway has said so far, in
/// contracts.
pub struct LinkView {
    pub user_id: Seq<char>,
    pub pending: Option<(Seq<char>, Seq<char>)>,
    pub session: Option<Seq<char>>,
    pub server: Option<(Seq<char>, Seq<char>, Seq<char>)>,
}

impl LinkView {
    /// The state after an order of the window.
    pub open spec fn after(self, command: CommandView) -> LinkView {
        match command {
            CommandView::JoinVoice { guild_id, channel_id } => LinkView {
                pending: Some((guild_id, channel_id)),
                session: None,
                server: None,
                ..self
            },
            CommandView::LeaveVoice { guild_id } => LinkView { pending: None, ..self },
            _ => self,
        }
    }

    /// What is to be done for an order of the window.
    pub open spec fn action(self, command: CommandView) -> NetActionView {
        match command {
            CommandView::LoadHistory { channel_id } => NetActionView::LoadHistory {
                channel_id: channel_id,
                limit: HISTORY_PAGE,
            },
            CommandView::ResolveChannel { channel_id } => NetActionView::ResolveChannel {
                channel_id: channel_id,
            },
            CommandView::LoadDms => NetActionView::LoadDms,
            CommandView::SendMessage { channel_id, content } => NetActionView::SendMessage {
                channel_id: channel_id,
                content: content,
            },
            CommandView::JoinVoice { guild_id, channel_id } => NetActionView::Gateway(
                VoiceStateView {
                    guild_id: guild_id,
                    channel_id: Some(channel_id),
                    self_mute: false,
                    self_deaf: false,
                },
            ),
            CommandView::LeaveVoice { guild_id } => NetActionView::StopVoice(
                VoiceStateView {
                    guild_id: guild_id,
                    channel_id: None,
                    self_mute: false,
                    self_deaf: false,
                },
            ),
            CommandView::VoiceMute(m) => NetActionView::Control(VoiceControl::Mute(m)),
            CommandView::VoiceDeaf(d) => NetActionView::Control(VoiceControl::Deaf(d)),
            CommandView::Logout => NetActionView::Logout,
        }
    }

    /// The state with what the gateway says. What it says of other users is passed over.
    pub open spec fn told(self, signal: SignalView) -> LinkView {
        match signal {
            SignalView::State { user_id, guild_id, channel_id, session_id } => if user_id
                == self.user_id {
                LinkView { session: Some(session_id), ..self }
            } else {
                self
            },
            SignalView::Server { guild_id, endpoint, token } => LinkView {
                server: Some(
                    (
                        guild_id,
                        match endpoint {
                            Some(e) => e,
                            None => Seq::empty(),
                        },
                        token,
                    ),
                ),
                ..self
            },
        }
    }

    /// The voice session that can start: one was asked for, the session is known, and so
    /// is the server, for the same guild and with an address.
    pub open spec fn complete(self) -> Option<InfoView> {
        match (self.pending, self.session, self.server) {
            (Some((guild_id, channel_id)), Some(session_id), Some((of, endpoint, token))) =>
                if guild_id == of && endpoint.len() > 0 {
                Some(
                    InfoView {
                        guild_id,
                        channel_id,
                        user_id: self.user_id,
                        session_id,
                        endpoint,
                        token,
                    },
                )
            } else {
                None
            },
            _ => None,
        }
    }

    /// The state once a voice session started: it takes everything it was made of.
    pub open spec fn started(self) -> LinkView {
        if self.complete() is Some {
            LinkView { pending: None, session: None, server: None, ..self }
        } else {
            self
        }
    }
}

/// The order in which the gateway gives the session and the server does not matter: either
/// way the same voice session starts, and nothing starts before both are there.
pub proof fn lemma_signal_order(s: LinkView, state: SignalView, server: SignalView)
    requires
        state is State,
        server is Server,
        s.session is None,
        s.server is None,
    ensures
        s.told(state).complete() is None,
        s.told(server).complete() is None,
        s.told(state).told(server).complete() == s.told(server).told(state).complete(),
{
}

/// Nothing starts that was not asked for, and what was asked for starts once.
pub proof fn lemma_voice_starts_once(s: LinkView, signal: SignalView)
    ensures
        s.pending is None ==> s.told(signal).complete() is None,
        s.told(signal).started().complete() is None,
{
}

/// Only what the gateway says of the user counts: the session of someone else never
/// starts voice for this client.
pub proof fn lemma_other_users_are_passed_over(s: LinkView, signal: SignalView)
    requires
        signal is State,
        signal->State_user_id != s.user_id,
    ensures
        s.told(signal) == s,
{
}

/// The voice channel that the user asked for, and what the gateway has said so far.
pub struct VoiceLink {
    user_id: String,
    pending: Option<(String, String)>,
    session: Option<String>,
    server: Option<(String, String, String)>,
}

impl View for VoiceLink {
    type V = LinkView;

    closed spec fn view(&self) -> LinkView {
        LinkView {
            user_id: self.user_id@,
            pending: match self.pending {
                Some((g, c)) => Some((g@, c@)),
                None => None,
            },
            session: option_view(self.session),
            server: match self.server {
                Some((g, e, t)) => Some((g@, e@, t@)),
                None => None,
            },
        }
    }
}

impl VoiceLink {
    /// Nothing asked for, nothing said.
    pub fn new(user_id: &str) -> (r: VoiceLink)
        ensures
            r@ == (LinkView { user_id: user_id@, pending: None, session: None, server: None }),
    {
        VoiceLink { user_id: user_id.to_owned(), pending: None, session: None, server: None }
    }

    /// What is to be done for an order of the window.
    pub fn on_command(&mut self, command: Command) -> (r: NetAction)
        ensures
            final(self)@ == old(self)@.after(command@),
            r@ == old(self)@.action(command@),
    {
        match command {
            Command::LoadHistory { channel_id } => NetAction::LoadHistory {
                channel_id,
                limit: HISTORY_PAGE,
            },
            Command::ResolveChannel { channel_id } => NetAction::ResolveChannel { channel_id },
            Command::LoadDms => NetAction::LoadDms,
            Command::SendMessage { channel_id, content } => NetAction::SendMessage {
                channel_id,
                content,
            },
            Command::JoinVoice { guild_id, channel_id } => {
                self.pending = Some((guild_id.clone(), channel_id.clone()));
                self.session = None;
                self.server = None;
                NetAction::Gateway(
                    VoiceStateUpdateData {
                        guild_id,
                        channel_id: Some(channel_id),
                        self_mute: false,
                        self_deaf: false,
                    },
                )
            },
            Command::LeaveVoice { guild_id } => {
                self.pending = None;
                NetAction::StopVoice(
                    VoiceStateUpdateData {
                        guild_id,
                        channel_id: None,
                        self_mute: false,
                        self_deaf: false,
                    },
                )
            },
            Command::VoiceMute(m) => NetAction::Control(VoiceControl::Mute(m)),
            Command::VoiceDeaf(d) => NetAction::Control(VoiceControl::Deaf(d)),
            Command::Logout => NetAction::Logout,
        }
    }

    fn is_complete(&self) -> (r: bool)
        ensures
            r == self@.complete() is Some,
    {
        match (&self.pending, &self.session, &self.server) {
            (Some(p), Some(_), Some(s)) => same_text(p.0.as_str(), s.0.as_str())
                && !s.1.as_str().is_empty(),
            _ => false,
        }
    }

    /// Takes in what the gateway says; gives the voice session that can now start, if any.
    pub fn on_signal(&mut self, signal: VoiceSignal) -> (r: Option<VoiceConnInfo>)
        ensures
            final(self)@ == old(self)@.told(signal@).started(),
            (match r {
                Some(info) => Some(info@),
                None => None,
            }) == old(self)@.told(signal@).complete(),
    {
        match signal {
            VoiceSignal::State { user_id, guild_id: _, channel_id: _, session_id } => {
                if same_text(user_id.as_str(), self.user_id.as_str()) {
                    self.session = Some(session_id);
                }
            },
            VoiceSignal::Server { guild_id, endpoint, token } => {
                let address = match endpoint {
                    Some(e) => e,
                    None => String::new(),
                };
                self.server = Some((guild_id, address, token));
            },
        }
        assert(self@ == old(self)@.told(signal@));
        if !self.is_complete() {
            return None;
        }
        let pending = self.pending.take();
        let session = self.session.take();
        let server = self.server.take();
        match (pending, session, server) {
            (
                Some((guild_id, channel_id)),
                Some(session_id),
                Some((_, endpoint, token)),
            ) => Some(
                VoiceConnInfo {
                    guild_id,
                    channel_id,
                    user_id: self.user_id.clone(),
                    session_id,
                    endpoint,
                    token,
                },
            ),
            _ => None,
        }
    }
}

} // verus!

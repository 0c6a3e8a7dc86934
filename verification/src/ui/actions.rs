//! What the user can do in the window, and what an event changes in it.

use vstd::prelude::*;

use crate::config::{target_view, without_text, Config, VoiceTarget};
use crate::laws::window::{is_last, is_missing, law_last_with_id, law_none_with_id};
use crate::model::{option_view, Channel, ChannelView};
use crate::state::{channels_view, AppEvent, Command, CommandView, EventView};
use crate::text::{
    before_char, chars_of, find_char, index_of_char, lower_text, same_text, text_of, trim_text,
    trimmed,
};
use crate::ui::{is_snowflake, matching, snowflake, UiState};

verus! {

/// The entry of a list under a line of a widget; lines are counted from one, and zero is
/// none.
pub open spec fn entry_at<T>(list: Seq<T>, line: i32) -> Option<T> {
    if 0 < line <= list.len() {
        Some(list[line - 1])
    } else {
        None
    }
}

/// The ids in a list.
pub open spec fn ids_in(list: Seq<Seq<char>>) -> Seq<Seq<char>>
    decreases list.len(),
{
    if list.len() == 0 {
        list
    } else if snowflake(list.last()) {
        ids_in(list.drop_last()).push(list.last())
    } else {
        ids_in(list.drop_last())
    }
}

proof fn lemma_ids_in_len(list: Seq<Seq<char>>)
    ensures
        ids_in(list).len() <= list.len(),
        ids_in(list).len() == list.len() ==> ids_in(list) == list,
    decreases list.len(),
{
    if list.len() > 0 {
        lemma_ids_in_len(list.drop_last());
        assert(list.drop_last().push(list.last()) =~= list);
    }
}

/// Drops what is not an id from the preferences; tells whether a followed channel went.
pub fn purge(cfg: &mut Config) -> (r: bool)
    ensures
        final(cfg).followed() == ids_in(old(cfg).followed()),
        r == (final(cfg).followed() != old(cfg).followed()),
        option_view(final(cfg).last_channel) == (match option_view(old(cfg).last_channel) {
            Some(id) => if snowflake(id) {
                Some(id)
            } else {
                None
            },
            None => None,
        }),
        final(cfg).last_voice == old(cfg).last_voice,
        final(cfg).history_limit == old(cfg).history_limit,
        final(cfg).voice == old(cfg).voice,
{
    let ghost all = cfg.followed();
    let before: usize = cfg.followed_channels.len();
    let mut kept: Vec<String> = Vec::new();
    let mut i: usize = 0;
    assert(all.take(0) =~= Seq::<Seq<char>>::empty());
    assert(kept@.map_values(|s: String| s@) =~= Seq::<Seq<char>>::empty());
    while i < cfg.followed_channels.len()
        invariant
            i <= cfg.followed_channels@.len(),
            *cfg == *old(cfg),
            all == cfg.followed(),
            kept@.map_values(|s: String| s@) == ids_in(all.take(i as int)),
        decreases cfg.followed_channels@.len() - i,
    {
        assert(all.take(i + 1).drop_last() =~= all.take(i as int));
        assert(all.take(i + 1).last() == cfg.followed_channels@[i as int]@);
        if is_snowflake(cfg.followed_channels[i].as_str()) {
            let ghost was = kept@;
            kept.push(cfg.followed_channels[i].clone());
            assert(kept@.map_values(|s: String| s@) =~= was.map_values(|s: String| s@).push(
                cfg.followed_channels@[i as int]@,
            ));
        }
        i = i + 1;
    }
    assert(all.take(i as int) =~= all);
    proof {
        lemma_ids_in_len(all);
        assert(kept@.map_values(|s: String| s@).len() == kept@.len());
    }
    let gone = kept.len() != before;
    cfg.followed_channels = kept;
    let bad = match &cfg.last_channel {
        Some(id) => !is_snowflake(id.as_str()),
        None => false,
    };
    if bad {
        cfg.last_channel = None;
    }
    gone
}

/// The channel to open at the start: the one that was open last, or else the first one
/// that is followed.
pub open spec fn initial_channel(cfg: Config) -> Option<Seq<char>> {
    match option_view(cfg.last_channel) {
        Some(id) => Some(id),
        None => if cfg.followed().len() > 0 {
            Some(cfg.followed()[0])
        } else {
            None
        },
    }
}

/// What became of the wish to follow a channel.
pub enum Follow {
    /// Nothing was entered.
    Nothing,
    /// What was entered is not an id.
    NotAnId,
    /// The channel is followed already.
    Already,
    /// The channel with this id is followed now.
    Added(String),
}

/// What became of the wish to follow a channel, in contracts.
pub enum FollowView {
    Nothing,
    NotAnId,
    Already,
    Added(Seq<char>),
}

impl View for Follow {
    type V = FollowView;

    open spec fn view(&self) -> FollowView {
        match *self {
            Follow::Nothing => FollowView::Nothing,
            Follow::NotAnId => FollowView::NotAnId,
            Follow::Already => FollowView::Already,
            Follow::Added(id) => FollowView::Added(id@),
        }
    }
}

/// What following the channel that was entered comes to.
pub open spec fn follow_result(followed: Seq<Seq<char>>, input: Seq<char>) -> FollowView {
    let id = trimmed(input);
    if id.len() == 0 {
        FollowView::Nothing
    } else if !snowflake(id) {
        FollowView::NotAnId
    } else if followed.contains(id) {
        FollowView::Already
    } else {
        FollowView::Added(id)
    }
}

/// What the wish to join voice comes to: what the user is told, and whether a channel is
/// joined.
pub struct VoicePrompt {
    /// What the user is told.
    pub status: &'static str,
    /// The order, if there is one.
    pub command: Option<Command>,
}

/// What the wish to join voice comes to, in contracts.
pub struct PromptView {
    pub status: Seq<char>,
    pub command: Option<CommandView>,
}

impl View for VoicePrompt {
    type V = PromptView;

    open spec fn view(&self) -> PromptView {
        PromptView {
            status: self.status@,
            command: match self.command {
                Some(c) => Some(c@),
                None => None,
            },
        }
    }
}

/// The user is told something and nothing is joined.
pub open spec fn told(status: Seq<char>) -> PromptView {
    PromptView { status, command: None }
}

/// A voice channel is joined.
pub open spec fn joining(
    status: Seq<char>,
    guild_id: Seq<char>,
    channel_id: Seq<char>,
) -> PromptView {
    PromptView { status, command: Some(CommandView::JoinVoice { guild_id, channel_id }) }
}

/// The last channel of a list with the id.
pub open spec fn last_with_id(list: Seq<ChannelView>, id: Seq<char>) -> Option<ChannelView>
    decreases list.len(),
{
    if list.len() == 0 {
        None
    } else if list.last().id == id {
        Some(list.last())
    } else {
        last_with_id(list.drop_last(), id)
    }
}

/// What a double click on a followed channel comes to: a voice channel whose server is
/// known is joined.
pub open spec fn click_result(channels: Seq<ChannelView>, id: Seq<char>) -> PromptView {
    match last_with_id(channels, id) {
        None => told("voz: canal aún sin resolver; reintenta"@),
        Some(c) => if !c.is_voice() {
            told("voz: ese canal no es de voz (🔊)"@)
        } else {
            match c.guild_id {
                Some(guild_id) => joining("voz: conectando…"@, guild_id, id),
                None => told("voz: resolviendo el canal; reintenta en 1 s"@),
            }
        },
    }
}

/// What the ids that were entered by hand come to.
pub open spec fn join_result(guild: Seq<char>, channel: Seq<char>) -> PromptView {
    let g = trimmed(guild);
    let c = trimmed(channel);
    if g.len() == 0 || c.len() == 0 {
        told("voz: pon ID de servidor y de canal de voz"@)
    } else if !snowflake(g) || !snowflake(c) {
        told("voz: usa IDs numéricos (Modo desarrollador → Copiar ID)"@)
    } else {
        joining("voz: conectando…"@, g, c)
    }
}

/// The voice channel that is remembered after one was joined, or was not.
pub open spec fn remembered(before: Option<(Seq<char>, Seq<char>)>, prompt: PromptView) -> Option<
    (Seq<char>, Seq<char>),
> {
    match prompt.command {
        Some(CommandView::JoinVoice { guild_id, channel_id }) => Some((guild_id, channel_id)),
        _ => before,
    }
}

/// Which parts of the window an event touches.
#[derive(Clone, Copy, Debug, PartialEq, Eq, Structural)]
pub struct Refresh {
    /// The list of channels.
    pub channels: bool,
    /// The list of conversations.
    pub dms: bool,
    /// The title and the details.
    pub views: bool,
    /// The line about voice.
    pub voice: bool,
    /// The messages.
    pub messages: bool,
}

/// Whether an event is about the open channel.
pub open spec fn about_active(event: EventView, active: Option<Seq<char>>) -> bool {
    match event {
        EventView::NewMessage(m) => active == Some(m.channel_id),
        EventView::Sent(m) => active == Some(m.channel_id),
        EventView::History { channel_id, messages } => active == Some(channel_id),
        _ => false,
    }
}

/// Which parts of the window an event touches.
pub open spec fn refresh_of(event: EventView, active: Option<Seq<char>>) -> Refresh {
    Refresh {
        channels: event is ChannelInfo,
        dms: event is Dms,
        views: event is ChannelInfo || event is Dms || about_active(event, active),
        voice: event is VoiceUpdate,
        messages: about_active(event, active),
    }
}

fn is_text(a: &Option<String>, b: &str) -> (r: bool)
    ensures
        r == (option_view(*a) == Some(b@)),
{
    match a {
        Some(a) => same_text(a.as_str(), b),
        None => false,
    }
}

fn find_last<'a>(list: &'a Vec<Channel>, id: &str) -> (r: Option<&'a Channel>)
    ensures
        (match r {
            Some(c) => Some(c@),
            None => None,
        }) == last_with_id(channels_view(list@), id@),
{
    let ghost all = channels_view(list@);
    let mut i: usize = list.len();
    assert(all.take(i as int) =~= all);
    while i > 0
        invariant
            i <= list@.len(),
            all == channels_view(list@),
            last_with_id(all, id@) == last_with_id(all.take(i as int), id@),
        decreases i,
    {
        assert(all.take(i as int).drop_last() =~= all.take(i - 1));
        assert(all.take(i as int).last() == list@[i - 1]@);
        i = i - 1;
        if same_text(list[i].id.as_str(), id) {
            return Some(&list[i]);
        }
    }
    None
}

/// A channel that is found has the id, is in the list, and no later one has the id; none is
/// found only where no channel has it.
proof fn lemma_find_last(list: &Vec<Channel>, id: &str, r: Option<&Channel>, j: int)
    requires
        call_ensures(find_last, (list, id), r),
    ensures
        is_last(list@, id@, j) ==> r is Some && r->Some_0@ == list@[j]@,
        r is None <==> is_missing(list@, id@),
        r is Some ==> r->Some_0@.id == id@,
        r is Some ==> exists|k: int| is_last(list@, id@, k) && r->Some_0@ == (#[trigger] list@[k])@,
{
    let views = channels_view(list@);
    law_none_with_id(views, id@);
    if is_missing(list@, id@) {
        assert forall|k: int| 0 <= k < views.len() implies (#[trigger] views[k]).id != id@ by {
            assert(views[k] == list@[k]@);
        }
    } else {
        let k = lemma_some_last(list@, id@);
        assert(views[k] == list@[k]@);
        assert forall|i: int| k < i < views.len() implies (#[trigger] views[i]).id != id@ by {
            assert(views[i] == list@[i]@);
        }
        law_last_with_id(views, id@, k);
        if is_last(list@, id@, j) {
            assert(j == k);
        }
    }
}

proof fn lemma_some_last(list: Seq<Channel>, id: Seq<char>) -> (k: int)
    requires
        !is_missing(list, id),
    ensures
        is_last(list, id, k),
    decreases list.len(),
{
    let n = list.len() - 1;
    if list[n].id@ == id {
        n
    } else {
        let front = list.drop_last();
        if is_missing(front, id) {
            assert forall|i: int| 0 <= i < list.len() implies (#[trigger] list[i]).id@ != id by {
                if i < n {
                    assert(front[i] == list[i]);
                }
            }
        }
        let k = lemma_some_last(front, id);
        assert forall|i: int| k < i < list.len() implies (#[trigger] list[i]).id@ != id by {
            if i < n {
                assert(front[i] == list[i]);
            }
        }
        k
    }
}

fn text_at(list: &Vec<String>, line: i32) -> (r: Option<String>)
    ensures
        option_view(r) == entry_at(list@.map_values(|s: String| s@), line),
{
    if line <= 0 {
        return None;
    }
    let i: usize = (line - 1) as usize;
    if i < list.len() {
        Some(list[i].clone())
    } else {
        None
    }
}

/// The label of the button for the microphone.
pub fn mute_label(muted: bool) -> (r: &'static str)
    ensures
        r@ == (if muted {
            "🎙 Mic: OFF"@
        } else {
            "🎙 Mic: ON"@
        }),
{
    if muted {
        "🎙 Mic: OFF"
    } else {
        "🎙 Mic: ON"
    }
}

/// The label of the button for the speaker.
pub fn deaf_label(deafened: bool) -> (r: &'static str)
    ensures
        r@ == (if deafened {
            "🔊 Salida: OFF"@
        } else {
            "🔊 Salida: ON"@
        }),
{
    if deafened {
        "🔊 Salida: OFF"
    } else {
        "🔊 Salida: ON"
    }
}

/// The order to leave the voice channel of the server that was entered.
pub fn leave_voice(guild: &str) -> (r: Option<Command>)
    ensures
        (match r {
            Some(c) => Some(c@),
            None => None,
        }) == (if trimmed(guild@).len() == 0 {
            None
        } else {
            Some(CommandView::LeaveVoice { guild_id: trimmed(guild@) })
        }),
{
    let guild_id = trim_text(guild);
    if guild_id.as_str().is_empty() {
        None
    } else {
        Some(Command::LeaveVoice { guild_id })
    }
}

/// The order to join the voice channel in a text of the form `server:channel`.
pub fn autojoin(spec: &str) -> (r: Option<Command>)
    ensures
        (match r {
            Some(c) => Some(c@),
            None => None,
        }) == (if spec@.contains(':') {
            Some(
                CommandView::JoinVoice {
                    guild_id: trimmed(before_char(spec@, ':')),
                    channel_id: trimmed(spec@.skip(index_of_char(spec@, ':') + 1)),
                },
            )
        } else {
            None
        }),
{
    let chars = chars_of(spec);
    let at: usize = find_char(&chars, 0, ':');
    proof {
        assert(chars@.skip(0) =~= spec@);
        lemma_found(spec@, ':');
    }
    if at == chars.len() {
        return None;
    }
    let guild = text_of(&chars, 0, at);
    let channel = text_of(&chars, at + 1, chars.len());
    assert(guild@ =~= before_char(spec@, ':'));
    assert(channel@ =~= spec@.skip(at + 1));
    Some(
        Command::JoinVoice {
            guild_id: trim_text(guild.as_str()),
            channel_id: trim_text(channel.as_str()),
        },
    )
}

proof fn lemma_found(s: Seq<char>, c: char)
    ensures
        0 <= index_of_char(s, c) <= s.len(),
        s.contains(c) == (index_of_char(s, c) < s.len()),
    decreases s.len(),
{
    if s.len() > 0 {
        let rest = s.drop_first();
        lemma_found(rest, c);
        if s[0] == c {
            assert(s.contains(c));
        } else {
            if rest.contains(c) {
                let i = choose|i: int| 0 <= i < rest.len() && rest[i] == c;
                assert(s[i + 1] == c);
            }
            if s.contains(c) {
                let i = choose|i: int| 0 <= i < s.len() && s[i] == c;
                assert(rest[i - 1] == c);
            }
        }
    }
}

impl UiState {
    /// What is asked of the network at the start: the messages and the name of each
    /// followed channel, then the conversations.
    pub fn startup_commands(&self) -> (r: Vec<Command>)
        ensures
            r@.len() == 2 * self.cfg.followed().len() + 1,
            forall|i: int|
                0 <= i < self.cfg.followed().len() ==> (#[trigger] r@[2 * i])@ == (
                CommandView::LoadHistory { channel_id: self.cfg.followed()[i] }),
            forall|i: int|
                0 <= i < self.cfg.followed().len() ==> (#[trigger] r@[2 * i + 1])@ == (
                CommandView::ResolveChannel { channel_id: self.cfg.followed()[i] }),
            r@.last()@ == CommandView::LoadDms,
    {
        let mut out: Vec<Command> = Vec::new();
        let mut i: usize = 0;
        while i < self.cfg.followed_channels.len()
            invariant
                i <= self.cfg.followed_channels@.len(),
                out@.len() == 2 * i,
                forall|k: int|
                    0 <= k < i ==> (#[trigger] out@[2 * k])@ == (CommandView::LoadHistory {
                        channel_id: self.cfg.followed()[k],
                    }),
                forall|k: int|
                    0 <= k < i ==> (#[trigger] out@[2 * k + 1])@ == (
                    CommandView::ResolveChannel { channel_id: self.cfg.followed()[k] }),
            decreases self.cfg.followed_channels@.len() - i,
        {
            let ghost was = out@;
            let id = self.cfg.followed_channels[i].clone();
            out.push(Command::LoadHistory { channel_id: id });
            out.push(Command::ResolveChannel { channel_id: self.cfg.followed_channels[i].clone() });
            assert(out@[2 * i as int]@ == (CommandView::LoadHistory {
                channel_id: self.cfg.followed()[i as int],
            }));
            i = i + 1;
        }
        out.push(Command::LoadDms);
        out
    }

    /// Opens the channel that was open last, or else the first one that is followed; gives
    /// its place in the list of followed channels.
    pub fn open_initial(&mut self) -> (r: Option<usize>)
        ensures
            final(self).app == old(self).app,
            final(self).cfg == old(self).cfg,
            final(self).dm_filter == old(self).dm_filter,
            option_view(final(self).active) == (match initial_channel(old(self).cfg) {
                Some(id) => Some(id),
                None => option_view(old(self).active),
            }),
            match r {
                Some(i) => {
                    &&& i < old(self).cfg.followed().len()
                    &&& initial_channel(old(self).cfg) == Some(old(self).cfg.followed()[i as int])
                    &&& forall|k: int|
                        0 <= k < i ==> Some(#[trigger] old(self).cfg.followed()[k])
                            != initial_channel(old(self).cfg)
                },
                None => initial_channel(old(self).cfg) is None || !old(self).cfg.followed().contains(initial_channel(old(self).cfg)->Some_0),
            },
    {
        let initial: Option<String> = match &self.cfg.last_channel {
            Some(id) => Some(id.clone()),
            None => if self.cfg.followed_channels.len() > 0 {
                Some(self.cfg.followed_channels[0].clone())
            } else {
                None
            },
        };
        let id = match initial {
            Some(id) => id,
            None => {
                return None;
            },
        };
        let mut place: Option<usize> = None;
        let mut i: usize = 0;
        while i < self.cfg.followed_channels.len() && place.is_none()
            invariant
                i <= self.cfg.followed_channels@.len(),
                *self == *old(self),
                place is None ==> forall|k: int| 0 <= k < i ==> self.cfg.followed()[k] != id@,
                place is Some ==> {
                    &&& place->Some_0 < self.cfg.followed().len()
                    &&& self.cfg.followed()[place->Some_0 as int] == id@
                    &&& forall|k: int| 0 <= k < place->Some_0 ==> self.cfg.followed()[k] != id@
                },
            decreases self.cfg.followed_channels@.len() - i,
        {
            if same_text(self.cfg.followed_channels[i].as_str(), id.as_str()) {
                place = Some(i);
            }
            i = i + 1;
        }
        assert(self.cfg.followed().len() == self.cfg.followed_channels@.len());
        self.active = Some(id);
        place
    }

    /// Follows the channel that was entered.
    pub fn on_follow(&mut self, input: &str) -> (r: Follow)
        ensures
            r@ == follow_result(old(self).cfg.followed(), input@),
            final(self).cfg.followed() == (match follow_result(old(self).cfg.followed(), input@) {
                FollowView::Added(id) => old(self).cfg.followed().push(id),
                _ => old(self).cfg.followed(),
            }),
            final(self).app == old(self).app,
            final(self).active == old(self).active,
            final(self).dm_filter == old(self).dm_filter,
            final(self).cfg.last_channel == old(self).cfg.last_channel,
            final(self).cfg.last_voice == old(self).cfg.last_voice,
            final(self).cfg.history_limit == old(self).cfg.history_limit,
            final(self).cfg.voice == old(self).cfg.voice,
    {
        let id = trim_text(input);
        if id.as_str().is_empty() {
            return Follow::Nothing;
        }
        if !is_snowflake(id.as_str()) {
            return Follow::NotAnId;
        }
        let before: usize = self.cfg.followed_channels.len();
        self.cfg.follow(id.clone());
        assert(self.cfg.followed().len() == self.cfg.followed_channels@.len());
        assert(old(self).cfg.followed().len() == before);
        if self.cfg.followed_channels.len() == before {
            return Follow::Already;
        }
        Follow::Added(id)
    }

    /// Gives up the channel under a line; tells whether there was one. If it was open, no
    /// channel is open any more.
    pub fn on_unfollow(&mut self, line: i32) -> (r: bool)
        ensures
            final(self).app == old(self).app,
            final(self).dm_filter == old(self).dm_filter,
            final(self).cfg.last_voice == old(self).cfg.last_voice,
            final(self).cfg.history_limit == old(self).cfg.history_limit,
            final(self).cfg.voice == old(self).cfg.voice,
            match entry_at(old(self).cfg.followed(), line) {
                Some(id) => {
                    &&& r
                    &&& final(self).cfg.followed() == without_text(old(self).cfg.followed(), id)
                    &&& option_view(final(self).active) == (if option_view(old(self).active)
                        == Some(id) {
                        None::<Seq<char>>
                    } else {
                        option_view(old(self).active)
                    })
                    &&& option_view(final(self).cfg.last_channel) == (if option_view(
                        old(self).cfg.last_channel,
                    ) == Some(id) {
                        None::<Seq<char>>
                    } else {
                        option_view(old(self).cfg.last_channel)
                    })
                },
                None => !r && *final(self) == *old(self),
            },
    {
        let id = match text_at(&self.cfg.followed_channels, line) {
            Some(id) => id,
            None => {
                return false;
            },
        };
        self.cfg.unfollow(id.as_str());
        if is_text(&self.active, id.as_str()) {
            self.active = None;
        }
        true
    }

    fn open_channel(&mut self, id: String) -> (r: Command)
        ensures
            final(self).app == old(self).app,
            final(self).dm_filter == old(self).dm_filter,
            final(self).cfg.followed() == old(self).cfg.followed(),
            final(self).cfg.last_voice == old(self).cfg.last_voice,
            final(self).cfg.history_limit == old(self).cfg.history_limit,
            final(self).cfg.voice == old(self).cfg.voice,
            option_view(final(self).active) == Some(id@),
            option_view(final(self).cfg.last_channel) == Some(id@),
            r@ == (CommandView::LoadHistory { channel_id: id@ }),
    {
        self.active = Some(id.clone());
        self.cfg.last_channel = Some(id.clone());
        Command::LoadHistory { channel_id: id }
    }

    /// Opens the channel under a line of the list of followed channels; gives the order to
    /// load its messages.
    pub fn on_select(&mut self, line: i32) -> (r: Option<Command>)
        ensures
            final(self).app == old(self).app,
            final(self).dm_filter == old(self).dm_filter,
            final(self).cfg.followed() == old(self).cfg.followed(),
            final(self).cfg.last_voice == old(self).cfg.last_voice,
            final(self).cfg.history_limit == old(self).cfg.history_limit,
            final(self).cfg.voice == old(self).cfg.voice,
            match entry_at(old(self).cfg.followed(), line) {
                Some(id) => {
                    &&& r is Some
                    &&& r->Some_0@ == (CommandView::LoadHistory { channel_id: id })
                    &&& option_view(final(self).active) == Some(id)
                    &&& option_view(final(self).cfg.last_channel) == Some(id)
                },
                None => r is None && *final(self) == *old(self),
            },
    {
        match text_at(&self.cfg.followed_channels, line) {
            Some(id) => Some(self.open_channel(id)),
            None => None,
        }
    }

    /// Opens the conversation under a line of the list of those that match what is looked
    /// for; gives the order to load its messages.
    pub fn on_select_dm(&mut self, line: i32) -> (r: Option<Command>)
        ensures
            final(self).app == old(self).app,
            final(self).dm_filter == old(self).dm_filter,
            final(self).cfg.followed() == old(self).cfg.followed(),
            final(self).cfg.last_voice == old(self).cfg.last_voice,
            final(self).cfg.history_limit == old(self).cfg.history_limit,
            final(self).cfg.voice == old(self).cfg.voice,
            match entry_at(
                matching(old(self).app@.dms, lower_text(trimmed(old(self).dm_filter@))),
                line,
            ) {
                Some(c) => {
                    &&& r is Some
                    &&& r->Some_0@ == (CommandView::LoadHistory { channel_id: c.id })
                    &&& option_view(final(self).active) == Some(c.id)
                    &&& option_view(final(self).cfg.last_channel) == Some(c.id)
                },
                None => r is None && *final(self) == *old(self),
            },
    {
        if line <= 0 {
            return None;
        }
        let i: usize = (line - 1) as usize;
        let list = self.filtered_dms();
        assert(list@.map_values(|c: &Channel| c@).len() == list@.len());
        if i >= list.len() {
            return None;
        }
        let c: &Channel = list[i];
        assert(list@.map_values(|c: &Channel| c@)[i as int] == c@);
        let id = c.id.clone();
        Some(self.open_channel(id))
    }

    fn join_remembered(&mut self, status: &'static str, guild_id: String, channel_id: String) -> (r:
        VoicePrompt)
        ensures
            final(self).app == old(self).app,
            final(self).active == old(self).active,
            final(self).dm_filter == old(self).dm_filter,
            final(self).cfg.followed_channels == old(self).cfg.followed_channels,
            final(self).cfg.last_channel == old(self).cfg.last_channel,
            final(self).cfg.history_limit == old(self).cfg.history_limit,
            final(self).cfg.voice == old(self).cfg.voice,
            target_view(final(self).cfg.last_voice) == Some((guild_id@, channel_id@)),
            r@ == joining(status@, guild_id@, channel_id@),
    {
        self.cfg.last_voice = Some(
            VoiceTarget { guild_id: guild_id.clone(), channel_id: channel_id.clone() },
        );
        VoicePrompt { status, command: Some(Command::JoinVoice { guild_id, channel_id }) }
    }

    /// A double click on the channel under a line: a voice channel is joined and
    /// remembered. A line without a channel is not for this.
    pub fn on_voice_click(&mut self, line: i32) -> (r: Option<VoicePrompt>)
        ensures
            final(self).app == old(self).app,
            final(self).active == old(self).active,
            final(self).dm_filter == old(self).dm_filter,
            final(self).cfg.followed_channels == old(self).cfg.followed_channels,
            final(self).cfg.last_channel == old(self).cfg.last_channel,
            final(self).cfg.history_limit == old(self).cfg.history_limit,
            final(self).cfg.voice == old(self).cfg.voice,
            match entry_at(old(self).cfg.followed(), line) {
                Some(id) => {
                    let result = click_result(old(self).app@.channels, id);
                    &&& r is Some
                    &&& r->Some_0@ == result
                    &&& target_view(final(self).cfg.last_voice) == remembered(
                        target_view(old(self).cfg.last_voice),
                        result,
                    )
                },
                None => r is None && *final(self) == *old(self),
            },
    {
        let id = match text_at(&self.cfg.followed_channels, line) {
            Some(id) => id,
            None => {
                return None;
            },
        };
        let guild_id: String = match find_last(&self.app.channels, id.as_str()) {
            None => {
                return Some(
                    VoicePrompt { status: "voz: canal aún sin resolver; reintenta", command: None },
                );
            },
            Some(c) => {
                if !c.is_voice() {
                    return Some(
                        VoicePrompt { status: "voz: ese canal no es de voz (🔊)", command: None },
                    );
                }
                match &c.guild_id {
                    Some(g) => g.clone(),
                    None => {
                        return Some(
                            VoicePrompt {
                                status: "voz: resolviendo el canal; reintenta en 1 s",
                                command: None,
                            },
                        );
                    },
                }
            },
        };
        Some(self.join_remembered("voz: conectando…", guild_id, id))
    }

    /// Joins the voice channel whose ids were entered, and remembers it.
    pub fn on_join(&mut self, guild: &str, channel: &str) -> (r: VoicePrompt)
        ensures
            final(self).app == old(self).app,
            final(self).active == old(self).active,
            final(self).dm_filter == old(self).dm_filter,
            final(self).cfg.followed_channels == old(self).cfg.followed_channels,
            final(self).cfg.last_channel == old(self).cfg.last_channel,
            final(self).cfg.history_limit == old(self).cfg.history_limit,
            final(self).cfg.voice == old(self).cfg.voice,
            r@ == join_result(guild@, channel@),
            target_view(final(self).cfg.last_voice) == remembered(
                target_view(old(self).cfg.last_voice),
                r@,
            ),
    {
        let g = trim_text(guild);
        let c = trim_text(channel);
        if g.as_str().is_empty() || c.as_str().is_empty() {
            return VoicePrompt {
                status: "voz: pon ID de servidor y de canal de voz",
                command: None,
            };
        }
        if !is_snowflake(g.as_str()) || !is_snowflake(c.as_str()) {
            return VoicePrompt {
                status: "voz: usa IDs numéricos (Modo desarrollador → Copiar ID)",
                command: None,
            };
        }
        self.join_remembered("voz: conectando…", g, c)
    }

    /// Joins the voice channel that was joined last.
    pub fn on_rejoin(&self) -> (r: VoicePrompt)
        ensures
            r@ == (match target_view(self.cfg.last_voice) {
                Some((guild_id, channel_id)) => joining(
                    "voz: reuniéndote al último canal…"@,
                    guild_id,
                    channel_id,
                ),
                None => told("voz: aún no hay último canal; únete una vez y se recordará"@),
            }),
    {
        match &self.cfg.last_voice {
            Some(v) => VoicePrompt {
                status: "voz: reuniéndote al último canal…",
                command: Some(
                    Command::JoinVoice {
                        guild_id: v.guild_id.clone(),
                        channel_id: v.channel_id.clone(),
                    },
                ),
            },
            None => VoicePrompt {
                status: "voz: aún no hay último canal; únete una vez y se recordará",
                command: None,
            },
        }
    }

    /// The order to send what was entered to the open channel; none where there is nothing
    /// to send or nowhere to send it.
    pub fn compose(&self, input: &str) -> (r: Option<Command>)
        ensures
            (match r {
                Some(c) => Some(c@),
                None => None,
            }) == (match option_view(self.active) {
                Some(channel_id) => if trimmed(input@).len() > 0 {
                    Some(CommandView::SendMessage { channel_id, content: trimmed(input@) })
                } else {
                    None
                },
                None => None,
            }),
    {
        let content = trim_text(input);
        if content.as_str().is_empty() {
            return None;
        }
        match &self.active {
            Some(id) => Some(Command::SendMessage { channel_id: id.clone(), content }),
            None => None,
        }
    }

    /// Brings an event into the window, and says which parts of it change.
    pub fn handle_event(&mut self, event: AppEvent) -> (r: Refresh)
        requires
            old(self).wf(),
        ensures
            final(self).wf(),
            final(self).app@ == old(self).app@.after(event@),
            final(self).active == old(self).active,
            final(self).cfg == old(self).cfg,
            final(self).dm_filter == old(self).dm_filter,
            r == refresh_of(event@, option_view(old(self).active)),
    {
        let about = match &event {
            AppEvent::NewMessage(m) => is_text(&self.active, m.channel_id.as_str()),
            AppEvent::Sent(m) => is_text(&self.active, m.channel_id.as_str()),
            AppEvent::History { channel_id, messages: _ } => is_text(
                &self.active,
                channel_id.as_str(),
            ),
            _ => false,
        };
        let voice = match &event {
            AppEvent::VoiceUpdate { connected: _, text: _ } => true,
            _ => false,
        };
        let channels = match &event {
            AppEvent::ChannelInfo(_) => true,
            _ => false,
        };
        let dms = match &event {
            AppEvent::Dms(_) => true,
            _ => false,
        };
        self.app.apply(event);
        Refresh { channels, dms, views: channels || dms || about, voice, messages: about }
    }
}

} // verus!

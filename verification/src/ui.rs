//! What the window shows: the labels, the titles, the messages of the open channel and
//! the panel with its details.

use vstd::prelude::*;

use crate::config::Config;
use crate::model::{option_view, Channel, ChannelView, Message, MessageView, UserView};
use crate::state::{channels_view, has_id, AppState, ConnState, EventView, StateView};
use crate::text::{
    all_digits, chars_of, concat2, concat3, contains_text, decimal, decimal_text, holds, is_digit,
    joined, lower_text, same_text, to_lowercase, trim_text, trimmed,
};
use crate::ui::actions::refresh_of;

pub mod actions;
pub mod login;
pub mod settings;

verus! {

/// What the window knows.
pub struct UiState {
    /// The state that the network fills.
    pub app: AppState,
    /// The channel that is open.
    pub active: Option<String>,
    /// The preferences.
    pub cfg: Config,
    /// What is looked for among the conversations.
    pub dm_filter: String,
}

/// An id: sixteen to twenty digits.
pub open spec fn snowflake(s: Seq<char>) -> bool {
    16 <= s.len() <= 20 && all_digits(s)
}

/// Tells whether a text is an id.
pub fn is_snowflake(s: &str) -> (r: bool)
    ensures
        r == snowflake(s@),
{
    let chars = chars_of(s);
    let mut i: usize = 0;
    while i < chars.len()
        invariant
            i <= chars@.len(),
            chars@ == s@,
            forall|k: int| 0 <= k < i ==> is_digit(#[trigger] s@[k]),
        decreases chars@.len() - i,
    {
        if chars[i] < '0' || chars[i] > '9' {
            assert(!is_digit(s@[i as int]));
            return false;
        }
        i = i + 1;
    }
    16 <= chars.len() && chars.len() <= 20
}

/// How a channel without a name is shown.
pub open spec fn id_label(id: Seq<char>) -> Seq<char> {
    "# "@ + id
}

/// How a channel without a name is shown.
pub fn channel_label(id: &str) -> (r: String)
    ensures
        r@ == id_label(id@),
{
    concat2("# ", id)
}

/// How a channel is shown: by its name where it is known, otherwise by its id.
pub open spec fn label_of(app: StateView, id: Seq<char>) -> Seq<char> {
    if app.channel_names.contains_key(id) {
        app.channel_names[id]
    } else {
        id_label(id)
    }
}

/// The sign and the text for a connection.
pub open spec fn conn_text(c: ConnState) -> Seq<char> {
    (match c {
        ConnState::Connected => "🟢"@,
        ConnState::Connecting => "🟡"@,
        ConnState::Reconnecting => "🟡"@,
        ConnState::Offline => "🔴"@,
    }) + " "@ + c.label_text()
}

/// The sign and the text for a connection.
pub fn conn_icon(c: ConnState) -> (r: String)
    ensures
        r@ == conn_text(c),
{
    let dot = match c {
        ConnState::Connected => "🟢",
        ConnState::Connecting => "🟡",
        ConnState::Reconnecting => "🟡",
        ConnState::Offline => "🔴",
    };
    concat3(dot, " ", c.label())
}

/// The text of a message, or a remark that there is none.
pub open spec fn content_text(m: MessageView) -> Seq<char> {
    if m.content.len() == 0 {
        "(sin texto)"@
    } else {
        m.content
    }
}

/// The text of a message, or a remark that there is none.
pub fn render_content(m: &Message) -> (r: String)
    ensures
        r@ == content_text(m@),
{
    if m.content.as_str().is_empty() {
        "(sin texto)".to_owned()
    } else {
        m.content.clone()
    }
}

/// The messages as lines: who, and what.
pub open spec fn message_lines(messages: Seq<MessageView>) -> Seq<char>
    decreases messages.len(),
{
    if messages.len() == 0 {
        Seq::empty()
    } else {
        message_lines(messages.drop_last()) + messages.last().author_name() + ": "@ + content_text(
            messages.last(),
        ) + "\n"@
    }
}

/// The conversations whose name holds the text, both in lower case; all of them for an
/// empty text.
pub open spec fn matches_filter(c: ChannelView, filter: Seq<char>) -> bool {
    filter.len() == 0 || holds(lower_text(c.label()), filter)
}

/// The channels of a list that match, in order.
pub open spec fn matching(list: Seq<ChannelView>, filter: Seq<char>) -> Seq<ChannelView>
    decreases list.len(),
{
    if list.len() == 0 {
        list
    } else if matches_filter(list.last(), filter) {
        matching(list.drop_last(), filter).push(list.last())
    } else {
        matching(list.drop_last(), filter)
    }
}

/// The first channel of a list with the id.
pub open spec fn first_with_id(list: Seq<ChannelView>, id: Seq<char>) -> Option<ChannelView>
    decreases list.len(),
{
    if list.len() == 0 {
        None
    } else if list[0].id == id {
        Some(list[0])
    } else {
        first_with_id(list.drop_first(), id)
    }
}

/// What a channel is, in words.
pub open spec fn kind_text(c: ChannelView) -> Seq<char> {
    if c.is_voice() {
        "Canal de voz"@
    } else if c.is_dm() {
        "Mensaje directo"@
    } else {
        "Canal de texto"@
    }
}

/// The lines about what a channel is.
pub open spec fn kind_details(c: ChannelView) -> Seq<char> {
    "\nTipo:\n  "@ + kind_text(c) + "\n"@
}

/// The lines about the server of a channel, where it has one.
pub open spec fn server_details(c: ChannelView) -> Seq<char> {
    match c.guild_id {
        Some(g) => "\nServidor:\n  "@ + g + "\n"@,
        None => Seq::empty(),
    }
}

/// The lines about who takes part in a conversation, where anybody does.
pub open spec fn people_details(c: ChannelView) -> Seq<char> {
    if c.recipients.len() > 0 {
        "\nParticipantes:\n  "@ + joined(
            c.recipients.map_values(|u: UserView| u.name()),
            "\n  "@,
        ) + "\n"@
    } else {
        Seq::empty()
    }
}

/// What is known of a channel: what it is, its server and who takes part.
pub open spec fn channel_details(c: ChannelView) -> Seq<char> {
    kind_details(c) + server_details(c) + people_details(c)
}

/// The details of the open channel.
pub open spec fn details(app: StateView, active: Option<Seq<char>>) -> Seq<char> {
    match active {
        None =>
            "Sin conversación activa.\n\nElige un canal o un mensaje directo para ver sus datos aquí."@,
        Some(id) => {
            let head = "Nombre:\n  "@ + label_of(app, id) + "\n\nID del canal:\n  "@ + id + "\n"@;
            let known = match first_with_id(app.dms + app.channels, id) {
                Some(c) => channel_details(c),
                None => Seq::empty(),
            };
            head + known + ("\nMensajes cargados:\n  "@ + decimal(app.of_channel(id).len()) + "\n"@)
        },
    }
}

/// The status line: the last error, or the connection and the user.
pub open spec fn status_text(error: Option<Seq<char>>, app: StateView) -> Seq<char> {
    match error {
        Some(e) => "⚠ "@ + e,
        None => match app.me {
            Some(user) => if user.name().len() > 0 {
                conn_text(app.conn) + " — "@ + user.name()
            } else {
                app.conn.label_text()
            },
            None => app.conn.label_text(),
        },
    }
}

/// A message that comes in for a channel is shown at once, below what was shown before,
/// while the channel has room for it.
pub proof fn lemma_new_message_is_shown(app: StateView, m: MessageView)
    requires
        !has_id(app.of_channel(m.channel_id), m.id),
        app.of_channel(m.channel_id).len() < app.history_limit,
    ensures
        message_lines(app.after(EventView::NewMessage(m)).of_channel(m.channel_id))
            == message_lines(app.of_channel(m.channel_id)) + m.author_name() + ": "@
            + content_text(m) + "\n"@,
        refresh_of(EventView::NewMessage(m), Some(m.channel_id)).messages,
{
    let list = app.of_channel(m.channel_id);
    assert(list.push(m).drop_last() =~= list);
}

fn find_channel<'a>(list: &'a Vec<Channel>, id: &str) -> (r: Option<&'a Channel>)
    ensures
        (match r {
            Some(c) => Some(c@),
            None => None,
        }) == first_with_id(channels_view(list@), id@),
{
    let ghost all = channels_view(list@);
    let mut i: usize = 0;
    assert(all.skip(0) =~= all);
    while i < list.len()
        invariant
            i <= list@.len(),
            all == channels_view(list@),
            first_with_id(all, id@) == first_with_id(all.skip(i as int), id@),
        decreases list@.len() - i,
    {
        assert(all.skip(i as int)[0] == list@[i as int]@);
        assert(all.skip(i as int).drop_first() =~= all.skip(i + 1));
        if same_text(list[i].id.as_str(), id) {
            return Some(&list[i]);
        }
        i = i + 1;
    }
    None
}

proof fn lemma_first_with_id(a: Seq<ChannelView>, b: Seq<ChannelView>, id: Seq<char>)
    ensures
        first_with_id(a + b, id) == (match first_with_id(a, id) {
            Some(c) => Some(c),
            None => first_with_id(b, id),
        }),
    decreases a.len(),
{
    if a.len() == 0 {
        assert(a + b =~= b);
    } else {
        assert((a + b)[0] == a[0]);
        assert((a + b).drop_first() =~= a.drop_first() + b);
        lemma_first_with_id(a.drop_first(), b, id);
    }
}

fn kind_lines(c: &Channel) -> (r: String)
    ensures
        r@ == kind_details(c@),
{
    let kind = if c.is_voice() {
        "Canal de voz"
    } else if c.is_dm() {
        "Mensaje directo"
    } else {
        "Canal de texto"
    };
    concat3("\nTipo:\n  ", kind, "\n")
}

fn server_lines(c: &Channel) -> (r: String)
    ensures
        r@ == server_details(c@),
{
    match &c.guild_id {
        Some(g) => concat3("\nServidor:\n  ", g.as_str(), "\n"),
        None => String::new(),
    }
}

fn people_lines(c: &Channel) -> (r: String)
    ensures
        r@ == people_details(c@),
{
    if c.recipients.len() == 0 {
        return String::new();
    }
    let ghost names = c@.recipients.map_values(|u: UserView| u.name());
    let mut list = String::new();
    let mut i: usize = 0;
    assert(names.take(0) =~= Seq::<Seq<char>>::empty());
    while i < c.recipients.len()
        invariant
            i <= c.recipients@.len(),
            names == c@.recipients.map_values(|u: UserView| u.name()),
            list@ == joined(names.take(i as int), "\n  "@),
        decreases c.recipients@.len() - i,
    {
        if i > 0 {
            list.append("\n  ");
        }
        list.append(c.recipients[i].display_name());
        assert(names.take(i + 1).drop_last() =~= names.take(i as int));
        assert(names.take(i + 1).last() == c.recipients@[i as int]@.name());
        i = i + 1;
        assert(list@ =~= joined(names.take(i as int), "\n  "@));
    }
    assert(names.take(i as int) =~= names);
    concat3("\nParticipantes:\n  ", list.as_str(), "\n")
}

fn detail_lines(c: &Channel) -> (r: String)
    ensures
        r@ == channel_details(c@),
{
    concat3(kind_lines(c).as_str(), server_lines(c).as_str(), people_lines(c).as_str())
}

impl UiState {
    /// The state of the network's side is as it should be.
    pub open spec fn wf(&self) -> bool {
        self.app.wf()
    }

    /// The window at the start, with the user's preferences.
    pub fn new(cfg: Config) -> (r: UiState)
        ensures
            r.wf(),
            r.cfg == cfg,
            r.active is None,
            r.dm_filter@ == Seq::<char>::empty(),
            r.app@ == StateView::fresh(cfg.history_limit),
    {
        let app = AppState::new(cfg.history_limit);
        UiState { app, active: None, cfg, dm_filter: String::new() }
    }

    /// How a channel is shown.
    pub fn display_label(&self, id: &str) -> (r: String)
        requires
            self.wf(),
        ensures
            r@ == label_of(self.app@, id@),
    {
        match self.app.channel_names.get(id) {
            Some(name) => name.clone(),
            None => channel_label(id),
        }
    }

    /// The messages of the open channel.
    pub fn messages_text(&self) -> (r: String)
        requires
            self.wf(),
        ensures
            r@ == (match self.active {
                Some(id) => message_lines(self.app@.of_channel(id@)),
                None => Seq::empty(),
            }),
    {
        let mut text = String::new();
        if let Some(active) = &self.active {
            let list = self.app.channel_messages(active.as_str());
            let ghost all = self.app@.of_channel(active@);
            let mut i: usize = 0;
            assert(all.take(0) =~= Seq::<MessageView>::empty());
            while i < list.len()
                invariant
                    i <= list@.len(),
                    list@.map_values(|m: &Message| m@) == all,
                    text@ == message_lines(all.take(i as int)),
                decreases list@.len() - i,
            {
                let m: &Message = list[i];
                assert(all[i as int] == m@) by {
                    assert(list@.map_values(|m: &Message| m@)[i as int] == list@[i as int]@);
                }
                assert(all.take(i + 1).drop_last() =~= all.take(i as int));
                text.append(m.author_name().as_str());
                text.append(": ");
                text.append(render_content(m).as_str());
                text.append("\n");
                i = i + 1;
            }
            assert(all.len() == list@.len()) by {
                assert(list@.map_values(|m: &Message| m@).len() == list@.len());
            }
            assert(all.take(i as int) =~= all);
        }
        text
    }

    /// The conversations that match what is looked for, in order.
    pub fn filtered_dms(&self) -> (r: Vec<&Channel>)
        ensures
            r@.map_values(|c: &Channel| c@) == matching(
                self.app@.dms,
                lower_text(trimmed(self.dm_filter@)),
            ),
    {
        let filter = to_lowercase(trim_text(self.dm_filter.as_str()).as_str());
        let ghost all = self.app@.dms;
        let mut out: Vec<&Channel> = Vec::new();
        let mut i: usize = 0;
        assert(all.take(0) =~= Seq::<ChannelView>::empty());
        assert(out@.map_values(|c: &Channel| c@) =~= Seq::<ChannelView>::empty());
        while i < self.app.dms.len()
            invariant
                i <= self.app.dms@.len(),
                all == channels_view(self.app.dms@),
                out@.map_values(|c: &Channel| c@) == matching(all.take(i as int), filter@),
            decreases self.app.dms@.len() - i,
        {
            let c: &Channel = &self.app.dms[i];
            assert(all.take(i + 1).drop_last() =~= all.take(i as int));
            assert(all.take(i + 1).last() == c@);
            let wanted = filter.as_str().is_empty() || contains_text(
                to_lowercase(c.label().as_str()).as_str(),
                filter.as_str(),
            );
            if wanted {
                let ghost before = out@;
                out.push(c);
                assert(out@.map_values(|c: &Channel| c@) =~= before.map_values(
                    |c: &Channel| c@,
                ).push(c@));
            }
            i = i + 1;
        }
        assert(all.take(i as int) =~= all);
        out
    }

    /// The title above the messages.
    pub fn active_title_text(&self) -> (r: String)
        requires
            self.wf(),
        ensures
            r@ == (match self.active {
                Some(id) => label_of(self.app@, id@),
                None => "Selecciona un canal o DM"@,
            }),
    {
        match &self.active {
            Some(id) => self.display_label(id.as_str()),
            None => "Selecciona un canal o DM".to_owned(),
        }
    }

    /// The panel with the details of the open channel.
    pub fn info_text(&self) -> (r: String)
        requires
            self.wf(),
        ensures
            r@ == details(self.app@, option_view(self.active)),
    {
        let id = match &self.active {
            None => {
                return "Sin conversación activa.\n\nElige un canal o un mensaje directo para ver sus datos aquí.".to_owned();
            },
            Some(id) => id,
        };
        let mut t = "Nombre:\n  ".to_owned();
        t.append(self.display_label(id.as_str()).as_str());
        t.append("\n\nID del canal:\n  ");
        t.append(id.as_str());
        t.append("\n");
        proof {
            lemma_first_with_id(self.app@.dms, self.app@.channels, id@);
        }
        let known = match find_channel(&self.app.dms, id.as_str()) {
            Some(c) => detail_lines(c),
            None => match find_channel(&self.app.channels, id.as_str()) {
                Some(c) => detail_lines(c),
                None => String::new(),
            },
        };
        t.append(known.as_str());
        let list = self.app.channel_messages(id.as_str());
        assert(list@.len() == self.app@.of_channel(id@).len()) by {
            assert(list@.map_values(|m: &Message| m@).len() == list@.len());
        }
        let count = concat3(
            "\nMensajes cargados:\n  ",
            decimal_text(list.len() as u64).as_str(),
            "\n",
        );
        t.append(count.as_str());
        t
    }

    /// The status line.
    pub fn status_label(&self, error: Option<&str>) -> (r: String)
        ensures
            r@ == status_text(
                match error {
                    Some(e) => Some(e@),
                    None => None,
                },
                self.app@,
            ),
    {
        match error {
            Some(e) => concat2("⚠ ", e),
            None => match &self.app.me {
                Some(user) => {
                    let name = user.display_name();
                    if name.is_empty() {
                        self.app.conn.label().to_owned()
                    } else {
                        concat3(conn_icon(self.app.conn).as_str(), " — ", name)
                    }
                },
                None => self.app.conn.label().to_owned(),
            },
        }
    }
}

} // verus!

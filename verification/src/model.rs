//! The things that the chat service speaks of: users, channels, servers, messages, and
//! what travels over the gateway.

use vstd::prelude::*;

use crate::json::{Json, JsonView};
use crate::text::{concat2, joined};

pub mod opcode;

verus! {

/// The id of a thing, a number written out.
pub type Snowflake = String;

/// A text that may be missing.
pub open spec fn option_view(s: Option<String>) -> Option<Seq<char>> {
    match s {
        Some(s) => Some(s@),
        None => None,
    }
}

/// A copy of a text that may be missing.
pub fn copy_option(s: &Option<String>) -> (r: Option<String>)
    ensures
        option_view(r) == option_view(*s),
{
    match s {
        Some(s) => Some(s.clone()),
        None => None,
    }
}

/// A user.
#[derive(Debug)]
pub struct User {
    /// The user's id.
    pub id: Snowflake,
    /// The account name.
    pub username: String,
    /// The name to be shown, where the user has one.
    pub global_name: Option<String>,
    /// The number behind the name of old accounts.
    pub discriminator: Option<String>,
    /// Whether the account belongs to a program.
    pub bot: bool,
}

/// A user, in contracts.
pub struct UserView {
    pub id: Seq<char>,
    pub username: Seq<char>,
    pub global_name: Option<Seq<char>>,
    pub discriminator: Option<Seq<char>>,
    pub bot: bool,
}

impl View for User {
    type V = UserView;

    open spec fn view(&self) -> UserView {
        UserView {
            id: self.id@,
            username: self.username@,
            global_name: option_view(self.global_name),
            discriminator: option_view(self.discriminator),
            bot: self.bot,
        }
    }
}

impl Clone for User {
    fn clone(&self) -> (r: User)
        ensures
            r@ == self@,
    {
        User {
            id: self.id.clone(),
            username: self.username.clone(),
            global_name: copy_option(&self.global_name),
            discriminator: copy_option(&self.discriminator),
            bot: self.bot,
        }
    }
}

impl UserView {
    /// The name to show: the chosen one, unless there is none or it is empty; then the
    /// account name.
    pub open spec fn name(self) -> Seq<char> {
        match self.global_name {
            Some(name) => if name.len() > 0 {
                name
            } else {
                self.username
            },
            None => self.username,
        }
    }
}

impl User {
    /// The name to show.
    pub fn display_name(&self) -> (r: &str)
        ensures
            r@ == self@.name(),
    {
        match &self.global_name {
            Some(name) => if !name.as_str().is_empty() {
                name.as_str()
            } else {
                self.username.as_str()
            },
            None => self.username.as_str(),
        }
    }
}

/// A channel of a server, or a conversation.
#[derive(Debug)]
pub struct Channel {
    /// The channel's id.
    pub id: Snowflake,
    /// What it is: 0 and 5 are text, 2 and 13 voice, 1 and 3 conversations.
    pub kind: u8,
    /// The name; conversations have none.
    pub name: Option<String>,
    /// The server that it belongs to.
    pub guild_id: Option<Snowflake>,
    /// Who takes part in a conversation.
    pub recipients: Vec<User>,
    /// Where it stands in the server's list.
    pub position: Option<i32>,
}

/// A channel, in contracts.
pub struct ChannelView {
    pub id: Seq<char>,
    pub kind: u8,
    pub name: Option<Seq<char>>,
    pub guild_id: Option<Seq<char>>,
    pub recipients: Seq<UserView>,
    pub position: Option<i32>,
}

impl View for Channel {
    type V = ChannelView;

    open spec fn view(&self) -> ChannelView {
        ChannelView {
            id: self.id@,
            kind: self.kind,
            name: option_view(self.name),
            guild_id: option_view(self.guild_id),
            recipients: self.recipients@.map_values(|u: User| u@),
            position: self.position,
        }
    }
}

impl Clone for Channel {
    fn clone(&self) -> (r: Channel)
        ensures
            r@ == self@,
    {
        let r = Channel {
            id: self.id.clone(),
            kind: self.kind,
            name: copy_option(&self.name),
            guild_id: copy_option(&self.guild_id),
            recipients: self.recipients.clone(),
            position: self.position,
        };
        assert(r@.recipients =~= self@.recipients);
        r
    }
}

impl ChannelView {
    /// A text channel of a server.
    pub open spec fn is_text(self) -> bool {
        self.kind == 0 || self.kind == 5
    }

    /// A voice channel of a server.
    pub open spec fn is_voice(self) -> bool {
        self.kind == 2 || self.kind == 13
    }

    /// A conversation.
    pub open spec fn is_dm(self) -> bool {
        self.kind == 1 || self.kind == 3
    }

    /// How the channel is shown: by its name, with a sign for text or voice; by who takes
    /// part; or by its id.
    pub open spec fn label(self) -> Seq<char> {
        if self.name is Some && self.name->Some_0.len() > 0 {
            if self.is_voice() {
                "🔊 "@ + self.name->Some_0
            } else {
                "# "@ + self.name->Some_0
            }
        } else if self.recipients.len() > 0 {
            "@ "@ + joined(self.recipients.map_values(|u: UserView| u.name()), ", "@)
        } else {
            "canal "@ + self.id
        }
    }
}

impl Channel {
    /// Tells whether this is a text channel of a server.
    pub fn is_text(&self) -> (r: bool)
        ensures
            r == self@.is_text(),
    {
        self.kind == 0 || self.kind == 5
    }

    /// Tells whether this is a voice channel of a server.
    pub fn is_voice(&self) -> (r: bool)
        ensures
            r == self@.is_voice(),
    {
        self.kind == 2 || self.kind == 13
    }

    /// Tells whether this is a conversation.
    pub fn is_dm(&self) -> (r: bool)
        ensures
            r == self@.is_dm(),
    {
        self.kind == 1 || self.kind == 3
    }

    /// How the channel is shown.
    pub fn label(&self) -> (r: String)
        ensures
            r@ == self@.label(),
    {
        match &self.name {
            Some(name) => {
                if !name.as_str().is_empty() {
                    return if self.is_voice() {
                        concat2("🔊 ", name.as_str())
                    } else {
                        concat2("# ", name.as_str())
                    };
                }
            },
            None => {},
        }
        if self.recipients.len() > 0 {
            concat2("@ ", recipient_names(&self.recipients).as_str())
        } else {
            concat2("canal ", self.id.as_str())
        }
    }
}

/// The names of the users, with a comma between them.
fn recipient_names(users: &Vec<User>) -> (r: String)
    ensures
        r@ == joined(
            users@.map_values(|u: User| u@).map_values(|u: UserView| u.name()),
            ", "@,
        ),
{
    let ghost names = users@.map_values(|u: User| u@).map_values(|u: UserView| u.name());
    let mut out = String::new();
    let mut i: usize = 0;
    assert(names.take(0) =~= Seq::<Seq<char>>::empty());
    while i < users.len()
        invariant
            i <= users@.len(),
            names == users@.map_values(|u: User| u@).map_values(|u: UserView| u.name()),
            out@ == joined(names.take(i as int), ", "@),
        decreases users@.len() - i,
    {
        if i > 0 {
            out.append(", ");
        }
        out.append(users[i].display_name());
        assert(names.take(i + 1).drop_last() =~= names.take(i as int));
        assert(names.take(i + 1).last() == users@[i as int]@.name());
        i = i + 1;
        assert(out@ =~= joined(names.take(i as int), ", "@));
    }
    assert(names.take(i as int) =~= names);
    out
}

/// A server.
#[derive(Debug)]
pub struct Guild {
    /// The server's id.
    pub id: Snowflake,
    /// Its name.
    pub name: String,
}

impl Clone for Guild {
    fn clone(&self) -> (r: Guild)
        ensures
            r.id@ == self.id@,
            r.name@ == self.name@,
    {
        Guild { id: self.id.clone(), name: self.name.clone() }
    }
}

/// A message in a channel or a conversation.
#[derive(Debug)]
pub struct Message {
    /// The message's id.
    pub id: Snowflake,
    /// Where it was posted.
    pub channel_id: Snowflake,
    /// Who wrote it.
    pub author: Option<User>,
    /// The text.
    pub content: String,
    /// When it was written, as the service gives it.
    pub timestamp: Option<String>,
    /// The server that the channel belongs to.
    pub guild_id: Option<Snowflake>,
}

/// A message, in contracts.
pub struct MessageView {
    pub id: Seq<char>,
    pub channel_id: Seq<char>,
    pub author: Option<UserView>,
    pub content: Seq<char>,
    pub timestamp: Option<Seq<char>>,
    pub guild_id: Option<Seq<char>>,
}

impl View for Message {
    type V = MessageView;

    open spec fn view(&self) -> MessageView {
        MessageView {
            id: self.id@,
            channel_id: self.channel_id@,
            author: match self.author {
                Some(user) => Some(user@),
                None => None,
            },
            content: self.content@,
            timestamp: option_view(self.timestamp),
            guild_id: option_view(self.guild_id),
        }
    }
}

impl Clone for Message {
    fn clone(&self) -> (r: Message)
        ensures
            r@ == self@,
    {
        Message {
            id: self.id.clone(),
            channel_id: self.channel_id.clone(),
            author: match &self.author {
                Some(user) => Some(user.clone()),
                None => None,
            },
            content: self.content.clone(),
            timestamp: copy_option(&self.timestamp),
            guild_id: copy_option(&self.guild_id),
        }
    }
}

impl MessageView {
    /// The name of whoever wrote the message.
    pub open spec fn author_name(self) -> Seq<char> {
        match self.author {
            Some(user) => user.name(),
            None => "desconocido"@,
        }
    }
}

impl Message {
    /// The name of whoever wrote the message.
    pub fn author_name(&self) -> (r: String)
        ensures
            r@ == self@.author_name(),
    {
        match &self.author {
            Some(user) => user.display_name().to_owned(),
            None => "desconocido".to_owned(),
        }
    }
}

/// A message to a gateway: its opcode and its data, in contracts.
pub open spec fn envelope_view(op: u64, d: JsonView) -> JsonView {
    JsonView::empty_object().with("op"@, JsonView::whole_number(op)).with("d"@, d)
}

/// A message to a gateway: its opcode and its data.
pub fn envelope(op: u64, d: Json) -> (r: Json)
    ensures
        r@ == envelope_view(op, d@),
{
    Json::object().with("op", Json::from_u64(op)).with("d", d)
}

/// What every message of the gateway looks like.
pub struct GatewayPayload {
    /// The opcode.
    pub op: u8,
    /// The data.
    pub d: Json,
    /// The number, of events only.
    pub s: Option<u64>,
    /// The name, of events only.
    pub t: Option<String>,
}

/// The data of HELLO.
pub struct Hello {
    /// How often to send a heartbeat, in milliseconds.
    pub heartbeat_interval: u64,
}

/// The data of READY.
pub struct Ready {
    /// The session, to be taken up again after a break.
    pub session_id: String,
    /// Where to take it up again.
    pub resume_gateway_url: Option<String>,
    /// The user that is logged in.
    pub user: User,
}

/// What the client says of itself when it opens a session.
pub struct IdentifyProperties {
    /// The operating system.
    pub os: String,
    /// The name of the program.
    pub browser: String,
    /// The name of the device.
    pub device: String,
}

impl IdentifyProperties {
    /// The properties of this client on an operating system.
    pub fn on_os(os: &str) -> (r: IdentifyProperties)
        ensures
            r.os@ == os@,
            r.browser@ == "discord-lite"@,
            r.device@ == "discord-lite"@,
    {
        IdentifyProperties {
            os: os.to_owned(),
            browser: "discord-lite".to_owned(),
            device: "discord-lite".to_owned(),
        }
    }
}

/// The data of IDENTIFY as JSON.
pub open spec fn identify_json(
    token: Seq<char>,
    os: Seq<char>,
    browser: Seq<char>,
    device: Seq<char>,
    compress: bool,
) -> JsonView {
    JsonView::empty_object()
        .with("token"@, JsonView::Text(token))
        .with(
            "properties"@,
            JsonView::empty_object()
                .with("os"@, JsonView::Text(os))
                .with("browser"@, JsonView::Text(browser))
                .with("device"@, JsonView::Text(device)),
        )
        .with("compress"@, JsonView::Bool(compress))
}

/// The data of IDENTIFY.
pub struct IdentifyData {
    /// The user's token.
    pub token: String,
    /// What the client says of itself.
    pub properties: IdentifyProperties,
    /// Whether messages may come compressed.
    pub compress: bool,
}

impl IdentifyData {
    /// The data as JSON, in contracts.
    pub open spec fn json(self) -> JsonView {
        identify_json(
            self.token@,
            self.properties.os@,
            self.properties.browser@,
            self.properties.device@,
            self.compress,
        )
    }

    /// The data as JSON.
    pub fn to_json(&self) -> (r: Json)
        ensures
            r@ == self.json(),
    {
        let properties = Json::object()
            .with("os", Json::from_text(self.properties.os.as_str()))
            .with("browser", Json::from_text(self.properties.browser.as_str()))
            .with("device", Json::from_text(self.properties.device.as_str()));
        Json::object()
            .with("token", Json::from_text(self.token.as_str()))
            .with("properties", properties)
            .with("compress", Json::Bool(self.compress))
    }
}

/// The data of RESUME as JSON.
pub open spec fn resume_json(token: Seq<char>, session_id: Seq<char>, seq: u64) -> JsonView {
    JsonView::empty_object()
        .with("token"@, JsonView::Text(token))
        .with("session_id"@, JsonView::Text(session_id))
        .with("seq"@, JsonView::whole_number(seq))
}

/// The data of RESUME.
pub struct ResumeData {
    /// The user's token.
    pub token: String,
    /// The session to take up again.
    pub session_id: String,
    /// The number of the last event that came in.
    pub seq: u64,
}

impl ResumeData {
    /// The data as JSON, in contracts.
    pub open spec fn json(self) -> JsonView {
        resume_json(self.token@, self.session_id@, self.seq)
    }

    /// The data as JSON.
    pub fn to_json(&self) -> (r: Json)
        ensures
            r@ == self.json(),
    {
        Json::object()
            .with("token", Json::from_text(self.token.as_str()))
            .with("session_id", Json::from_text(self.session_id.as_str()))
            .with("seq", Json::from_u64(self.seq))
    }
}

/// The data of VOICE STATE UPDATE.
pub struct VoiceStateUpdateData {
    /// The server.
    pub guild_id: Snowflake,
    /// The voice channel to be in; none to leave.
    pub channel_id: Option<Snowflake>,
    /// Whether the microphone is off.
    pub self_mute: bool,
    /// Whether the speaker is off.
    pub self_deaf: bool,
}

/// The data of VOICE STATE UPDATE, in contracts.
pub struct VoiceStateView {
    pub guild_id: Seq<char>,
    pub channel_id: Option<Seq<char>>,
    pub self_mute: bool,
    pub self_deaf: bool,
}

impl View for VoiceStateUpdateData {
    type V = VoiceStateView;

    open spec fn view(&self) -> VoiceStateView {
        VoiceStateView {
            guild_id: self.guild_id@,
            channel_id: option_view(self.channel_id),
            self_mute: self.self_mute,
            self_deaf: self.self_deaf,
        }
    }
}

impl VoiceStateView {
    /// The data as JSON.
    pub open spec fn json(self) -> JsonView {
        JsonView::empty_object()
            .with("guild_id"@, JsonView::Text(self.guild_id))
            .with(
                "channel_id"@,
                match self.channel_id {
                    Some(id) => JsonView::Text(id),
                    None => JsonView::Null,
                },
            )
            .with("self_mute"@, JsonView::Bool(self.self_mute))
            .with("self_deaf"@, JsonView::Bool(self.self_deaf))
    }
}

impl VoiceStateUpdateData {
    /// The data as JSON.
    pub fn to_json(&self) -> (r: Json)
        ensures
            r@ == self@.json(),
    {
        let channel = match &self.channel_id {
            Some(id) => Json::from_text(id.as_str()),
            None => Json::Null,
        };
        Json::object()
            .with("guild_id", Json::from_text(self.guild_id.as_str()))
            .with("channel_id", channel)
            .with("self_mute", Json::Bool(self.self_mute))
            .with("self_deaf", Json::Bool(self.self_deaf))
    }
}

} // verus!

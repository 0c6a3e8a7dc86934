//! The requests to the HTTP API: what is asked for, how an answer is judged, and what the
//! user is told of a failure.

use vstd::prelude::*;

use crate::json::{Json, JsonView};
use crate::model::Message;
use crate::text::{
    concat2, concat3, contains_text, first_chars, front_of, holds,
};

verus! {

/// Where the API is.
pub const API_BASE: &'static str = "https://discord.com/api/v10";

/// What the client calls itself.
pub const USER_AGENT: &'static str = "discord-lite/0.1 (personal)";

/// How often a request is tried again when there were too many.
pub const MAX_RETRIES: u32 = 4;

/// The characters of an error's body that are shown.
pub const MAX_ERROR_CHARS: usize = 300;

/// What a request does.
#[derive(Clone, Copy, Debug, PartialEq, Eq, Structural)]
pub enum Method {
    /// Reads.
    Get,
    /// Writes.
    Post,
}

/// A request to the API.
pub struct Request {
    /// What it does.
    pub method: Method,
    /// What it does it to.
    pub url: String,
    /// The token that it carries.
    pub authorization: String,
    /// How many things are asked for.
    pub limit: Option<u8>,
    /// What is written.
    pub body: Option<Json>,
}

/// A request to the API, in contracts.
pub struct RequestView {
    pub method: Method,
    pub url: Seq<char>,
    pub authorization: Seq<char>,
    pub limit: Option<u8>,
    pub body: Option<JsonView>,
}

impl View for Request {
    type V = RequestView;

    open spec fn view(&self) -> RequestView {
        RequestView {
            method: self.method,
            url: self.url@,
            authorization: self.authorization@,
            limit: self.limit,
            body: match self.body {
                Some(j) => Some(j@),
                None => None,
            },
        }
    }
}

/// A request that reads.
pub open spec fn get_view(token: Seq<char>, path: Seq<char>) -> RequestView {
    RequestView {
        method: Method::Get,
        url: API_BASE@ + path,
        authorization: token,
        limit: None,
        body: None,
    }
}

/// A request that writes one field.
pub open spec fn post_view(
    token: Seq<char>,
    path: Seq<char>,
    name: Seq<char>,
    value: Seq<char>,
) -> RequestView {
    RequestView {
        method: Method::Post,
        url: API_BASE@ + path,
        authorization: token,
        limit: None,
        body: Some(JsonView::empty_object().with(name, JsonView::Text(value))),
    }
}

/// The requests of one user.
pub struct RestClient {
    token: String,
}

impl RestClient {
    /// The user's token.
    pub closed spec fn token_text(&self) -> Seq<char> {
        self.token@
    }

    /// The requests of the user with a token.
    pub fn new(token: &str) -> (r: RestClient)
        ensures
            r.token_text() == token@,
    {
        RestClient { token: token.to_owned() }
    }

    fn get(&self, path: &str) -> (r: Request)
        ensures
            r@ == get_view(self.token_text(), path@),
    {
        Request {
            method: Method::Get,
            url: concat2(API_BASE, path),
            authorization: self.token.clone(),
            limit: None,
            body: None,
        }
    }

    fn post(&self, path: &str, name: &str, value: &str) -> (r: Request)
        ensures
            r@ == post_view(self.token_text(), path@, name@, value@),
    {
        Request {
            method: Method::Post,
            url: concat2(API_BASE, path),
            authorization: self.token.clone(),
            limit: None,
            body: Some(Json::object().with(name, Json::from_text(value))),
        }
    }

    /// Asks who the user is.
    pub fn validate_token(&self) -> (r: Request)
        ensures
            r@ == get_view(self.token_text(), "/users/@me"@),
    {
        self.get("/users/@me")
    }

    /// Asks for the user's servers.
    pub fn list_guilds(&self) -> (r: Request)
        ensures
            r@ == get_view(self.token_text(), "/users/@me/guilds"@),
    {
        self.get("/users/@me/guilds")
    }

    /// Asks for the channels of a server.
    pub fn list_guild_channels(&self, guild_id: &str) -> (r: Request)
        ensures
            r@ == get_view(self.token_text(), "/guilds/"@ + guild_id@ + "/channels"@),
    {
        self.get(concat3("/guilds/", guild_id, "/channels").as_str())
    }

    /// Asks for the user's conversations.
    pub fn list_dms(&self) -> (r: Request)
        ensures
            r@ == get_view(self.token_text(), "/users/@me/channels"@),
    {
        self.get("/users/@me/channels")
    }

    /// Asks what a channel is.
    pub fn get_channel(&self, channel_id: &str) -> (r: Request)
        ensures
            r@ == get_view(self.token_text(), "/channels/"@ + channel_id@),
    {
        self.get(concat2("/channels/", channel_id).as_str())
    }

    /// Asks for the last messages of a channel: at least one, at most a hundred.
    pub fn get_channel_messages(&self, channel_id: &str, limit: u8) -> (r: Request)
        ensures
            r@ == (RequestView {
                limit: Some(
                    if limit < 1 {
                        1
                    } else if limit > 100 {
                        100
                    } else {
                        limit
                    },
                ),
                ..get_view(self.token_text(), "/channels/"@ + channel_id@ + "/messages"@)
            }),
    {
        let limit: u8 = if limit < 1 {
            1
        } else if limit > 100 {
            100
        } else {
            limit
        };
        let mut request = self.get(concat3("/channels/", channel_id, "/messages").as_str());
        request.limit = Some(limit);
        request
    }

    /// Sends a message to a channel.
    pub fn create_message(&self, channel_id: &str, content: &str) -> (r: Request)
        ensures
            r@ == post_view(
                self.token_text(),
                "/channels/"@ + channel_id@ + "/messages"@,
                "content"@,
                content@,
            ),
    {
        let path = concat3("/channels/", channel_id, "/messages");
        self.post(path.as_str(), "content", content)
    }

    /// Opens a conversation with a user.
    pub fn open_dm(&self, recipient_id: &str) -> (r: Request)
        ensures
            r@ == post_view(
                self.token_text(),
                "/users/@me/channels"@,
                "recipient_id"@,
                recipient_id@,
            ),
    {
        self.post("/users/@me/channels", "recipient_id", recipient_id)
    }
}

/// How an answer is judged.
#[derive(Clone, Copy, Debug, PartialEq, Eq, Structural)]
pub enum Verdict {
    /// It is what was asked for.
    Accept,
    /// There were too many requests: wait and try again.
    Retry,
    /// The request failed.
    Fail,
}

/// How an answer with a status is judged, after `attempt` retries.
pub open spec fn verdict_of(status: u16, attempt: u32) -> Verdict {
    if status == 429 && attempt < MAX_RETRIES {
        Verdict::Retry
    } else if 200 <= status < 300 {
        Verdict::Accept
    } else {
        Verdict::Fail
    }
}

/// Judges an answer.
pub fn judge(status: u16, attempt: u32) -> (r: Verdict)
    ensures
        r == verdict_of(status, attempt),
{
    if status == 429 && attempt < MAX_RETRIES {
        Verdict::Retry
    } else if 200 <= status && status < 300 {
        Verdict::Accept
    } else {
        Verdict::Fail
    }
}

/// A request is tried again a bounded number of times, whatever the answers are.
pub proof fn lemma_retries_end(status: u16, attempt: u32)
    requires
        attempt >= MAX_RETRIES,
    ensures
        verdict_of(status, attempt) != Verdict::Retry,
{
}

/// How long to wait before a request is tried again where the answer does not say, in
/// milliseconds.
pub const DEFAULT_RETRY_MS: u64 = 2000;

/// How long to wait before a request is tried again, in milliseconds: what the header of the
/// answer says, or else what its body says.
pub fn retry_wait(header_ms: Option<u64>, body_ms: Option<u64>) -> (r: u64)
    ensures
        r == (match header_ms {
            Some(n) => n,
            None => match body_ms {
                Some(n) => n,
                None => 2000,
            },
        }),
{
    match header_ms {
        Some(n) => n,
        None => match body_ms {
            Some(n) => n,
            None => DEFAULT_RETRY_MS,
        },
    }
}

/// What a failed request says: its status and the front of its body.
pub fn http_error(status: &str, body: &str) -> (r: String)
    ensures
        r@ == "HTTP "@ + status@ + ": "@ + front_of(body@, 300),
{
    let mut out = concat3("HTTP ", status, ": ");
    out.append(first_chars(body, MAX_ERROR_CHARS).as_str());
    out
}

/// The messages, which come newest first, oldest first.
pub fn chronological(messages: Vec<Message>) -> (r: Vec<Message>)
    ensures
        r@ == messages@.reverse(),
{
    let mut rest = messages;
    let mut out: Vec<Message> = Vec::new();
    loop
        invariant
            rest@ =~= messages@.take(rest@.len() as int),
            out@ =~= messages@.skip(rest@.len() as int).reverse(),
            rest@.len() <= messages@.len(),
        ensures
            rest@.len() == 0,
            out@ =~= messages@.skip(0).reverse(),
        decreases rest@.len(),
    {
        match rest.pop() {
            Some(m) => out.push(m),
            None => {
                break;
            },
        }
    }
    assert(messages@.skip(0) =~= messages@);
    out
}

/// What the user is told when logging in failed.
pub open spec fn auth_error_text(error: Seq<char>) -> Seq<char> {
    if holds(error, "401"@) {
        "Token inválido o expirado."@
    } else {
        "Error de red/API: "@ + error
    }
}

/// What the user is told when logging in failed.
pub fn friendly_auth_error(error: &str) -> (r: String)
    ensures
        r@ == auth_error_text(error@),
{
    if contains_text(error, "401") {
        "Token inválido o expirado.".to_owned()
    } else {
        concat2("Error de red/API: ", error)
    }
}

} // verus!

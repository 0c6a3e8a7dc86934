//! The requests to the HTTP API, and how their answers are judged.

use vstd::prelude::*;

use crate::json::JsonView;
use crate::laws::reading::lemma_at;
use crate::model::Message;
use crate::rest::{
    chronological, friendly_auth_error, http_error, judge, retry_wait, Method, Request, RestClient,
    Verdict,
};
use crate::text::holds;

verus! {

/// The request reads what is at a path, as the user, and writes nothing.
pub open spec fn reads(client: &RestClient, r: Request, path: Seq<char>) -> bool {
    &&& r.method == Method::Get
    &&& r.url@ == "https://discord.com/api/v10"@ + path
    &&& r.authorization@ == client.token_text()
    &&& r.body is None
}

/// The request writes a text under a name, and nothing else, to a path, as the user.
pub open spec fn writes(
    client: &RestClient,
    r: Request,
    path: Seq<char>,
    name: Seq<char>,
    text: Seq<char>,
) -> bool {
    &&& r.method == Method::Post
    &&& r.url@ == "https://discord.com/api/v10"@ + path
    &&& r.authorization@ == client.token_text()
    &&& r.body is Some
    &&& r.body->Some_0@.text_field(name) == Some(text)
    &&& r.body->Some_0@->Object_0.len() == 1
}

/// The requests carry the token of the user they were made for.
pub proof fn law_token_is_carried(token: &str, client: RestClient)
    requires
        call_ensures(RestClient::new, (token,), client),
    ensures
        client.token_text() == token@,
{
}

/// A message is posted to its channel, with its text.
pub proof fn law_messages_are_posted(
    client: &RestClient,
    channel_id: &str,
    content: &str,
    r: Request,
)
    requires
        call_ensures(RestClient::create_message, (client, channel_id, content), r),
    ensures
        writes(
            client,
            r,
            "/channels/"@ + channel_id@ + "/messages"@,
            "content"@,
            content@,
        ),
{
    let v = r.body->Some_0@;
    assert(v->Object_0[0] == ("content"@, JsonView::Text(content@)));
    lemma_at(v, 0);
}

/// A conversation is opened with the user that is named.
pub proof fn law_conversations_are_opened(client: &RestClient, user: &str, r: Request)
    requires
        call_ensures(RestClient::open_dm, (client, user), r),
    ensures
        writes(client, r, "/users/@me/channels"@, "recipient_id"@, user@),
{
    let v = r.body->Some_0@;
    assert(v->Object_0[0] == ("recipient_id"@, JsonView::Text(user@)));
    lemma_at(v, 0);
}

/// The messages of a channel are read where they are posted, as many as are asked for, but at
/// least one and at most a hundred.
pub proof fn law_history_is_read(client: &RestClient, channel_id: &str, limit: u8, r: Request)
    requires
        call_ensures(RestClient::get_channel_messages, (client, channel_id, limit), r),
    ensures
        reads(client, r, "/channels/"@ + channel_id@ + "/messages"@),
        r.limit is Some,
        1 <= r.limit->Some_0 <= 100,
        1 <= limit <= 100 ==> r.limit->Some_0 == limit,
        limit > 100 ==> r.limit->Some_0 == 100,
        limit < 1 ==> r.limit->Some_0 == 1,
{
}

/// What else is read: who the user is, the user's servers, a server's channels, the user's
/// conversations, and what a channel is.
pub proof fn law_other_reads(
    client: &RestClient,
    id: &str,
    me: Request,
    guilds: Request,
    channels: Request,
    dms: Request,
    channel: Request,
)
    requires
        call_ensures(RestClient::validate_token, (client,), me),
        call_ensures(RestClient::list_guilds, (client,), guilds),
        call_ensures(RestClient::list_guild_channels, (client, id), channels),
        call_ensures(RestClient::list_dms, (client,), dms),
        call_ensures(RestClient::get_channel, (client, id), channel),
    ensures
        reads(client, me, "/users/@me"@),
        reads(client, guilds, "/users/@me/guilds"@),
        reads(client, channels, "/guilds/"@ + id@ + "/channels"@),
        reads(client, dms, "/users/@me/channels"@),
        reads(client, channel, "/channels/"@ + id@),
        me.limit is None && guilds.limit is None && channels.limit is None && dms.limit is None
            && channel.limit is None,
{
}

/// Every answer in the two hundreds is accepted; too many requests are tried again four times,
/// and then fail, as does every other answer.
pub proof fn law_answers_are_judged(status: u16, attempt: u32, r: Verdict)
    requires
        call_ensures(judge, (status, attempt), r),
    ensures
        r is Accept <==> 200 <= status <= 299,
        r is Retry <==> status == 429 && attempt <= 3,
{
}

/// The wait before another try: the header's, or else the body's, or else two seconds.
pub proof fn law_waits(header: Option<u64>, body: Option<u64>, r: u64)
    requires
        call_ensures(retry_wait, (header, body), r),
    ensures
        header is Some ==> r == header->Some_0,
        header is None && body is Some ==> r == body->Some_0,
        header is None && body is None ==> r == 2000,
{
}

/// The error of a request says its status, and the first 300 characters of the answer or all
/// of it.
pub proof fn law_errors_are_told(status: &str, body: &str, r: String)
    requires
        call_ensures(http_error, (status, body), r),
    ensures
        body@.len() <= 300 ==> r@ == "HTTP "@ + status@ + ": "@ + body@,
        body@.len() > 300 ==> r@ == "HTTP "@ + status@ + ": "@ + body@.take(300),
{
}

/// The user is told that the token is not good where the error says 401, and otherwise the
/// error.
pub proof fn law_login_errors(error: &str, r: String)
    requires
        call_ensures(friendly_auth_error, (error,), r),
    ensures
        holds(error@, "401"@) ==> r@ == "Token inválido o expirado."@,
        !holds(error@, "401"@) ==> r@ == "Error de red/API: "@ + error@,
{
}

/// What the service gives newest first is shown oldest first: the same messages, the other way
/// round.
pub proof fn law_oldest_first(list: Vec<Message>, r: Vec<Message>, i: int)
    requires
        call_ensures(chronological, (list,), r),
        0 <= i < list@.len(),
    ensures
        r@.len() == list@.len(),
        r@[i]@ == list@[list@.len() - 1 - i]@,
{
}

} // verus!

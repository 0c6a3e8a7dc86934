//! What becomes of the window's orders, and the way from the wish to join a voice channel to
//! the session that starts.

use vstd::prelude::*;

use crate::gateway::{Body, Gateway, GatewayStep};
use crate::json::Json;
use crate::laws::gateway::{law_server_update, law_state_update};
use crate::net::{NetAction, VoiceLink};
use crate::state::{Command, VoiceControl, VoiceSignal};
use crate::voice::{endpoint_host, gateway_url, VoiceConnInfo};

verus! {

/// The channel that an order is about, where it is about the text of one.
pub open spec fn channel_of_order(command: Command) -> Option<Seq<char>> {
    match command {
        Command::LoadHistory { channel_id } => Some(channel_id@),
        Command::ResolveChannel { channel_id } => Some(channel_id@),
        Command::SendMessage { channel_id, content } => Some(channel_id@),
        _ => None,
    }
}

/// The channel that something done is about, where it is about the text of one.
pub open spec fn channel_of_action(action: NetAction) -> Option<Seq<char>> {
    match action {
        NetAction::LoadHistory { channel_id, limit } => Some(channel_id@),
        NetAction::ResolveChannel { channel_id } => Some(channel_id@),
        NetAction::SendMessage { channel_id, content } => Some(channel_id@),
        _ => None,
    }
}

/// What is done for an order is about the channel that the order is about, for sending,
/// loading and resolving alike.
pub proof fn law_orders_keep_their_channel(link: &mut VoiceLink, command: Command, r: NetAction)
    requires
        call_ensures(VoiceLink::on_command, (link, command), r),
    ensures
        channel_of_action(r) == channel_of_order(command),
        command is LoadHistory <==> r is LoadHistory,
        command is ResolveChannel <==> r is ResolveChannel,
        command is SendMessage <==> r is SendMessage,
        command is LoadDms <==> r is LoadDms,
        command is Logout <==> r is Logout,
        command is JoinVoice <==> r is Gateway,
        command is LeaveVoice <==> r is StopVoice,
        r is LoadHistory ==> r->limit == 50,
{
}

/// What is sent is what the order holds.
pub proof fn law_content_is_sent(
    link: &mut VoiceLink,
    channel_id: String,
    content: String,
    r: NetAction,
)
    requires
        call_ensures(
            VoiceLink::on_command,
            (link, Command::SendMessage { channel_id, content }),
            r,
        ),
    ensures
        r is SendMessage,
        r->content@ == content@,
        final(link)@ == old(link)@,
{
}

/// The switches are handed on as they are.
pub proof fn law_switches_are_handed_on(
    a: &mut VoiceLink,
    b: &mut VoiceLink,
    on: bool,
    muted: NetAction,
    deafened: NetAction,
)
    requires
        call_ensures(VoiceLink::on_command, (a, Command::VoiceMute(on)), muted),
        call_ensures(VoiceLink::on_command, (b, Command::VoiceDeaf(on)), deafened),
    ensures
        muted == NetAction::Control(VoiceControl::Mute(on)),
        deafened == NetAction::Control(VoiceControl::Deaf(on)),
        final(a)@ == old(a)@,
        final(b)@ == old(b)@,
{
}

/// The wish to join asks the gateway for the server and the channel of the order, and the wish
/// to leave asks for no channel of the server of the order.
pub proof fn law_voice_orders_reach_the_gateway(
    a: &mut VoiceLink,
    b: &mut VoiceLink,
    guild_id: String,
    channel_id: String,
    joins: NetAction,
    leaves: NetAction,
)
    requires
        call_ensures(VoiceLink::on_command, (a, Command::JoinVoice { guild_id, channel_id }), joins),
        call_ensures(VoiceLink::on_command, (b, Command::LeaveVoice { guild_id }), leaves),
    ensures
        ({
            let v = joins->Gateway_0;
            &&& joins is Gateway
            &&& v.guild_id@ == guild_id@
            &&& v.channel_id is Some
            &&& v.channel_id->Some_0@ == channel_id@
            &&& !v.self_mute
            &&& !v.self_deaf
        }),
        ({
            let v = leaves->StopVoice_0;
            &&& leaves is StopVoice
            &&& v.guild_id@ == guild_id@
            &&& v.channel_id is None
        }),
{
}

/// Once a join was asked for, the user's own state and the server of the same guild, in either
/// order, make the session start, with what was asked for and what the gateway said; and it
/// starts with the second of the two, not before.
pub proof fn law_voice_starts(
    user: &str,
    fresh: VoiceLink,
    link: &mut VoiceLink,
    guild_id: String,
    channel_id: String,
    asked: NetAction,
    state: VoiceSignal,
    server: VoiceSignal,
    l1: &mut VoiceLink,
    r1: Option<VoiceConnInfo>,
    l2: &mut VoiceLink,
    r2: Option<VoiceConnInfo>,
    m1: &mut VoiceLink,
    q1: Option<VoiceConnInfo>,
    m2: &mut VoiceLink,
    q2: Option<VoiceConnInfo>,
)
    requires
        call_ensures(VoiceLink::new, (user,), fresh),
        old(link)@.user_id == fresh@.user_id,
        call_ensures(
            VoiceLink::on_command,
            (link, Command::JoinVoice { guild_id, channel_id }),
            asked,
        ),
        state is State,
        state->State_user_id@ == user@,
        server is Server,
        server->Server_guild_id@ == guild_id@,
        server->endpoint is Some,
        server->endpoint->Some_0@.len() > 0,
        *old(l1) == *final(link),
        call_ensures(VoiceLink::on_signal, (l1, state), r1),
        *old(l2) == *final(l1),
        call_ensures(VoiceLink::on_signal, (l2, server), r2),
        *old(m1) == *final(link),
        call_ensures(VoiceLink::on_signal, (m1, server), q1),
        *old(m2) == *final(m1),
        call_ensures(VoiceLink::on_signal, (m2, state), q2),
    ensures
        r1 is None,
        q1 is None,
        starts_with(r2, user@, guild_id@, channel_id@, state, server),
        starts_with(q2, user@, guild_id@, channel_id@, state, server),
        fresh@.pending is None,
{
}

/// The session starts for the user in the channel of the server, with the session that the
/// state names and the endpoint and the token that the server names.
pub open spec fn starts_with(
    r: Option<VoiceConnInfo>,
    user: Seq<char>,
    guild_id: Seq<char>,
    channel_id: Seq<char>,
    state: VoiceSignal,
    server: VoiceSignal,
) -> bool {
    &&& r is Some
    &&& r->Some_0.user_id@ == user
    &&& r->Some_0.guild_id@ == guild_id
    &&& r->Some_0.channel_id@ == channel_id
    &&& r->Some_0.session_id@ == state->State_session_id@
    &&& r->Some_0.endpoint@ == server->endpoint->Some_0@
    &&& r->Some_0.token@ == server->token@
}

/// From the events to the session: once a join of a server was asked for, the user's own
/// VOICE_STATE_UPDATE and a VOICE_SERVER_UPDATE for that server with an endpoint start the
/// session of that server, with the session, the endpoint and the token that the events hold.
pub proof fn law_voice_starts_from_the_events(
    link: &mut VoiceLink,
    guild_id: String,
    channel_id: String,
    asked: NetAction,
    g1: &mut Gateway,
    state_name: &str,
    state: Json,
    step1: GatewayStep,
    g2: &mut Gateway,
    server_name: &str,
    server: Json,
    step2: GatewayStep,
    l1: &mut VoiceLink,
    r1: Option<VoiceConnInfo>,
    l2: &mut VoiceLink,
    r2: Option<VoiceConnInfo>,
    session: Seq<char>,
    endpoint: Seq<char>,
    token: Seq<char>,
)
    requires
        call_ensures(
            VoiceLink::on_command,
            (link, Command::JoinVoice { guild_id, channel_id }),
            asked,
        ),
        state_name@ == "VOICE_STATE_UPDATE"@,
        state@.text_field("user_id"@) == Some(old(link)@.user_id),
        state@.text_field("session_id"@) == Some(session),
        call_ensures(Gateway::handle_dispatch, (g1, state_name, Body::Raw(state)), step1),
        server_name@ == "VOICE_SERVER_UPDATE"@,
        server@.text_field("guild_id"@) == Some(guild_id@),
        server@.text_field("endpoint"@) == Some(endpoint),
        endpoint.len() > 0,
        server@.text_field("token"@) == Some(token),
        call_ensures(Gateway::handle_dispatch, (g2, server_name, Body::Raw(server)), step2),
        *old(l1) == *final(link),
        call_ensures(VoiceLink::on_signal, (l1, step1.signal->Some_0), r1),
        *old(l2) == *final(l1),
        call_ensures(VoiceLink::on_signal, (l2, step2.signal->Some_0), r2),
    ensures
        r1 is None,
        r2 is Some,
        r2->Some_0.guild_id@ == guild_id@,
        r2->Some_0.channel_id@ == channel_id@,
        r2->Some_0.user_id@ == old(link)@.user_id,
        r2->Some_0.session_id@ == session,
        r2->Some_0.endpoint@ == endpoint,
        r2->Some_0.token@ == token,
{
    law_state_update(g1, state_name, state, step1);
    law_server_update(g2, server_name, server, step2);
}

/// Nothing starts that was not asked for: not before a join, not after leaving, not for
/// another server, not without an endpoint, and not with the state of someone else.
pub proof fn law_nothing_else_starts(
    user: &str,
    fresh: VoiceLink,
    l0: &mut VoiceLink,
    any: VoiceSignal,
    r0: Option<VoiceConnInfo>,
    l1: &mut VoiceLink,
    guild_id: String,
    left: NetAction,
    l2: &mut VoiceLink,
    r2: Option<VoiceConnInfo>,
    l3: &mut VoiceLink,
    channel_id: String,
    asked: NetAction,
    l4: &mut VoiceLink,
    r4: Option<VoiceConnInfo>,
)
    requires
        call_ensures(VoiceLink::new, (user,), fresh),
        *old(l0) == fresh,
        call_ensures(VoiceLink::on_signal, (l0, any), r0),
        call_ensures(VoiceLink::on_command, (l1, Command::LeaveVoice { guild_id }), left),
        *old(l2) == *final(l1),
        call_ensures(VoiceLink::on_signal, (l2, any), r2),
        old(l3)@.session is Some,
        call_ensures(VoiceLink::on_command, (l3, Command::JoinVoice { guild_id, channel_id }), asked),
        *old(l4) == *final(l3),
        call_ensures(VoiceLink::on_signal, (l4, any), r4),
    ensures
        r0 is None,
        r2 is None,
        r4 is None,
{
}

/// With the session known, only a server of the guild that was asked for, and with an
/// endpoint, starts the session; and the state of another user never does.
pub proof fn law_only_the_right_server_starts(
    link: &mut VoiceLink,
    signal: VoiceSignal,
    r: Option<VoiceConnInfo>,
)
    requires
        call_ensures(VoiceLink::on_signal, (link, signal), r),
        old(link)@.pending is Some,
        old(link)@.session is Some,
        old(link)@.server is None,
    ensures
        signal is State ==> r is None,
        signal is Server ==> (r is Some <==> signal->Server_guild_id@
            == old(link)@.pending->Some_0.0 && signal->endpoint is Some
            && signal->endpoint->Some_0@.len() > 0),
        signal is State && signal->State_user_id@ != old(link)@.user_id ==> final(link)@
            == old(link)@,
        r is Some ==> final(link)@.pending is None && final(link)@.session is None
            && final(link)@.server is None,
{
}

/// The voice gateway is asked for over a secure socket, in the version that negotiates
/// encryption, at the host that the endpoint names.
pub proof fn law_voice_gateway_address(
    info: &VoiceConnInfo,
    endpoint: &str,
    host: String,
    url: String,
)
    requires
        endpoint@ == info.endpoint@,
        call_ensures(endpoint_host, (endpoint,), host),
        call_ensures(gateway_url, (info,), url),
    ensures
        url@ == "wss://"@ + host@ + "/?v=8"@,
{
}

/// Orders that are not about joining or leaving leave what voice waits for.
pub proof fn law_other_orders_leave_voice(link: &mut VoiceLink, command: Command, r: NetAction)
    requires
        call_ensures(VoiceLink::on_command, (link, command), r),
        !(command is JoinVoice),
        !(command is LeaveVoice),
    ensures
        final(link)@ == old(link)@,
{
}

/// What the gateway said last counts: a later state of the user, and a later server, replace
/// the earlier ones.
pub proof fn law_the_last_word_counts(
    l1: &mut VoiceLink,
    guild_id: String,
    channel_id: String,
    asked: NetAction,
    early: VoiceSignal,
    l2: &mut VoiceLink,
    r2: Option<VoiceConnInfo>,
    late: VoiceSignal,
    l3: &mut VoiceLink,
    r3: Option<VoiceConnInfo>,
    other: VoiceSignal,
    l4: &mut VoiceLink,
    r4: Option<VoiceConnInfo>,
)
    requires
        call_ensures(VoiceLink::on_command, (l1, Command::JoinVoice { guild_id, channel_id }), asked),
        *old(l2) == *final(l1),
        call_ensures(VoiceLink::on_signal, (l2, early), r2),
        *old(l3) == *final(l2),
        call_ensures(VoiceLink::on_signal, (l3, late), r3),
        *old(l4) == *final(l3),
        call_ensures(VoiceLink::on_signal, (l4, other), r4),
        early is State ==> early->State_user_id@ == old(l1)@.user_id,
        late is State <==> early is State,
        late is State ==> late->State_user_id@ == old(l1)@.user_id,
        other is State <==> late is Server,
        r4 is Some,
    ensures
        r2 is None && r3 is None,
        late is State ==> r4->Some_0.session_id@ == late->State_session_id@,
        late is Server ==> r4->Some_0.token@ == late->token@,
        late is Server && late->endpoint is Some ==> r4->Some_0.endpoint@
            == late->endpoint->Some_0@,
        r4->Some_0.channel_id@ == channel_id@,
        r4->Some_0.guild_id@ == guild_id@,
{
}

/// A join that follows another one is the one that counts.
pub proof fn law_the_last_join_counts(
    l1: &mut VoiceLink,
    first: String,
    one: String,
    a1: NetAction,
    l2: &mut VoiceLink,
    second: String,
    other: String,
    a2: NetAction,
    l3: &mut VoiceLink,
    signal: VoiceSignal,
    r3: Option<VoiceConnInfo>,
    l4: &mut VoiceLink,
    last: VoiceSignal,
    r4: Option<VoiceConnInfo>,
)
    requires
        call_ensures(
            VoiceLink::on_command,
            (l1, Command::JoinVoice { guild_id: first, channel_id: one }),
            a1,
        ),
        *old(l2) == *final(l1),
        call_ensures(
            VoiceLink::on_command,
            (l2, Command::JoinVoice { guild_id: second, channel_id: other }),
            a2,
        ),
        *old(l3) == *final(l2),
        call_ensures(VoiceLink::on_signal, (l3, signal), r3),
        *old(l4) == *final(l3),
        call_ensures(VoiceLink::on_signal, (l4, last), r4),
    ensures
        r3 is None,
        r4 is Some ==> r4->Some_0.guild_id@ == second@ && r4->Some_0.channel_id@ == other@,
{
}

} // verus!

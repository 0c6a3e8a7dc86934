//! What the user does in the window, and what comes of it.

use vstd::prelude::*;

use crate::config::{target_view, without_text, Config};
use crate::model::{option_view, Channel, ChannelView};
use crate::state::{channels_view, AppEvent, Command};
use crate::text::{begins_with, holds, lower_text, trimmed};
use crate::ui::actions::{
    autojoin, ids_in, last_with_id, leave_voice, purge, Follow, Refresh, VoicePrompt,
};
use crate::ui::{first_with_id, is_snowflake, matches_filter, matching, snowflake, UiState};

verus! {

/// The channel at a place is the last one of the list with the id.
pub open spec fn is_last(list: Seq<Channel>, id: Seq<char>, j: int) -> bool {
    &&& 0 <= j < list.len()
    &&& list[j].id@ == id
    &&& forall|k: int| j < k < list.len() ==> (#[trigger] list[k]).id@ != id
}

/// No channel of the list has the id.
pub open spec fn is_missing(list: Seq<Channel>, id: Seq<char>) -> bool {
    forall|k: int| 0 <= k < list.len() ==> (#[trigger] list[k]).id@ != id
}

/// The last channel with an id: it has that id, it is in the list, and no later one has the
/// id.
pub proof fn law_last_with_id(list: Seq<ChannelView>, id: Seq<char>, j: int)
    requires
        0 <= j < list.len(),
        list[j].id == id,
        forall|k: int| j < k < list.len() ==> (#[trigger] list[k]).id != id,
    ensures
        last_with_id(list, id) == Some(list[j]),
    decreases list.len(),
{
    if j < list.len() - 1 {
        assert(list[list.len() - 1].id != id);
        let front = list.drop_last();
        assert forall|k: int| j < k < front.len() implies (#[trigger] front[k]).id != id by {
            assert(front[k] == list[k]);
        }
        law_last_with_id(front, id, j);
    }
}

/// None is found only where no channel has the id.
pub proof fn law_none_with_id(list: Seq<ChannelView>, id: Seq<char>)
    ensures
        last_with_id(list, id) is None <==> forall|k: int|
            0 <= k < list.len() ==> (#[trigger] list[k]).id != id,
    decreases list.len(),
{
    if list.len() > 0 {
        let front = list.drop_last();
        law_none_with_id(front, id);
        if last_with_id(list, id) is None {
            assert forall|k: int| 0 <= k < list.len() implies (#[trigger] list[k]).id != id by {
                if k < front.len() {
                    assert(front[k] == list[k]);
                }
            }
        }
        if forall|k: int| 0 <= k < list.len() ==> (#[trigger] list[k]).id != id {
            assert(list[list.len() - 1].id != id);
            assert forall|k: int| 0 <= k < front.len() implies (#[trigger] front[k]).id != id by {
                assert(front[k] == list[k]);
            }
        }
    }
}

/// The first channel with an id: it has that id, it is in the list, and no earlier one has
/// the id; none is found only where no channel has it.
pub proof fn law_first_with_id(list: Seq<ChannelView>, id: Seq<char>, j: int)
    ensures
        0 <= j < list.len() && list[j].id == id && (forall|k: int|
            0 <= k < j ==> (#[trigger] list[k]).id != id) ==> first_with_id(list, id) == Some(
            list[j],
        ),
        (forall|k: int| 0 <= k < list.len() ==> (#[trigger] list[k]).id != id) ==> first_with_id(
            list,
            id,
        ) is None,
    decreases list.len(),
{
    if list.len() > 0 {
        let rest = list.drop_first();
        law_first_with_id(rest, id, j - 1);
        if 0 <= j < list.len() && list[j].id == id && (forall|k: int|
            0 <= k < j ==> (#[trigger] list[k]).id != id) {
            if j > 0 {
                assert(list[0].id != id);
                assert(rest[j - 1] == list[j]);
                assert forall|k: int| 0 <= k < j - 1 implies (#[trigger] rest[k]).id != id by {
                    assert(rest[k] == list[k + 1]);
                }
            }
        }
        if forall|k: int| 0 <= k < list.len() ==> (#[trigger] list[k]).id != id {
            assert(list[0].id != id);
            assert forall|k: int| 0 <= k < rest.len() implies (#[trigger] rest[k]).id != id by {
                assert(rest[k] == list[k + 1]);
            }
        }
    }
}

/// The order is to join the channel of the server.
pub open spec fn joins(prompt: VoicePrompt, guild_id: Seq<char>, channel_id: Seq<char>) -> bool {
    &&& prompt.command is Some
    &&& prompt.command->Some_0 is JoinVoice
    &&& prompt.command->Some_0->JoinVoice_guild_id@ == guild_id
    &&& prompt.command->Some_0->JoinVoice_channel_id@ == channel_id
}

/// A double click on a followed channel depends on the last entry with the id that was
/// clicked, and on no other: a voice channel whose server is known is joined, under its own
/// id; anything else is not.
pub proof fn law_double_click(ui: &mut UiState, line: i32, r: Option<VoicePrompt>, j: int)
    requires
        call_ensures(UiState::on_voice_click, (ui, line), r),
        1 <= line <= old(ui).cfg.followed_channels@.len(),
    ensures
        r is Some,
        ({
            let id = old(ui).cfg.followed_channels@[line - 1]@;
            let list = old(ui).app.channels@;
            &&& is_missing(list, id) ==> r->Some_0.command is None
            &&& is_last(list, id, j) ==> {
                let c = list[j];
                &&& (c.kind == 2 || c.kind == 13) && c.guild_id is Some ==> joins(
                    r->Some_0,
                    c.guild_id->Some_0@,
                    id,
                )
                &&& c.kind != 2 && c.kind != 13 ==> r->Some_0.command is None
                &&& c.guild_id is None ==> r->Some_0.command is None
            }
        }),
        final(ui).app == old(ui).app,
        final(ui).active == old(ui).active,
        final(ui).cfg.followed_channels == old(ui).cfg.followed_channels,
{
    let id = old(ui).cfg.followed_channels@[line - 1]@;
    let list = old(ui).app.channels@;
    let views = channels_view(list);
    assert(old(ui).cfg.followed()[line - 1] == id);
    law_none_with_id(views, id);
    if is_missing(list, id) {
        assert forall|k: int| 0 <= k < views.len() implies (#[trigger] views[k]).id != id by {
            assert(views[k] == list[k]@);
        }
    }
    if is_last(list, id, j) {
        assert(views[j] == list[j]@);
        assert forall|k: int| j < k < views.len() implies (#[trigger] views[k]).id != id by {
            assert(views[k] == list[k]@);
        }
        law_last_with_id(views, id, j);
    }
}

/// What was joined is remembered: joining again joins the same channel of the same server. So
/// it is after a double click and after ids were entered.
pub proof fn law_last_voice_is_joined_again(
    ui: &mut UiState,
    line: i32,
    clicked: Option<VoicePrompt>,
    guild: &str,
    channel: &str,
    entered: VoicePrompt,
    by_click: bool,
    after: &UiState,
    again: VoicePrompt,
    g: Seq<char>,
    c: Seq<char>,
)
    requires
        if by_click {
            &&& call_ensures(UiState::on_voice_click, (ui, line), clicked)
            &&& clicked is Some
            &&& joins(clicked->Some_0, g, c)
        } else {
            &&& call_ensures(UiState::on_join, (ui, guild, channel), entered)
            &&& joins(entered, g, c)
        },
        *after == *final(ui),
        call_ensures(UiState::on_rejoin, (after,), again),
    ensures
        joins(again, g, c),
{
}

/// Joining again without a channel to join joins nothing, and so does a wish that is refused,
/// which leaves what is remembered.
pub proof fn law_nothing_to_join_again(
    ui: &UiState,
    again: VoicePrompt,
    other: &mut UiState,
    guild: &str,
    channel: &str,
    refused: VoicePrompt,
)
    requires
        call_ensures(UiState::on_rejoin, (ui,), again),
        ui.cfg.last_voice is None,
        call_ensures(UiState::on_join, (other, guild, channel), refused),
        refused.command is None,
    ensures
        again.command is None,
        crate::config::target_view(final(other).cfg.last_voice) == crate::config::target_view(
            old(other).cfg.last_voice,
        ),
{
}

/// An id is sixteen to twenty digits, and nothing else is one.
pub proof fn law_ids(s: &str, r: bool)
    requires
        call_ensures(is_snowflake, (s,), r),
    ensures
        r ==> 16 <= s@.len() <= 20,
        r ==> forall|i: int| 0 <= i < s@.len() ==> '0' <= #[trigger] s@[i] <= '9',
        16 <= s@.len() <= 20 && (forall|i: int|
            0 <= i < s@.len() ==> '0' <= #[trigger] s@[i] <= '9') ==> r,
{
    if 16 <= s@.len() <= 20 && (forall|i: int|
        0 <= i < s@.len() ==> '0' <= #[trigger] s@[i] <= '9') {
        assert forall|i: int| 0 <= i < s@.len() implies crate::text::is_digit(#[trigger] s@[i]) by {
            assert('0' <= s@[i] <= '9');
        }
    }
    if r {
        assert forall|i: int| 0 <= i < s@.len() implies '0' <= #[trigger] s@[i] <= '9' by {
            assert(crate::text::is_digit(s@[i]));
        }
    }
}

/// Ids that are entered are joined as they are entered, without the white space around them;
/// and what is no id joins nothing.
pub proof fn law_entered_ids_are_joined(
    ui: &mut UiState,
    guild: &str,
    channel: &str,
    r: VoicePrompt,
)
    requires
        call_ensures(UiState::on_join, (ui, guild, channel), r),
    ensures
        snowflake(trimmed(guild@)) && snowflake(trimmed(channel@)) ==> joins(
            r,
            trimmed(guild@),
            trimmed(channel@),
        ),
        !snowflake(trimmed(guild@)) || !snowflake(trimmed(channel@)) ==> r.command is None,
        r.command is Some ==> r.command->Some_0 is JoinVoice,
{
}

/// What is sent goes to the channel that is open, without the white space around it; without
/// a channel or without text nothing is sent.
pub proof fn law_compose(ui: &UiState, input: &str, r: Option<Command>)
    requires
        call_ensures(UiState::compose, (ui, input), r),
    ensures
        ui.active is Some && trimmed(input@).len() > 0 ==> {
            &&& r is Some
            &&& r->Some_0 is SendMessage
            &&& r->Some_0->SendMessage_channel_id@ == ui.active->Some_0@
            &&& r->Some_0->content@ == trimmed(input@)
        },
        ui.active is None || trimmed(input@).len() == 0 ==> r is None,
{
}

/// The order loads the messages of the channel.
pub open spec fn loads(command: Option<Command>, channel: Seq<char>) -> bool {
    &&& command is Some
    &&& command->Some_0 is LoadHistory
    &&& command->Some_0->LoadHistory_channel_id@ == channel
}

/// Choosing a followed channel opens the one under the line that was chosen, loads its
/// messages, and remembers it; what is then sent goes there.
pub proof fn law_chosen_channel_is_opened(
    ui: &mut UiState,
    line: i32,
    r: Option<Command>,
    after: &UiState,
    input: &str,
    sent: Option<Command>,
)
    requires
        call_ensures(UiState::on_select, (ui, line), r),
        *after == *final(ui),
        call_ensures(UiState::compose, (after, input), sent),
    ensures
        1 <= line <= old(ui).cfg.followed_channels@.len() ==> {
            let id = old(ui).cfg.followed_channels@[line - 1]@;
            &&& loads(r, id)
            &&& final(ui).active is Some
            &&& final(ui).active->Some_0@ == id
            &&& final(ui).cfg.last_channel is Some
            &&& final(ui).cfg.last_channel->Some_0@ == id
            &&& sent is Some ==> sent->Some_0 is SendMessage
                && sent->Some_0->SendMessage_channel_id@ == id
        },
        !(1 <= line <= old(ui).cfg.followed_channels@.len()) ==> r is None && *final(ui)
            == *old(ui),
        final(ui).app == old(ui).app,
{
    if 1 <= line <= old(ui).cfg.followed_channels@.len() {
        assert(old(ui).cfg.followed()[line - 1] == old(ui).cfg.followed_channels@[line - 1]@);
    }
}

/// The conversations that are shown are exactly those that match, in the order of the list.
pub proof fn law_matching(list: Seq<ChannelView>, filter: Seq<char>, c: ChannelView)
    ensures
        matching(Seq::empty(), filter) == Seq::<ChannelView>::empty(),
        matches_filter(c, filter) ==> matching(list.push(c), filter) == matching(list, filter).push(
            c,
        ),
        !matches_filter(c, filter) ==> matching(list.push(c), filter) == matching(list, filter),
        filter.len() == 0 ==> matching(list, filter) == list,
    decreases list.len(),
{
    assert(list.push(c).drop_last() =~= list);
    if filter.len() == 0 && list.len() > 0 {
        law_matching(list.drop_last(), filter, list.last());
        assert(list =~= list.drop_last().push(list.last()));
    }
}

/// A conversation matches where its label holds what is looked for, both in lower case.
pub proof fn law_what_matches(c: ChannelView, filter: Seq<char>, i: int)
    ensures
        filter.len() == 0 ==> matches_filter(c, filter),
        0 <= i && i + filter.len() <= lower_text(c.label()).len() && lower_text(c.label()).subrange(
            i,
            i + filter.len(),
        ) == filter ==> matches_filter(c, filter),
        matches_filter(c, filter) && filter.len() > 0 ==> exists|k: int|
            0 <= k <= lower_text(c.label()).len() && begins_with(
                #[trigger] lower_text(c.label()).skip(k),
                filter,
            ),
{
    let label = lower_text(c.label());
    if 0 <= i && i + filter.len() <= label.len() && label.subrange(i, i + filter.len()) == filter {
        assert(label.skip(i).take(filter.len() as int) =~= label.subrange(i, i + filter.len()));
        assert(begins_with(label.skip(i), filter));
    }
}

/// Without anything looked for, choosing a conversation opens the one under the line that was
/// chosen, and loads its messages.
pub proof fn law_chosen_conversation_is_opened(ui: &mut UiState, line: i32, r: Option<Command>)
    requires
        call_ensures(UiState::on_select_dm, (ui, line), r),
        lower_text(trimmed(old(ui).dm_filter@)).len() == 0,
    ensures
        1 <= line <= old(ui).app.dms@.len() ==> {
            let id = old(ui).app.dms@[line - 1].id@;
            &&& loads(r, id)
            &&& final(ui).active is Some
            &&& final(ui).active->Some_0@ == id
            &&& final(ui).cfg.last_channel is Some
            &&& final(ui).cfg.last_channel->Some_0@ == id
        },
        !(1 <= line <= old(ui).app.dms@.len()) ==> r is None && *final(ui) == *old(ui),
{
    let list = old(ui).app@.dms;
    let filter = lower_text(trimmed(old(ui).dm_filter@));
    if list.len() > 0 {
        law_matching(list.drop_last(), filter, list.last());
        assert(list =~= list.drop_last().push(list.last()));
    }
    law_matching(list, filter, list.last());
    if 1 <= line <= old(ui).app.dms@.len() {
        assert(list[line - 1] == old(ui).app.dms@[line - 1]@);
    }
}

/// Following: an id that was not followed is put at the end, what is there stays, and the user
/// is told what became of the wish.
pub proof fn law_following(ui: &mut UiState, input: &str, r: Follow)
    requires
        call_ensures(UiState::on_follow, (ui, input), r),
    ensures
        ({
            let before = old(ui).cfg.followed();
            let after = final(ui).cfg.followed();
            let id = trimmed(input@);
            &&& snowflake(id) ==> after.contains(id)
            &&& snowflake(id) && !before.contains(id) ==> after == before.push(id)
                && r is Added && r->Added_0@ == id
            &&& before.contains(id) || !snowflake(id) ==> after == before
            &&& snowflake(id) && before.contains(id) ==> r is Already
            &&& id.len() == 0 ==> r is Nothing
            &&& id.len() > 0 && !snowflake(id) ==> r is NotAnId
        }),
        final(ui).active == old(ui).active,
{
    crate::config::lemma_follow(old(ui).cfg.followed(), trimmed(input@));
    let before = old(ui).cfg.followed();
    let id = trimmed(input@);
    if before.contains(id) {
        let after = final(ui).cfg.followed();
        assert(!snowflake(id) || r is Already);
    } else if snowflake(id) {
        assert(before.push(id)[before.len() as int] == id);
    }
}

/// Giving a channel up: the one under the line is gone, all others stay, and it is neither
/// open nor remembered as open any more.
pub proof fn law_unfollowing(ui: &mut UiState, line: i32, r: bool, other: Seq<char>)
    requires
        call_ensures(UiState::on_unfollow, (ui, line), r),
    ensures
        1 <= line <= old(ui).cfg.followed_channels@.len() ==> {
            let id = old(ui).cfg.followed_channels@[line - 1]@;
            &&& r
            &&& !final(ui).cfg.followed().contains(id)
            &&& other != id ==> (final(ui).cfg.followed().contains(other)
                == old(ui).cfg.followed().contains(other))
            &&& final(ui).active is Some ==> final(ui).active->Some_0@ != id
            &&& final(ui).cfg.last_channel is Some ==> final(ui).cfg.last_channel->Some_0@ != id
            &&& old(ui).active is Some && old(ui).active->Some_0@ != id ==> final(ui).active is Some
                && final(ui).active->Some_0@ == old(ui).active->Some_0@
        },
        !(1 <= line <= old(ui).cfg.followed_channels@.len()) ==> !r && *final(ui) == *old(ui),
{
    if 1 <= line <= old(ui).cfg.followed_channels@.len() {
        let id = old(ui).cfg.followed_channels@[line - 1]@;
        assert(old(ui).cfg.followed()[line - 1] == id);
        crate::config::lemma_without_text(old(ui).cfg.followed(), id);
    }
}

/// What is followed and is an id stays when the preferences are cleaned, in order, and what is
/// not an id goes.
pub proof fn law_ids_in(list: Seq<Seq<char>>, id: Seq<char>)
    ensures
        ids_in(Seq::empty()) == Seq::<Seq<char>>::empty(),
        snowflake(id) ==> ids_in(list.push(id)) == ids_in(list).push(id),
        !snowflake(id) ==> ids_in(list.push(id)) == ids_in(list),
{
    assert(list.push(id).drop_last() =~= list);
}

/// Cleaning the preferences drops what is no id, and tells whether a followed channel went.
pub proof fn law_cleaning(cfg: &mut Config, r: bool)
    requires
        call_ensures(purge, (cfg,), r),
    ensures
        final(cfg).followed() == ids_in(old(cfg).followed()),
        r <==> final(cfg).followed() != old(cfg).followed(),
        old(cfg).last_channel is Some && snowflake(old(cfg).last_channel->Some_0@)
            ==> final(cfg).last_channel is Some && final(cfg).last_channel->Some_0@
            == old(cfg).last_channel->Some_0@,
        old(cfg).last_channel is None || !snowflake(old(cfg).last_channel->Some_0@)
            ==> final(cfg).last_channel is None,
{
}

/// Leaving is asked of the server that was entered.
pub proof fn law_leaving(guild: &str, r: Option<Command>)
    requires
        call_ensures(leave_voice, (guild,), r),
    ensures
        r is Some <==> trimmed(guild@).len() > 0,
        r is Some ==> r->Some_0 is LeaveVoice && r->Some_0->LeaveVoice_guild_id@ == trimmed(guild@),
{
}

/// A text of a server and a channel, with a colon between them, is the order to join the
/// channel of the server; a text without a colon is no order.
pub proof fn law_autojoin(spec: &str, guild: Seq<char>, channel: Seq<char>, r: Option<Command>)
    requires
        call_ensures(autojoin, (spec,), r),
    ensures
        spec@ == guild + seq![':'] + channel && !guild.contains(':') ==> {
            &&& r is Some
            &&& r->Some_0 is JoinVoice
            &&& r->Some_0->JoinVoice_guild_id@ == trimmed(guild)
            &&& r->Some_0->JoinVoice_channel_id@ == trimmed(channel)
        },
        !spec@.contains(':') ==> r is None,
{
    if spec@ == guild + seq![':'] + channel && !guild.contains(':') {
        assert(spec@[guild.len() as int] == ':');
        assert(spec@.contains(':'));
        assert forall|k: int| 0 <= k < guild.len() implies spec@[k] != ':' by {
            assert(spec@[k] == guild[k]);
            assert(guild.contains(guild[k]));
        }
        crate::laws::texts::law_first_char(spec@, ':', guild.len() as int);
        assert(spec@.take(guild.len() as int) =~= guild);
        assert(spec@.skip(guild.len() as int + 1) =~= channel);
    }
}

/// The window shows again what an event touches: the messages where it is about the open
/// channel, and each list where it brings that list; the state takes the event in, and what is
/// open stays open.
pub proof fn law_events_reach_the_screen(ui: &mut UiState, event: AppEvent, r: Refresh)
    requires
        old(ui).wf(),
        call_ensures(UiState::handle_event, (ui, event), r),
    ensures
        match event {
            AppEvent::NewMessage(m) => r.messages <==> old(ui).active is Some
                && old(ui).active->Some_0@ == m.channel_id@,
            AppEvent::Sent(m) => r.messages <==> old(ui).active is Some && old(ui).active->Some_0@
                == m.channel_id@,
            AppEvent::History { channel_id, messages } => r.messages <==> old(ui).active is Some
                && old(ui).active->Some_0@ == channel_id@,
            _ => !r.messages,
        },
        r.channels <==> event is ChannelInfo,
        r.dms <==> event is Dms,
        r.voice <==> event is VoiceUpdate,
        r.messages || r.channels || r.dms ==> r.views,
        final(ui).active == old(ui).active,
        final(ui).cfg == old(ui).cfg,
        final(ui).wf(),
{
}

/// What is asked for at the start: the messages and the name of every followed channel, and
/// the conversations.
pub proof fn law_startup(ui: &UiState, r: Vec<Command>, i: int)
    requires
        call_ensures(UiState::startup_commands, (ui,), r),
        0 <= i < ui.cfg.followed_channels@.len(),
    ensures
        r@.len() == 2 * ui.cfg.followed_channels@.len() + 1,
        loads(Some(r@[2 * i]), ui.cfg.followed_channels@[i]@),
        r@[2 * i + 1] is ResolveChannel,
        r@[2 * i + 1]->ResolveChannel_channel_id@ == ui.cfg.followed_channels@[i]@,
        r@[r@.len() - 1] is LoadDms,
{
    assert(ui.cfg.followed()[i] == ui.cfg.followed_channels@[i]@);
    assert(ui.cfg.followed().len() == ui.cfg.followed_channels@.len());
    assert(r@[2 * i]@ == (crate::state::CommandView::LoadHistory {
        channel_id: ui.cfg.followed()[i],
    }));
    assert(r@[2 * i + 1]@ == (crate::state::CommandView::ResolveChannel {
        channel_id: ui.cfg.followed()[i],
    }));
    assert(r@.last()@ == crate::state::CommandView::LoadDms);
}

/// What is open at the start: the channel that was open last, or else the first one that is
/// followed; and the place that is marked in the list is its first one there.
pub proof fn law_first_open(ui: &mut UiState, r: Option<usize>)
    requires
        call_ensures(UiState::open_initial, (ui,), r),
    ensures
        old(ui).cfg.last_channel is Some ==> final(ui).active is Some && final(
            ui).active->Some_0@ == old(ui).cfg.last_channel->Some_0@,
        old(ui).cfg.last_channel is None && old(ui).cfg.followed_channels@.len() > 0 ==> final(
            ui).active is Some && final(ui).active->Some_0@ == old(ui).cfg.followed_channels@[0]@
            && r == Some(0usize),
        r is Some ==> r->Some_0 < old(ui).cfg.followed_channels@.len() && final(ui).active is Some
            && old(ui).cfg.followed_channels@[r->Some_0 as int]@ == final(ui).active->Some_0@,
        old(ui).cfg.last_channel is None && old(ui).cfg.followed_channels@.len() == 0
            ==> r is None,
        final(ui).cfg == old(ui).cfg,
{
    let list = old(ui).cfg.followed();
    assert(list.len() == old(ui).cfg.followed_channels@.len());
    if r is Some {
        assert(list[r->Some_0 as int] == old(ui).cfg.followed_channels@[r->Some_0 as int]@);
    }
    if old(ui).cfg.last_channel is None && list.len() > 0 {
        assert(list[0] == old(ui).cfg.followed_channels@[0]@);
        assert(list.contains(list[0]));
        if r is Some && r->Some_0 > 0 {
            assert(Some(list[0]) != crate::ui::actions::initial_channel(old(ui).cfg));
        }
    }
}

/// The window at the start: nothing is open, nothing is looked for, and the preferences are the
/// user's; no channel keeps fewer than ten messages.
pub proof fn law_new_window(cfg: Config, ui: UiState)
    requires
        call_ensures(UiState::new, (cfg,), ui),
    ensures
        ui.cfg == cfg,
        ui.active is None,
        ui.dm_filter@.len() == 0,
        cfg.history_limit >= 10 ==> ui.app.history_limit == cfg.history_limit,
        cfg.history_limit < 10 ==> ui.app.history_limit == 10,
        ui.app.me is None,
        !ui.app.voice_connected,
        ui.app.channels@.len() == 0,
        ui.app.dms@.len() == 0,
        ui.wf(),
{
    assert(ui.app@.channels.len() == ui.app.channels@.len());
    assert(ui.app@.dms.len() == ui.app.dms@.len());
}

/// The buttons say whether what they switch is off or on.
pub proof fn law_buttons(on: bool, m: &'static str, d: &'static str)
    requires
        call_ensures(crate::ui::actions::mute_label, (on,), m),
        call_ensures(crate::ui::actions::deaf_label, (on,), d),
    ensures
        on ==> m@ == "🎙 Mic: OFF"@ && d@ == "🔊 Salida: OFF"@,
        !on ==> m@ == "🎙 Mic: ON"@ && d@ == "🔊 Salida: ON"@,
{
}

/// What is listed while something is looked for: every conversation whose label holds it, both
/// in lower case, and no other.
pub proof fn law_listed_conversations(ui: &UiState, r: Vec<&Channel>, i: int)
    requires
        call_ensures(UiState::filtered_dms, (ui,), r),
    ensures
        ({
            let wanted = lower_text(trimmed(ui.dm_filter@));
            &&& 0 <= i < r@.len() ==> {
                &&& wanted.len() == 0 || holds(lower_text(r@[i]@.label()), wanted)
                &&& exists|k: int|
                    0 <= k < ui.app.dms@.len() && (#[trigger] ui.app.dms@[k])@ == r@[i]@
            }
            &&& 0 <= i < ui.app.dms@.len() && (wanted.len() == 0 || holds(
                lower_text(ui.app.dms@[i]@.label()),
                wanted,
            )) ==> exists|k: int| 0 <= k < r@.len() && (#[trigger] r@[k])@ == ui.app.dms@[i]@
        }),
{
    let wanted = lower_text(trimmed(ui.dm_filter@));
    let all = ui.app@.dms;
    let got = r@.map_values(|c: &Channel| c@);
    assert(all.len() == ui.app.dms@.len());
    assert(got.len() == r@.len());
    if 0 <= i < r@.len() {
        assert(got[i] == r@[i]@);
        lemma_matching_has(all, wanted, got[i]);
        let k = choose|k: int| 0 <= k < all.len() && all[k] == got[i];
        assert(ui.app.dms@[k]@ == all[k]);
    }
    if 0 <= i < all.len() && (wanted.len() == 0 || holds(lower_text(all[i].label()), wanted)) {
        assert(all[i] == ui.app.dms@[i]@);
        assert(all.contains(all[i]));
        lemma_matching_has(all, wanted, all[i]);
        let k = choose|k: int| 0 <= k < got.len() && got[k] == all[i];
        assert(r@[k]@ == got[k]);
    }
}

proof fn lemma_matching_has(list: Seq<ChannelView>, filter: Seq<char>, c: ChannelView)
    ensures
        matching(list, filter).contains(c) <==> list.contains(c) && matches_filter(c, filter),
    decreases list.len(),
{
    if list.len() > 0 {
        let rest = list.drop_last();
        let x = list.last();
        lemma_matching_has(rest, filter, c);
        assert(list =~= rest.push(x));
        law_matching(rest, filter, x);
        let m = matching(rest, filter);
        assert(rest.push(x).contains(c) <==> rest.contains(c) || c == x) by {
            if rest.contains(c) {
                let k = choose|k: int| 0 <= k < rest.len() && rest[k] == c;
                assert(rest.push(x)[k] == c);
            }
            assert(rest.push(x)[rest.len() as int] == x);
        }
        assert(m.push(x).contains(c) <==> m.contains(c) || c == x) by {
            if m.contains(c) {
                let k = choose|k: int| 0 <= k < m.len() && m[k] == c;
                assert(m.push(x)[k] == c);
            }
            assert(m.push(x)[m.len() as int] == x);
        }
    }
}

/// Choosing a line opens the conversation that is listed there, and loads its messages.
pub proof fn law_listed_conversation_is_opened(
    before: &UiState,
    list: Vec<&Channel>,
    ui: &mut UiState,
    line: i32,
    r: Option<Command>,
)
    requires
        *before == *old(ui),
        call_ensures(UiState::filtered_dms, (before,), list),
        call_ensures(UiState::on_select_dm, (ui, line), r),
        1 <= line <= list@.len(),
    ensures
        loads(r, list@[line - 1]@.id),
        final(ui).active is Some,
        final(ui).active->Some_0@ == list@[line - 1]@.id,
{
    let got = list@.map_values(|c: &Channel| c@);
    assert(got[line - 1] == list@[line - 1]@);
    assert(got.len() == list@.len());
}

/// What the user is told of a double click: that the channel is not known yet, that it is not
/// for voice, that its server is not known yet, or that it is being joined. Unless it is joined,
/// what was joined last stays remembered.
pub proof fn law_told_of_a_click(ui: &mut UiState, line: i32, r: Option<VoicePrompt>, j: int)
    requires
        call_ensures(UiState::on_voice_click, (ui, line), r),
        1 <= line <= old(ui).cfg.followed_channels@.len(),
    ensures
        r is Some,
        ({
            let id = old(ui).cfg.followed_channels@[line - 1]@;
            let list = old(ui).app.channels@;
            &&& is_missing(list, id) ==> r->Some_0.status@
                == "voz: canal aún sin resolver; reintenta"@
            &&& is_last(list, id, j) ==> {
                let c = list[j];
                &&& c.kind != 2 && c.kind != 13 ==> r->Some_0.status@
                    == "voz: ese canal no es de voz (🔊)"@
                &&& (c.kind == 2 || c.kind == 13) && c.guild_id is None ==> r->Some_0.status@
                    == "voz: resolviendo el canal; reintenta en 1 s"@
                &&& (c.kind == 2 || c.kind == 13) && c.guild_id is Some ==> r->Some_0.status@
                    == "voz: conectando…"@
            }
        }),
        r->Some_0.command is None ==> target_view(final(ui).cfg.last_voice) == target_view(
            old(ui).cfg.last_voice,
        ),
{
    let id = old(ui).cfg.followed_channels@[line - 1]@;
    let list = old(ui).app.channels@;
    let views = channels_view(list);
    assert(old(ui).cfg.followed()[line - 1] == id);
    law_none_with_id(views, id);
    if is_missing(list, id) {
        assert forall|k: int| 0 <= k < views.len() implies (#[trigger] views[k]).id != id by {
            assert(views[k] == list[k]@);
        }
    }
    if is_last(list, id, j) {
        assert(views[j] == list[j]@);
        assert forall|k: int| j < k < views.len() implies (#[trigger] views[k]).id != id by {
            assert(views[k] == list[k]@);
        }
        law_last_with_id(views, id, j);
    }
}

/// What the user is told of ids that were entered, and of joining again.
pub proof fn law_told_of_joining(
    ui: &mut UiState,
    guild: &str,
    channel: &str,
    r: VoicePrompt,
    other: &UiState,
    again: VoicePrompt,
)
    requires
        call_ensures(UiState::on_join, (ui, guild, channel), r),
        call_ensures(UiState::on_rejoin, (other,), again),
    ensures
        trimmed(guild@).len() == 0 || trimmed(channel@).len() == 0 ==> r.status@
            == "voz: pon ID de servidor y de canal de voz"@,
        trimmed(guild@).len() > 0 && trimmed(channel@).len() > 0 && r.command is None ==> r.status@
            == "voz: usa IDs numéricos (Modo desarrollador → Copiar ID)"@,
        r.command is Some ==> r.status@ == "voz: conectando…"@,
        other.cfg.last_voice is Some ==> again.status@ == "voz: reuniéndote al último canal…"@,
        other.cfg.last_voice is Some ==> joins(
            again,
            other.cfg.last_voice->Some_0.guild_id@,
            other.cfg.last_voice->Some_0.channel_id@,
        ),
        other.cfg.last_voice is None ==> again.status@
            == "voz: aún no hay último canal; únete una vez y se recordará"@,
{
}

/// Giving up a channel that is followed once leaves the others as they stand.
pub proof fn law_unfollowing_keeps_the_order(ui: &mut UiState, line: i32, r: bool)
    requires
        call_ensures(UiState::on_unfollow, (ui, line), r),
        1 <= line <= old(ui).cfg.followed().len(),
        forall|k: int|
            0 <= k < old(ui).cfg.followed().len() && k != line - 1 ==> (
            #[trigger] old(ui).cfg.followed()[k]) != old(ui).cfg.followed()[line - 1],
    ensures
        final(ui).cfg.followed() == old(ui).cfg.followed().remove(line - 1),
{
    lemma_without_one(old(ui).cfg.followed(), line - 1);
}

proof fn lemma_without_one(list: Seq<Seq<char>>, i: int)
    requires
        0 <= i < list.len(),
        forall|k: int| 0 <= k < list.len() && k != i ==> (#[trigger] list[k]) != list[i],
    ensures
        without_text(list, list[i]) == list.remove(i),
    decreases list.len(),
{
    let front = list.drop_last();
    if i == list.len() - 1 {
        assert forall|k: int| 0 <= k < front.len() implies (#[trigger] front[k]) != list[i] by {
            assert(front[k] == list[k]);
        }
        lemma_without_none(front, list[i]);
        assert(list.remove(i) =~= front);
    } else {
        assert(list[list.len() - 1] != list[i]);
        assert(front[i] == list[i]);
        assert forall|k: int| 0 <= k < front.len() && k != i implies (#[trigger] front[k])
            != front[i] by {
            assert(front[k] == list[k]);
        }
        lemma_without_one(front, i);
        assert(list.remove(i) =~= front.remove(i).push(list.last()));
    }
}

proof fn lemma_without_none(list: Seq<Seq<char>>, id: Seq<char>)
    requires
        forall|k: int| 0 <= k < list.len() ==> (#[trigger] list[k]) != id,
    ensures
        without_text(list, id) == list,
    decreases list.len(),
{
    if list.len() > 0 {
        let front = list.drop_last();
        assert(list[list.len() - 1] != id);
        assert forall|k: int| 0 <= k < front.len() implies (#[trigger] front[k]) != id by {
            assert(front[k] == list[k]);
        }
        lemma_without_none(front, id);
        assert(list =~= front.push(list.last()));
    }
}

/// The preferences for sound and for how much is kept.
pub open spec fn same_sound(a: Config, b: Config) -> bool {
    a.voice == b.voice && a.history_limit == b.history_limit
}

/// What is chosen, followed or given up leaves the sound, what was joined last, what the
/// network told and what is looked for.
pub proof fn law_choices_leave_the_rest(
    a: &mut UiState,
    line: i32,
    ra: Option<Command>,
    b: &mut UiState,
    rb: Option<Command>,
    c: &mut UiState,
    rc: bool,
    d: &mut UiState,
    input: &str,
    rd: Follow,
)
    requires
        call_ensures(UiState::on_select, (a, line), ra),
        call_ensures(UiState::on_select_dm, (b, line), rb),
        call_ensures(UiState::on_unfollow, (c, line), rc),
        call_ensures(UiState::on_follow, (d, input), rd),
    ensures
        same_sound(final(a).cfg, old(a).cfg),
        final(a).cfg.last_voice == old(a).cfg.last_voice,
        final(a).cfg.followed() == old(a).cfg.followed(),
        final(a).app == old(a).app && final(a).dm_filter == old(a).dm_filter,
        same_sound(final(b).cfg, old(b).cfg),
        final(b).cfg.last_voice == old(b).cfg.last_voice,
        final(b).cfg.followed() == old(b).cfg.followed(),
        final(b).app == old(b).app && final(b).dm_filter == old(b).dm_filter,
        same_sound(final(c).cfg, old(c).cfg),
        final(c).cfg.last_voice == old(c).cfg.last_voice,
        final(c).app == old(c).app && final(c).dm_filter == old(c).dm_filter,
        same_sound(final(d).cfg, old(d).cfg),
        final(d).cfg.last_voice == old(d).cfg.last_voice,
        final(d).cfg.last_channel == old(d).cfg.last_channel,
        final(d).app == old(d).app && final(d).dm_filter == old(d).dm_filter,
{
}

/// Joining voice, and cleaning the preferences, leave what is followed, what is open and the
/// sound.
pub proof fn law_joining_leaves_the_rest(
    a: &mut UiState,
    line: i32,
    ra: Option<VoicePrompt>,
    b: &mut UiState,
    guild: &str,
    channel: &str,
    rb: VoicePrompt,
    c: &mut Config,
    rc: bool,
    d: &mut UiState,
    rd: Option<usize>,
)
    requires
        call_ensures(UiState::on_voice_click, (a, line), ra),
        call_ensures(UiState::on_join, (b, guild, channel), rb),
        call_ensures(purge, (c,), rc),
        call_ensures(UiState::open_initial, (d,), rd),
    ensures
        same_sound(final(a).cfg, old(a).cfg),
        final(a).cfg.last_channel == old(a).cfg.last_channel,
        final(a).cfg.followed_channels == old(a).cfg.followed_channels,
        final(a).active == old(a).active && final(a).app == old(a).app,
        same_sound(final(b).cfg, old(b).cfg),
        final(b).cfg.last_channel == old(b).cfg.last_channel,
        final(b).cfg.followed_channels == old(b).cfg.followed_channels,
        final(b).active == old(b).active && final(b).app == old(b).app,
        same_sound(*final(c), *old(c)),
        final(c).last_voice == old(c).last_voice,
        final(d).app == old(d).app && final(d).dm_filter == old(d).dm_filter,
        old(d).cfg.last_channel is None && old(d).cfg.followed().len() == 0 ==> option_view(
            final(d).active,
        ) == option_view(old(d).active),
{
}

} // verus!

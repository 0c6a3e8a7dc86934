//! What the state keeps of what came in, and what the window shows of it.

use vstd::prelude::*;

use crate::model::{Channel, ChannelView, Message, MessageView, User, UserView};
use crate::state::{
    has_id, messages_view, with_labels, AppEvent, AppState, ConnState, EventView, StateView,
};
use crate::text::{begins_with, decimal, holds, joined};
use crate::ui::{
    channel_details, channel_label, conn_icon, label_of, message_lines,
    render_content, UiState,
};

verus! {

/// Who is logged in, how the connection stands, what went wrong and how voice stands are what
/// was told last.
pub proof fn law_what_was_told_last(s: &mut AppState, event: AppEvent, done: ())
    requires
        old(s).wf(),
        call_ensures(AppState::apply, (s, event), done),
    ensures
        match event {
            AppEvent::Ready(user) => final(s).me is Some && final(s).me->Some_0@ == user@,
            AppEvent::Connection(c) => final(s).conn == c,
            AppEvent::Error(e) => final(s).last_error is Some && final(s).last_error->Some_0@
                == e@,
            AppEvent::VoiceUpdate { connected, text } => final(s).voice_connected == connected
                && final(s).voice_status is Some && final(s).voice_status->Some_0@ == text@,
            _ => true,
        },
        !(event is Connection) ==> final(s).conn == old(s).conn,
        !(event is VoiceUpdate) ==> final(s).voice_connected == old(s).voice_connected,
        final(s).history_limit == old(s).history_limit,
        final(s).wf(),
{
    assert(final(s)@.me == (match final(s).me {
        Some(user) => Some(user@),
        None => None,
    }));
}

/// A message that is new to its channel is kept behind the others; the oldest goes where there
/// are too many. One that is known, and one of another channel, changes nothing there.
pub proof fn law_new_messages_are_kept(
    s: &mut AppState,
    m: Message,
    sent: bool,
    done: (),
    before: &AppState,
    channel: &str,
    was: Vec<&Message>,
    after: &AppState,
    is: Vec<&Message>,
)
    requires
        old(s).wf(),
        if sent {
            call_ensures(AppState::apply, (s, AppEvent::Sent(m)), done)
        } else {
            call_ensures(AppState::apply, (s, AppEvent::NewMessage(m)), done)
        },
        *before == *old(s),
        *after == *final(s),
        call_ensures(AppState::channel_messages, (before, channel), was),
        call_ensures(AppState::channel_messages, (after, channel), is),
    ensures
        ({
            let a = was@.map_values(|x: &Message| x@);
            let b = is@.map_values(|x: &Message| x@);
            &&& channel@ != m.channel_id@ ==> b == a
            &&& channel@ == m.channel_id@ && has_id(a, m.id@) ==> b == a
            &&& channel@ == m.channel_id@ && !has_id(a, m.id@) && a.len() < old(s).history_limit
                ==> b == a.push(m@)
            &&& channel@ == m.channel_id@ && !has_id(a, m.id@) && a.len() == old(s).history_limit
                ==> b == a.drop_first().push(m@)
        }),
{
    let a = was@.map_values(|x: &Message| x@);
    let b = is@.map_values(|x: &Message| x@);
    let limit = old(s).history_limit;
    if channel@ == m.channel_id@ && !has_id(a, m.id@) && a.len() == limit {
        assert(b =~= a.drop_first().push(m@));
    }
}

/// The history of a channel, once loaded, is what is kept of it, or its newest part.
pub proof fn law_history_is_kept(
    s: &mut AppState,
    channel_id: String,
    messages: Vec<Message>,
    done: (),
    after: &AppState,
    channel: &str,
    is: Vec<&Message>,
)
    requires
        old(s).wf(),
        call_ensures(AppState::apply, (s, AppEvent::History { channel_id, messages }), done),
        *after == *final(s),
        channel@ == channel_id@,
        call_ensures(AppState::channel_messages, (after, channel), is),
    ensures
        messages@.len() <= old(s).history_limit ==> is@.len() == messages@.len(),
        messages@.len() > old(s).history_limit ==> is@.len() == old(s).history_limit,
        forall|i: int|
            0 <= i < is@.len() ==> (#[trigger] is@[i])@ == messages@[messages@.len() - is@.len()
                + i]@,
{
    let b = is@.map_values(|x: &Message| x@);
    let all = messages_view(messages@);
    assert(b.len() == is@.len());
    assert forall|i: int| 0 <= i < is@.len() implies (#[trigger] is@[i])@
        == messages@[messages@.len() - is@.len() + i]@ by {
        assert(b[i] == is@[i]@);
        assert(all[messages@.len() - is@.len() + i] == messages@[messages@.len() - is@.len()
            + i]@);
    }
}

/// The names that conversations bring: each under its own id, the last one where an id comes
/// twice; other names stay.
pub proof fn law_names(
    names: Map<Seq<char>, Seq<char>>,
    list: Seq<ChannelView>,
    c: ChannelView,
    other: Seq<char>,
)
    ensures
        with_labels(names, Seq::empty()) == names,
        with_labels(names, list.push(c)).contains_key(c.id),
        with_labels(names, list.push(c))[c.id] == c.label(),
        other != c.id ==> (with_labels(names, list.push(c)).contains_key(other) == with_labels(
            names,
            list,
        ).contains_key(other)),
        other != c.id && with_labels(names, list).contains_key(other) ==> with_labels(
            names,
            list.push(c),
        )[other] == with_labels(names, list)[other],
{
    assert(list.push(c).drop_last() =~= list);
}

/// A channel that was resolved is known from then on, by its name, and the others stay as they
/// were.
pub proof fn law_resolved_channels(s: StateView, c: ChannelView, other: Seq<char>)
    ensures
        s.after(EventView::ChannelInfo(c)).channels == s.channels.push(c),
        label_of(s.after(EventView::ChannelInfo(c)), c.id) == c.label(),
        other != c.id ==> label_of(s.after(EventView::ChannelInfo(c)), other) == label_of(s, other),
        !s.channel_names.contains_key(other) ==> label_of(s, other) == "# "@ + other,
{
}

/// The conversations, once loaded, are the ones that are listed.
pub proof fn law_conversations_are_listed(s: &mut AppState, list: Vec<Channel>, done: (), i: int)
    requires
        old(s).wf(),
        call_ensures(AppState::apply, (s, AppEvent::Dms(list)), done),
        0 <= i < list@.len(),
    ensures
        final(s).dms@.len() == list@.len(),
        final(s).dms@[i]@ == list@[i]@,
        final(s)@.channels == old(s)@.channels,
{
    let a = crate::state::channels_view(final(s).dms@);
    let b = crate::state::channels_view(list@);
    assert(a == b);
    assert(a.len() == final(s).dms@.len() && b.len() == list@.len());
    assert(a[i] == final(s).dms@[i]@ && b[i] == list@[i]@);
}

/// A user is shown by the name that was chosen, where there is one that is not empty, and
/// otherwise by the name of the account.
pub proof fn law_names_of_users(user: &User, r: &str)
    requires
        call_ensures(User::display_name, (user,), r),
    ensures
        user.global_name is Some && user.global_name->Some_0@.len() > 0 ==> r@
            == user.global_name->Some_0@,
        user.global_name is None || user.global_name->Some_0@.len() == 0 ==> r@ == user.username@,
{
}

/// A message is by whoever wrote it.
pub proof fn law_authors(m: &Message, r: String, name: &str)
    requires
        call_ensures(Message::author_name, (m,), r),
        m.author is Some ==> call_ensures(User::display_name, (&m.author->Some_0,), name),
    ensures
        m.author is Some ==> r@ == name@,
        m.author is None ==> r@ == "desconocido"@,
{
}

/// What kind a channel is: text, voice or a conversation, and never two of them.
pub proof fn law_kinds(c: &Channel, text: bool, voice: bool, dm: bool)
    requires
        call_ensures(Channel::is_text, (c,), text),
        call_ensures(Channel::is_voice, (c,), voice),
        call_ensures(Channel::is_dm, (c,), dm),
    ensures
        text <==> c.kind == 0 || c.kind == 5,
        voice <==> c.kind == 2 || c.kind == 13,
        dm <==> c.kind == 1 || c.kind == 3,
        !(text && voice) && !(text && dm) && !(voice && dm),
{
}

/// A channel is shown by its name, with a sign for voice or for text; one without a name by
/// who takes part; and one without either by its id.
pub proof fn law_labels(c: &Channel, r: String)
    requires
        call_ensures(Channel::label, (c,), r),
    ensures
        c.name is Some && c.name->Some_0@.len() > 0 && (c.kind == 2 || c.kind == 13) ==> r@
            == "🔊 "@ + c.name->Some_0@,
        c.name is Some && c.name->Some_0@.len() > 0 && c.kind != 2 && c.kind != 13 ==> r@ == "# "@
            + c.name->Some_0@,
        (c.name is None || c.name->Some_0@.len() == 0) && c.recipients@.len() == 1 ==> r@ == "@ "@
            + c.recipients@[0]@.name(),
        (c.name is None || c.name->Some_0@.len() == 0) && c.recipients@.len() == 0 ==> r@
            == "canal "@ + c.id@,
{
    let names = c@.recipients.map_values(|u: UserView| u.name());
    if c.recipients@.len() == 1 {
        assert(names.len() == 1);
        assert(names[0] == c.recipients@[0]@.name());
    }
}

/// The messages of the open channel are shown one below the other, each as who wrote it, a
/// colon and what was written, or a remark that there is no text.
pub proof fn law_shown_messages(list: Seq<MessageView>, m: MessageView)
    ensures
        message_lines(Seq::empty()) == Seq::<char>::empty(),
        message_lines(list.push(m)) == message_lines(list) + m.author_name() + ": "@ + (
        if m.content.len() > 0 {
            m.content
        } else {
            "(sin texto)"@
        }) + "\n"@,
{
    assert(list.push(m).drop_last() =~= list);
}

/// What is shown is the messages of the channel that is open, and nothing where none is.
pub proof fn law_open_channel_is_shown(
    ui: &UiState,
    r: String,
    channel: &str,
    messages: Vec<&Message>,
)
    requires
        ui.wf(),
        call_ensures(UiState::messages_text, (ui,), r),
        call_ensures(AppState::channel_messages, (&ui.app, channel), messages),
        ui.active is Some ==> channel@ == ui.active->Some_0@,
    ensures
        ui.active is None ==> r@.len() == 0,
        ui.active is Some ==> r@ == message_lines(messages@.map_values(|m: &Message| m@)),
{
}

/// The text of a message is shown as it is; without any, a remark is.
pub proof fn law_shown_text(m: &Message, r: String)
    requires
        call_ensures(render_content, (m,), r),
    ensures
        m.content@.len() > 0 ==> r@ == m.content@,
        m.content@.len() == 0 ==> r@ == "(sin texto)"@,
{
}

/// The title is the label of the open channel, and its label is its name where it is known.
pub proof fn law_titles(ui: &UiState, title: String, id: &str, label: String, plain: String)
    requires
        ui.wf(),
        call_ensures(UiState::active_title_text, (ui,), title),
        call_ensures(UiState::display_label, (ui, id), label),
        call_ensures(channel_label, (id,), plain),
    ensures
        ui.active is Some && ui.active->Some_0@ == id@ ==> title@ == label@,
        ui.app@.channel_names.contains_key(id@) ==> label@ == ui.app@.channel_names[id@],
        !ui.app@.channel_names.contains_key(id@) ==> label@ == plain@,
        plain@ == "# "@ + id@,
{
}

proof fn lemma_holds(front: Seq<char>, part: Seq<char>, back: Seq<char>)
    ensures
        holds(front + part + back, part),
{
    let s = front + part + back;
    let i = front.len() as int;
    assert(s.skip(i).take(part.len() as int) =~= part);
    assert(begins_with(s.skip(i), part));
}

/// The details of the open channel start with its label, then give its id, what is known of
/// it, and how many messages are loaded.
pub proof fn law_details(ui: &UiState, r: String)
    requires
        ui.wf(),
        call_ensures(UiState::info_text, (ui,), r),
        ui.active is Some,
    ensures
        ({
            let id = ui.active->Some_0@;
            &&& begins_with(r@, "Nombre:\n  "@ + label_of(ui.app@, id))
            &&& holds(r@, id)
            &&& holds(r@, decimal(ui.app@.of_channel(id).len()))
        }),
{
    let id = ui.active->Some_0@;
    let app = ui.app@;
    let name = "Nombre:\n  "@ + label_of(app, id);
    let head = name + "\n\nID del canal:\n  "@ + id + "\n"@;
    let known = match crate::ui::first_with_id(app.dms + app.channels, id) {
        Some(c) => channel_details(c),
        None => Seq::<char>::empty(),
    };
    let count = decimal(app.of_channel(id).len());
    let tail = "\nMensajes cargados:\n  "@ + count + "\n"@;
    assert(r@ == head + known + tail);
    assert(r@.take(name.len() as int) =~= name);
    lemma_holds(name + "\n\nID del canal:\n  "@, id, "\n"@ + known + tail);
    assert(r@ =~= name + "\n\nID del canal:\n  "@ + id + ("\n"@ + known + tail));
    lemma_holds(head + known + "\nMensajes cargados:\n  "@, count, "\n"@);
    assert(r@ =~= head + known + "\nMensajes cargados:\n  "@ + count + "\n"@);
}

/// The status line: the error, where there is one; otherwise how the connection stands, and
/// who is logged in.
pub proof fn law_status(ui: &UiState, error: &str, failed: String, fine: String, icon: String)
    requires
        call_ensures(UiState::status_label, (ui, Some(error)), failed),
        call_ensures(UiState::status_label, (ui, None), fine),
        call_ensures(conn_icon, (ui.app.conn,), icon),
    ensures
        failed@ == "⚠ "@ + error@,
        ui.app.me is Some && ui.app.me->Some_0@.name().len() > 0 ==> fine@ == icon@ + " — "@
            + ui.app.me->Some_0@.name(),
        ui.app.me is None ==> fine@ == ui.app.conn.label_text(),
        holds(icon@, ui.app.conn.label_text()),
{
    let c = ui.app.conn;
    let label = c.label_text();
    let dot = match c {
        ConnState::Connected => "🟢"@,
        ConnState::Connecting => "🟡"@,
        ConnState::Reconnecting => "🟡"@,
        ConnState::Offline => "🔴"@,
    };
    lemma_holds(dot + " "@, label, Seq::empty());
    assert(icon@ =~= dot + " "@ + label + Seq::<char>::empty());
}

/// What is known of a channel tells what it is, where its server is, and who takes part.
pub proof fn law_what_is_known(c: ChannelView)
    ensures
        c.kind == 2 || c.kind == 13 ==> holds(channel_details(c), "Canal de voz"@),
        c.kind == 1 || c.kind == 3 ==> holds(channel_details(c), "Mensaje directo"@),
        c.kind == 0 || c.kind == 5 ==> holds(channel_details(c), "Canal de texto"@),
        c.guild_id is Some ==> holds(channel_details(c), c.guild_id->Some_0),
        c.recipients.len() == 1 ==> holds(channel_details(c), c.recipients[0].name()),
{
    let kind = crate::ui::kind_text(c);
    let server = crate::ui::server_details(c);
    let people = crate::ui::people_details(c);
    let s = channel_details(c);
    lemma_holds("\nTipo:\n  "@, kind, "\n"@ + server + people);
    assert(s =~= "\nTipo:\n  "@ + kind + ("\n"@ + server + people));
    if c.guild_id is Some {
        let g = c.guild_id->Some_0;
        let front = crate::ui::kind_details(c) + "\nServidor:\n  "@;
        lemma_holds(front, g, "\n"@ + people);
        assert(s =~= front + g + ("\n"@ + people));
    }
    if c.recipients.len() == 1 {
        let names = c.recipients.map_values(|u: UserView| u.name());
        let n = c.recipients[0].name();
        assert(names.len() == 1 && names[0] == n);
        assert(joined(names, "\n  "@) == n);
        let front = crate::ui::kind_details(c) + server + "\nParticipantes:\n  "@;
        lemma_holds(front, n, "\n"@);
        assert(s =~= front + n + "\n"@);
    }
}

/// An event changes what it is about, and leaves the rest: who is logged in, what went wrong,
/// the messages, the channels, the conversations and the names.
pub proof fn law_events_leave_the_rest(s: &mut AppState, event: AppEvent, done: (), i: int)
    requires
        old(s).wf(),
        call_ensures(AppState::apply, (s, event), done),
    ensures
        !(event is Ready) ==> final(s)@.me == old(s)@.me,
        !(event is Error) ==> final(s)@.last_error == old(s)@.last_error,
        !(event is VoiceUpdate) ==> final(s)@.voice_status == old(s)@.voice_status,
        !(event is NewMessage) && !(event is Sent) && !(event is History) ==> final(s)@.messages
            == old(s)@.messages,
        !(event is Channels) && !(event is ChannelInfo) ==> final(s)@.channels
            == old(s)@.channels,
        !(event is Dms) ==> final(s)@.dms == old(s)@.dms,
        !(event is Dms) && !(event is ChannelInfo) ==> final(s)@.channel_names
            == old(s)@.channel_names,
        final(s)@.active_channel == old(s)@.active_channel,
        event is Channels ==> {
            let list = event->Channels_0@;
            &&& final(s).channels@.len() == list.len()
            &&& 0 <= i < list.len() ==> final(s).channels@[i]@ == list[i]@
        },
{
    if event is Channels {
        let list = event->Channels_0@;
        let a = crate::state::channels_view(final(s).channels@);
        let b = crate::state::channels_view(list);
        assert(a == b);
        assert(a.len() == final(s).channels@.len() && b.len() == list.len());
        if 0 <= i < list.len() {
            assert(a[i] == final(s).channels@[i]@ && b[i] == list[i]@);
        }
    }
}

/// A channel that was resolved is the last one that is known then, and its label is the one it
/// has of itself.
pub proof fn law_resolved_channel_is_labelled(
    s: &mut AppState,
    c: Channel,
    done: (),
    label: String,
    ui: &UiState,
    id: &str,
    shown: String,
)
    requires
        old(s).wf(),
        call_ensures(AppState::apply, (s, AppEvent::ChannelInfo(c)), done),
        call_ensures(Channel::label, (&c,), label),
        ui.app == *final(s),
        id@ == c.id@,
        call_ensures(UiState::display_label, (ui, id), shown),
    ensures
        shown@ == label@,
        final(s).channels@.len() == old(s).channels@.len() + 1,
        final(s).channels@.last()@ == c@,
{
    let a = crate::state::channels_view(final(s).channels@);
    let b = crate::state::channels_view(old(s).channels@);
    assert(a == b.push(c@));
    assert(a.len() == final(s).channels@.len() && b.len() == old(s).channels@.len());
    assert(a.last() == final(s).channels@.last()@);
}

/// A conversation in the list is shown by the label it has of itself.
pub proof fn law_conversations_are_labelled(
    s: &mut AppState,
    list: Vec<Channel>,
    done: (),
    i: int,
    ui: &UiState,
    id: &str,
    shown: String,
)
    requires
        old(s).wf(),
        call_ensures(AppState::apply, (s, AppEvent::Dms(list)), done),
        0 <= i < list@.len(),
        forall|k: int| i < k < list@.len() ==> (#[trigger] list@[k]).id@ != list@[i].id@,
        ui.app == *final(s),
        id@ == list@[i].id@,
        call_ensures(UiState::display_label, (ui, id), shown),
    ensures
        shown@ == list@[i]@.label(),
{
    let all = crate::state::channels_view(list@);
    assert(all.len() == list@.len());
    assert(all[i] == list@[i]@);
    assert forall|k: int| i < k < all.len() implies (#[trigger] all[k]).id != all[i].id by {
        assert(all[k] == list@[k]@);
    }
    lemma_labelled(old(s)@.channel_names, all, i);
}

proof fn lemma_labelled(names: Map<Seq<char>, Seq<char>>, list: Seq<ChannelView>, i: int)
    requires
        0 <= i < list.len(),
        forall|k: int| i < k < list.len() ==> (#[trigger] list[k]).id != list[i].id,
    ensures
        with_labels(names, list).contains_key(list[i].id),
        with_labels(names, list)[list[i].id] == list[i].label(),
    decreases list.len(),
{
    let rest = list.drop_last();
    law_names(names, rest, list.last(), list[i].id);
    assert(list =~= rest.push(list.last()));
    if i < rest.len() {
        assert(list[list.len() - 1].id != list[i].id);
        assert forall|k: int| i < k < rest.len() implies (#[trigger] rest[k]).id
            != rest[i].id by {
            assert(rest[k] == list[k]);
        }
        lemma_labelled(names, rest, i);
    }
}

/// A channel without a name is shown by all who take part, in order.
pub proof fn law_labels_of_groups(c: &Channel, r: String, names: Seq<Seq<char>>)
    requires
        call_ensures(Channel::label, (c,), r),
        c.name is None || c.name->Some_0@.len() == 0,
        c.recipients@.len() > 0,
        names.len() == c.recipients@.len(),
        forall|i: int| 0 <= i < names.len() ==> #[trigger] names[i] == c.recipients@[i]@.name(),
    ensures
        r@ == "@ "@ + joined(names, ", "@),
{
    assert(c@.recipients.map_values(|u: UserView| u.name()) =~= names);
}

/// How the connection stands is shown in words, with a sign in front that is green only for one
/// that is up and red only for one that is down.
pub proof fn law_connections(c: ConnState, label: &'static str, icon: String)
    requires
        call_ensures(ConnState::label, (&c,), label),
        call_ensures(conn_icon, (c,), icon),
    ensures
        c == ConnState::Connected ==> label@ == "conectado"@ && icon@ == "🟢"@ + " "@ + label@,
        c == ConnState::Connecting ==> label@ == "conectando…"@ && icon@ == "🟡"@ + " "@ + label@,
        c == ConnState::Reconnecting ==> label@ == "reconectando…"@ && icon@ == "🟡"@ + " "@
            + label@,
        c == ConnState::Offline ==> label@ == "sin conexión"@ && icon@ == "🔴"@ + " "@ + label@,
{
}

/// Without an open channel the window says so; a user without a name is not named.
pub proof fn law_nothing_is_open(ui: &UiState, title: String, details: String, status: String)
    requires
        ui.wf(),
        ui.active is None,
        call_ensures(UiState::active_title_text, (ui,), title),
        call_ensures(UiState::info_text, (ui,), details),
        call_ensures(UiState::status_label, (ui, None), status),
    ensures
        title@ == "Selecciona un canal o DM"@,
        details@
            == "Sin conversación activa.\n\nElige un canal o un mensaje directo para ver sus datos aquí."@,
        ui.app.me is Some && ui.app.me->Some_0@.name().len() == 0 ==> status@
            == ui.app.conn.label_text(),
{
}

/// The details of the open channel tell what is known of it: of the first conversation with its
/// id, or else of the first channel that was resolved to it; of neither there is nothing.
pub proof fn law_what_the_details_tell(ui: &UiState, r: String, i: int)
    requires
        ui.wf(),
        call_ensures(UiState::info_text, (ui,), r),
        ui.active is Some,
    ensures
        ({
            let id = ui.active->Some_0@;
            let head = "Nombre:\n  "@ + label_of(ui.app@, id) + "\n\nID del canal:\n  "@ + id
                + "\n"@;
            let tail = "\nMensajes cargados:\n  "@ + decimal(ui.app@.of_channel(id).len()) + "\n"@;
            let dms = ui.app@.dms;
            let channels = ui.app@.channels;
            &&& 0 <= i < dms.len() && first_at(dms, id, i) ==> r@ == head + channel_details(dms[i])
                + tail
            &&& 0 <= i < channels.len() && none_at(dms, id) && first_at(channels, id, i) ==> r@
                == head + channel_details(channels[i]) + tail
            &&& none_at(dms, id) && none_at(channels, id) ==> r@ == head + tail
        }),
{
    let id = ui.active->Some_0@;
    let dms = ui.app@.dms;
    let channels = ui.app@.channels;
    let all = dms + channels;
    let head = "Nombre:\n  "@ + label_of(ui.app@, id) + "\n\nID del canal:\n  "@ + id + "\n"@;
    if 0 <= i < dms.len() && first_at(dms, id, i) {
        assert forall|k: int| 0 <= k < i implies (#[trigger] all[k]).id != id by {
            assert(all[k] == dms[k]);
        }
        assert(all[i] == dms[i]);
        lemma_first_at(all, id, i);
    }
    if none_at(dms, id) {
        assert forall|k: int| 0 <= k < dms.len() implies (#[trigger] all[k]).id != id by {
            assert(all[k] == dms[k]);
        }
        if 0 <= i < channels.len() && first_at(channels, id, i) {
            let at = dms.len() + i;
            assert(all[at] == channels[i]);
            assert forall|k: int| 0 <= k < at implies (#[trigger] all[k]).id != id by {
                if k >= dms.len() {
                    assert(all[k] == channels[k - dms.len()]);
                }
            }
            lemma_first_at(all, id, at);
        }
        if none_at(channels, id) {
            assert forall|k: int| 0 <= k < all.len() implies (#[trigger] all[k]).id != id by {
                if k >= dms.len() {
                    assert(all[k] == channels[k - dms.len()]);
                }
            }
            lemma_none_at(all, id);
            assert(head + Seq::<char>::empty() =~= head);
        }
    }
}

/// The channel at a place is the first one with the id.
pub open spec fn first_at(list: Seq<ChannelView>, id: Seq<char>, i: int) -> bool {
    list[i].id == id && forall|k: int| 0 <= k < i ==> (#[trigger] list[k]).id != id
}

/// No channel has the id.
pub open spec fn none_at(list: Seq<ChannelView>, id: Seq<char>) -> bool {
    forall|k: int| 0 <= k < list.len() ==> (#[trigger] list[k]).id != id
}

proof fn lemma_first_at(list: Seq<ChannelView>, id: Seq<char>, i: int)
    requires
        0 <= i < list.len(),
        first_at(list, id, i),
    ensures
        crate::ui::first_with_id(list, id) == Some(list[i]),
    decreases list.len(),
{
    if i > 0 {
        assert(list[0].id != id);
        let rest = list.drop_first();
        assert forall|k: int| 0 <= k < i - 1 implies (#[trigger] rest[k]).id != id by {
            assert(rest[k] == list[k + 1]);
        }
        lemma_first_at(rest, id, i - 1);
    }
}

proof fn lemma_none_at(list: Seq<ChannelView>, id: Seq<char>)
    requires
        none_at(list, id),
    ensures
        crate::ui::first_with_id(list, id) is None,
    decreases list.len(),
{
    if list.len() > 0 {
        assert(list[0].id != id);
        let rest = list.drop_first();
        assert forall|k: int| 0 <= k < rest.len() implies (#[trigger] rest[k]).id != id by {
            assert(rest[k] == list[k + 1]);
        }
        lemma_none_at(rest, id);
    }
}

/// The state at the start: nobody is logged in, the connection is on its way, and nothing is
/// kept; no channel will keep fewer than ten messages.
pub proof fn law_new_states(limit: usize, s: AppState, channel: &str, messages: Vec<&Message>)
    requires
        call_ensures(AppState::new, (limit,), s),
        call_ensures(AppState::channel_messages, (&s, channel), messages),
    ensures
        s.me is None,
        s.conn == ConnState::Connecting,
        s.active_channel is None,
        s.channels@.len() == 0,
        s.dms@.len() == 0,
        messages@.len() == 0,
        limit >= 10 ==> s.history_limit == limit,
        limit < 10 ==> s.history_limit == 10,
        s.last_error is None,
        s.voice_status is None,
        !s.voice_connected,
        s.wf(),
{
    assert(s@.channels.len() == s.channels@.len());
    assert(s@.dms.len() == s.dms@.len());
    assert(messages@.map_values(|m: &Message| m@).len() == messages@.len());
    assert(s@.active_channel == crate::model::option_view(s.active_channel));
    assert(s@.last_error == crate::model::option_view(s.last_error));
    assert(s@.voice_status == crate::model::option_view(s.voice_status));
}

} // verus!

//! What holds of the client of a relay.

use crate::client::{is_unknown, new_client, ClientView, SessionActionView, SessionEvent};
use crate::client::{WsTransport, QUEUE_CAPACITY};
use crate::client::{SessionAction, SessionEnd, HANDSHAKE_SECS, RECONNECT_SECS};
use crate::json::{json_document, json_object_text, ScalarView};
use crate::packet::{lemma_words_differ, read_packet, FrameKind, FrameView, PacketView};
use crate::state::StateView;
use crate::transport::DglabTransport;
use vstd::prelude::*;

verus! {

/// The id that a session has got first stays its id, and the one that is shown stays with it.
pub proof fn law_first_id_stays(c: ClientView, p: PacketView)
    requires
        c.client_id.len() > 0,
        c.shared.client_id.len() > 0,
    ensures
        c.received(p).client_id == c.client_id,
        c.received(p).shared.client_id == c.shared.client_id,
{
}

/// The id that is shown is the session's own, once the session has one.
pub open spec fn shows_own_id(c: ClientView) -> bool {
    c.client_id.len() > 0 ==> c.shared.client_id == c.client_id
}

/// What is shown is the session's own id from the start on, in the first session and in every later
/// one.
pub proof fn law_own_id_is_shown(
    url: Seq<char>,
    c: ClientView,
    event: SessionEvent,
    p: PacketView,
    strength: u8,
)
    requires
        shows_own_id(c),
    ensures
        shows_own_id(new_client(url)),
        shows_own_id(c.started()),
        shows_own_id(c.received(p)),
        shows_own_id(c.stepped(event)),
        shows_own_id(c.strengthened(strength)),
        shows_own_id(WsTransport::disconnected(c)),
{
}

/// A session that has no id yet takes the first one that the relay gives, and shows it, whatever
/// was shown in an earlier session.
pub proof fn law_first_id_is_taken(c: ClientView, p: PacketView)
    requires
        p.kind == Some("bind"@),
        p.client_id is Some,
        c.client_id.len() == 0,
    ensures
        c.received(p).client_id == p.client_id->0,
        p.client_id->0.len() > 0 ==> c.received(p).shared.client_id == p.client_id->0,
        c.link(p) is Some,
{
}

/// The client becomes paired only by a bind message that says 200, and such a message always pairs
/// it.
pub proof fn law_paired_by_bind_200(c: ClientView, p: PacketView)
    ensures
        p.kind == Some("bind"@) && p.message == Some("200"@) ==> c.received(p).shared.paired,
        !c.shared.paired && c.received(p).shared.paired ==> p.kind == Some("bind"@) && p.message
            == Some("200"@),
{
}

/// The client ceases to be paired only by a break, and a break always ends the pairing and the
/// session.
pub proof fn law_unpaired_by_break(c: ClientView, p: PacketView)
    ensures
        p.kind == Some("break"@) ==> !c.received(p).shared.paired && c.answer(p) is End,
        c.shared.paired && !c.received(p).shared.paired ==> p.kind == Some("break"@),
{
    lemma_words_differ();
}

/// A heartbeat is answered with 200, under the ids of the session, and changes nothing.
pub proof fn law_heartbeat_is_answered(c: ClientView, p: PacketView)
    requires
        p.kind == Some("heartbeat"@),
    ensures
        c.received(p) == c,
        c.reply(p) is Some,
        c.reply(p)->0.as_packet() == (PacketView {
            kind: Some("heartbeat"@),
            client_id: Some(c.client_id),
            target_id: Some(c.target_id),
            message: Some("200"@),
        }),
{
    lemma_words_differ();
}

/// A text that is no JSON document, or whose type is no word that the client knows, changes nothing
/// and calls for no more than a note.
pub proof fn law_other_texts_are_passed_over(c: ClientView, text: String)
    requires
        match read_packet(text@) {
            Some(p) => is_unknown(p),
            None => true,
        },
    ensures
        c.stepped(SessionEvent::Text(text)) == c,
        c.action(SessionEvent::Text(text)) == SessionActionView::Unknown,
{
}

/// The line of strengths never grows beyond its capacity.
pub proof fn law_queue_is_bounded(c: ClientView, strength: u8, event: SessionEvent)
    requires
        c.queue.len() <= QUEUE_CAPACITY,
    ensures
        c.strengthened(strength).queue.len() <= QUEUE_CAPACITY,
        c.stepped(event).queue.len() <= QUEUE_CAPACITY,
        c.started().queue.len() <= QUEUE_CAPACITY,
{
}

/// A strength that finds room is put last, and the one that has waited longest is the next to be
/// sent.
pub proof fn law_queue_is_in_order(c: ClientView, strength: u8)
    requires
        0 < c.queue.len() < QUEUE_CAPACITY,
    ensures
        c.strengthened(strength).queue.last() == strength,
        c.strengthened(strength).command_frames() == c.command_frames(),
        c.strengthened(strength).stepped(SessionEvent::Command).queue == c.stepped(
            SessionEvent::Command,
        ).queue.push(strength),
{
    assert(c.strengthened(strength).stepped(SessionEvent::Command).queue =~= c.stepped(
        SessionEvent::Command,
    ).queue.push(strength));
    assert(c.strengthened(strength).command_frames() =~= c.command_frames());
}

/// A strength is sent as two messages, one for each channel, both with that strength.
pub proof fn law_command_sets_both_channels(c: ClientView)
    requires
        c.queue.len() > 0,
    ensures
        c.command_frames().len() == 2,
        forall|k: int|
            0 <= k < 2 ==> #[trigger] c.command_frames()[k] == (FrameView::SetChannel {
                channel: (k + 1) as u8,
                strength: c.queue[0],
                client_id: c.client_id,
                target_id: c.target_id,
            }),
{
}

/// A new session knows no ids, but what the user interface reads stays.
pub proof fn law_session_starts_anew(c: ClientView)
    ensures
        WsTransport::is_connected(c.started()),
        c.started().client_id.len() == 0,
        c.started().target_id.len() == 0,
        c.started().shared == c.shared,
        c.started().queue == c.queue,
{
}

/// A bind message gives a session that has no id its id, and one with an id keeps it; it names the
/// APP where it names one; it pairs where it says 200. The id of the session is shown, and one that
/// came while none was shown. Nothing else changes, whatever the ids and however long they are.
pub proof fn law_bind(c: ClientView, p: PacketView)
    requires
        p.kind == Some("bind"@),
    ensures
        ({
            let t = c.received(p);
            &&& c.client_id.len() > 0 || p.client_id is None ==> t.client_id == c.client_id
            &&& c.client_id.len() == 0 && p.client_id is Some ==> t.client_id == p.client_id->0
            &&& p.target_id is None || p.target_id->0.len() == 0 ==> t.target_id == c.target_id
            &&& p.target_id is Some && p.target_id->0.len() > 0 ==> t.target_id == p.target_id->0
            &&& p.client_id is None ==> t.shared.client_id == c.shared.client_id
            &&& p.client_id is Some && c.client_id.len() == 0 && p.client_id->0.len() > 0
                ==> t.shared.client_id == p.client_id->0
            &&& p.client_id is Some && (c.client_id.len() > 0 || p.client_id->0.len() == 0) && (
            c.shared.client_id.len() > 0) ==> t.shared.client_id == c.shared.client_id
            &&& p.client_id is Some && c.shared.client_id.len() == 0 ==> t.shared.client_id
                == p.client_id->0
            &&& t.shared.paired == (c.shared.paired || p.message == Some("200"@))
            &&& t.shared.url == c.shared.url
            &&& t.url == c.url
            &&& t.queue == c.queue
            &&& t.connected == c.connected
        }),
        c.reply(p) is None,
        c.client_id.len() == 0 && p.client_id is Some ==> c.link(p) == Some(
            "https://www.dungeon-lab.com/app-download.php#DGLAB-SOCKET#"@ + c.url + seq!['/']
                + p.client_id->0,
        ) && c.answer(p) == SessionActionView::Announce(c.link(p)->0),
        c.client_id.len() > 0 || p.client_id is None ==> c.link(p) is None && c.answer(p)
            == SessionActionView::Nothing,
        !is_unknown(p),
{
    lemma_words_differ();
    reveal_strlit("/");
    assert("/"@ =~= seq!['/']);
}

/// A break takes the pairing from what is shown, changes nothing else and ends the session.
pub proof fn law_break(c: ClientView, p: PacketView)
    requires
        p.kind == Some("break"@),
    ensures
        c.received(p) == (ClientView {
            shared: StateView {
                url: c.shared.url,
                client_id: c.shared.client_id,
                paired: false,
            },
            ..c
        }),
        c.reply(p) is None,
        c.link(p) is None,
        c.answer(p) == SessionActionView::End(SessionEnd::Unpaired),
        !is_unknown(p),
{
    lemma_words_differ();
}

/// A heartbeat is answered by the text of the object with the type heartbeat, the ids of the
/// session and 200, and changes nothing.
pub proof fn law_heartbeat(c: ClientView, p: PacketView)
    requires
        p.kind == Some("heartbeat"@),
    ensures
        c.received(p) == c,
        c.reply(p) == Some(
            FrameView::Named {
                kind: FrameKind::Heartbeat,
                client_id: c.client_id,
                target_id: c.target_id,
                message: "200"@,
            },
        ),
        c.answer(p) == SessionActionView::Send(
            seq![
                json_object_text(
                    seq![
                        ("type"@, ScalarView::Text("heartbeat"@)),
                        ("clientId"@, ScalarView::Text(c.client_id)),
                        ("targetId"@, ScalarView::Text(c.target_id)),
                        ("message"@, ScalarView::Text("200"@)),
                    ],
                ),
            ],
        ),
        c.link(p) is None,
        !is_unknown(p),
{
    lemma_words_differ();
}

/// Any other message changes nothing, is not answered, and is noted as unknown.
pub proof fn law_any_other_message(c: ClientView, p: PacketView)
    requires
        p.kind != Some("bind"@),
        p.kind != Some("break"@),
        p.kind != Some("heartbeat"@),
    ensures
        c.received(p) == c,
        c.reply(p) is None,
        c.link(p) is None,
        c.answer(p) == SessionActionView::Unknown,
        is_unknown(p),
{
}

/// A text that comes in has the message in it taken and answered; one that holds none is noted as
/// unknown and changes nothing.
pub proof fn law_text(c: ClientView, text: String)
    ensures
        json_document(text@) is Some ==> {
            let p = read_packet(text@)->0;
            &&& c.stepped(SessionEvent::Text(text)) == c.received(p)
            &&& c.action(SessionEvent::Text(text)) == c.answer(p)
            &&& c.reply(p) is Some ==> c.sent(SessionEvent::Text(text)) == seq![c.reply(p)->0]
            &&& c.reply(p) is None ==> c.sent(SessionEvent::Text(text)).len() == 0
        },
        json_document(text@) is None ==> {
            &&& c.stepped(SessionEvent::Text(text)) == c
            &&& c.action(SessionEvent::Text(text)) == SessionActionView::Unknown
            &&& c.sent(SessionEvent::Text(text)).len() == 0
        },
{
}

/// What is no text changes nothing, but for a strength that is sent; every failure ends the session
/// for its own reason, and so does the end of the line.
pub proof fn law_other_events(c: ClientView, event: SessionEvent)
    requires
        !(event is Text),
        !(event is Command),
    ensures
        c.stepped(event) == c,
        c.sent(event).len() == 0,
        c.action(event) == (match event {
            SessionEvent::Unreachable => SessionActionView::End(SessionEnd::Unreachable),
            SessionEvent::QueueClosed => SessionActionView::End(SessionEnd::Finished),
            SessionEvent::SendFailed => SessionActionView::End(SessionEnd::SendFailed),
            SessionEvent::ReceiveFailed => SessionActionView::End(SessionEnd::ReceiveFailed),
            SessionEvent::Closed => SessionActionView::End(SessionEnd::Closed),
            _ => SessionActionView::Nothing,
        }),
{
}

/// The strength that has waited longest is sent as it is, whatever it is, as two texts, for channel
/// 1 and for channel 2, and leaves the line; the rest of the line stays in order.
pub proof fn law_command_is_sent_whole(c: ClientView)
    requires
        c.queue.len() > 0,
    ensures
        ({
            let action = c.action(SessionEvent::Command);
            &&& action is Send
            &&& action->Send_0.len() == 2
            &&& forall|k: int|
                0 <= k < 2 ==> #[trigger] action->Send_0[k] == json_object_text(
                    seq![
                        ("type"@, ScalarView::Int(3)),
                        ("channel"@, ScalarView::Int(k + 1)),
                        ("strength"@, ScalarView::Int(c.queue[0] as int)),
                        ("clientId"@, ScalarView::Text(c.client_id)),
                        ("targetId"@, ScalarView::Text(c.target_id)),
                        ("message"@, ScalarView::Text("set channel"@)),
                    ],
                )
        }),
        c.sent(SessionEvent::Command) == c.command_frames(),
        c.stepped(SessionEvent::Command).queue == c.queue.skip(1),
        c.stepped(SessionEvent::Command) == (ClientView {
            queue: c.stepped(SessionEvent::Command).queue,
            ..c
        }),
{
    assert(c.queue.drop_first() =~= c.queue.skip(1));
}

/// Where no strength waits, none is sent, and nothing changes.
pub proof fn law_no_command(c: ClientView)
    requires
        c.queue.len() == 0,
    ensures
        c.action(SessionEvent::Command) == SessionActionView::Nothing,
        c.sent(SessionEvent::Command).len() == 0,
        c.stepped(SessionEvent::Command) == c,
{
}

/// A strength is put last in line as it is, whatever it is, where fewer than 64 wait; it is dropped
/// where 64 wait. Nothing else changes.
pub proof fn law_strength_is_put_in_line(c: ClientView, strength: u8)
    ensures
        c.queue.len() < 64 ==> WsTransport::with_strength(c, strength) == (ClientView {
            queue: c.queue.push(strength),
            ..c
        }),
        c.queue.len() >= 64 ==> WsTransport::with_strength(c, strength) == c,
        WsTransport::is_connected(c) == c.connected,
        WsTransport::disconnected(c) == (ClientView { connected: false, ..c }),
{
}

/// A new client has its address and shows it, has no ids and no strengths in line, is paired with
/// nobody, and is not connected.
pub proof fn law_new_client(url: Seq<char>)
    ensures
        ({
            let c = new_client(url);
            &&& c.url == url
            &&& c.shared.url == url
            &&& c.client_id.len() == 0
            &&& c.target_id.len() == 0
            &&& c.shared.client_id.len() == 0
            &&& !c.shared.paired
            &&& c.queue.len() == 0
            &&& !c.connected
        }),
{
}

/// A session begins with the text of a bind message from a terminal whose id is pending, and ends
/// with the connection; what waits and what is shown stays.
pub proof fn law_session_begins_and_ends(c: ClientView, client: WsTransport)
    ensures
        ClientView::hello().text() == json_object_text(
            seq![
                ("type"@, ScalarView::Text("bind"@)),
                ("clientId"@, ScalarView::Text("pending"@)),
                ("targetId"@, ScalarView::Text(Seq::empty())),
                ("message"@, ScalarView::Text("bind"@)),
            ],
        ),
        c.started().connected,
        c.started().client_id.len() == 0,
        c.started().target_id.len() == 0,
        c.started() == (ClientView {
            client_id: c.started().client_id,
            target_id: c.started().target_id,
            connected: true,
            ..c
        }),
        c.ended() == (ClientView { connected: false, ..c }),
        RECONNECT_SECS == 3,
        HANDSHAKE_SECS == 5,
        client.state() == client@,
{
}

/// What is to be done in a session is known by the texts in it.
pub proof fn law_action_is_its_texts(a: SessionAction)
    ensures
        match a {
            SessionAction::Send(texts) => a@ is Send && a@->Send_0.len() == texts@.len()
                && forall|i: int|
                0 <= i < texts@.len() ==> #[trigger] a@->Send_0[i] == texts@[i]@,
            SessionAction::Announce(text) => a@ == SessionActionView::Announce(text@),
            SessionAction::Unknown => a@ is Unknown,
            SessionAction::Nothing => a@ is Nothing,
            SessionAction::End(end) => a@ == SessionActionView::End(end),
        },
{
}

}

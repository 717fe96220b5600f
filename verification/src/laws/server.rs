//! What holds of the server and its pairing.

use crate::client::ClientView;
use crate::conns::{some_app, waiting};
use crate::conns::{emptied, marked, queued, ConnView};
use crate::json::{json_document, json_object_text, ScalarView};
use crate::laws::address::law_conn_ids_differ;
use crate::laws::text::{law_number_is_written_plainly, plain};
use crate::packet::{lemma_words_differ, text_or_empty, FrameKind, FrameView, PacketView};
use crate::server::{closes, conn_id, new_server, strength_message};
use crate::packet::read_packet;
use crate::server::{is_unknown, ActionView, ConnAction, ConnEvent, DglabServer, ServerView};
use crate::server::{accept_action, greeting_for, next_number, AcceptAction, AcceptEvent, Stoppable};
use crate::state::{DglabState, StateView};
use crate::transport::DglabTransport;
use vstd::prelude::*;

verus! {

/// The server says that it is paired only while it knows the id of an APP, and it knows one only
/// while the connection over which that APP paired is open and marked as an APP's.
pub open spec fn consistent(s: ServerView) -> bool {
    &&& s.shared.paired ==> s.target_id.len() > 0
    &&& s.target_id.len() > 0 ==> s.conns.contains_key(s.paired_conn)
        && s.conns[s.paired_conn].is_app
}

/// What can happen to a server.
pub enum ServerOp {
    /// A connection is entered under an id.
    Open(Seq<char>),
    /// Something happens on a connection.
    Step(Seq<char>, ConnEvent),
    /// A connection has gone.
    Clean(Seq<char>),
    SetStrength(u8),
    Disconnect,
    StartAccepting,
    AcceptStopped,
    Shutdown,
}

/// The server after `op`.
pub open spec fn after(s: ServerView, op: ServerOp) -> ServerView {
    match op {
        ServerOp::Open(id) => s.opened(id),
        ServerOp::Step(conn, event) => s.stepped(conn, event),
        ServerOp::Clean(conn) => s.cleaned(conn),
        ServerOp::SetStrength(strength) => DglabServer::with_strength(s, strength),
        ServerOp::Disconnect => DglabServer::disconnected(s),
        ServerOp::StartAccepting => ServerView { running: true, ..s },
        ServerOp::AcceptStopped => ServerView { running: false, ..s },
        ServerOp::Shutdown => s.stopped(),
    }
}

/// That `op` can happen: a new connection gets an id that is not in use, and something happens only
/// on a connection that is open under an id that is not empty.
pub open spec fn possible(s: ServerView, op: ServerOp) -> bool {
    match op {
        ServerOp::Open(id) => !s.conns.contains_key(id),
        ServerOp::Step(conn, _) => s.conns.contains_key(conn) && conn.len() > 0,
        _ => true,
    }
}

/// The server after a run of operations, the first of them first.
pub open spec fn after_all(s: ServerView, ops: Seq<ServerOp>) -> ServerView
    decreases ops.len(),
{
    if ops.len() == 0 {
        s
    } else {
        after(after_all(s, ops.drop_last()), ops.last())
    }
}

/// That each operation of a run can happen when its turn comes.
pub open spec fn all_possible(s: ServerView, ops: Seq<ServerOp>) -> bool
    decreases ops.len(),
{
    ops.len() > 0 ==> all_possible(s, ops.drop_last()) && possible(
        after_all(s, ops.drop_last()),
        ops.last(),
    )
}

/// Whatever can happen to a server keeps its pairing consistent.
pub proof fn law_pairing_stays_consistent(s: ServerView, op: ServerOp)
    requires
        consistent(s),
        possible(s, op),
    ensures
        consistent(after(s, op)),
{
}

/// The pairing of a server is consistent from its start on, whatever happens to it.
pub proof fn law_pairing_is_consistent(url: Seq<char>, client_id: Seq<char>, ops: Seq<ServerOp>)
    requires
        all_possible(new_server(url, client_id), ops),
    ensures
        consistent(after_all(new_server(url, client_id), ops)),
    decreases ops.len(),
{
    if ops.len() > 0 {
        law_pairing_is_consistent(url, client_id, ops.drop_last());
        law_pairing_stays_consistent(
            after_all(new_server(url, client_id), ops.drop_last()),
            ops.last(),
        );
    }
}

/// Nothing that happens to a server changes its address or the id of its terminal.
pub proof fn law_identity_is_kept(s: ServerView, op: ServerOp)
    ensures
        after(s, op).url == s.url,
        after(s, op).client_id == s.client_id,
        after(s, op).shared.url == s.shared.url,
        after(s, op).shared.client_id == s.shared.client_id,
{
}

/// A request to pair is granted where no other APP is paired, or where the APP that asks is the one
/// that is: the server is paired and connected from then on, and the answer
/// says so, with the server's terminal and the id under which the APP is known.
pub proof fn law_request_to_pair_is_granted(s: ServerView, conn: Seq<char>, p: PacketView)
    requires
        s.grants(conn, p),
        conn.len() > 0,
        !s.stopping,
    ensures
        s.received(conn, p).shared.paired,
        DglabServer::is_connected(s.received(conn, p)),
        s.reply(conn, p) == Some(
            FrameView::Named {
                kind: FrameKind::Bind,
                client_id: s.client_id,
                target_id: s.received(conn, p).target_id,
                message: "200"@,
            },
        ),
{
}

/// A request to pair is refused while an APP is paired over another connection: the answer says
/// 400, the connection stays open, and nothing changes.
pub proof fn law_second_app_is_refused(s: ServerView, conn: Seq<char>, p: PacketView)
    requires
        consistent(s),
        s.target_id.len() > 0,
        s.paired_conn != conn,
        s.pairs(p),
    ensures
        s.received(conn, p) == s,
        s.reply(conn, p) is Some,
        s.reply(conn, p)->0.as_packet().kind == Some("bind"@),
        s.reply(conn, p)->0.as_packet().message == Some("400"@),
        !closes(p),
{
    lemma_words_differ();
}

/// While an APP is paired, nothing that happens on another connection changes which APP it is.
pub proof fn law_pairing_is_kept_from_others(s: ServerView, conn: Seq<char>, event: ConnEvent)
    requires
        consistent(s),
        s.target_id.len() > 0,
        s.paired_conn != conn,
    ensures
        s.stepped(conn, event).target_id == s.target_id,
        s.stepped(conn, event).paired_conn == s.paired_conn,
{
    assert(s.conns.remove(conn).contains_key(s.paired_conn));
    assert(s.taken(conn, event).conns.remove(conn).contains_key(s.paired_conn));
}

/// A message that neither asks to pair nor breaks the pairing changes nothing.
pub proof fn law_other_messages_change_nothing(s: ServerView, conn: Seq<char>, p: PacketView)
    requires
        text_or_empty(p.kind) != "bind"@,
        text_or_empty(p.kind) != "break"@,
    ensures
        s.received(conn, p) == s,
{
}

/// A heartbeat is answered with 200, under the ids of the terminal and of the paired APP, and
/// changes nothing.
pub proof fn law_heartbeat_is_answered(s: ServerView, conn: Seq<char>, p: PacketView)
    requires
        p.kind == Some("heartbeat"@),
    ensures
        s.received(conn, p) == s,
        s.reply(conn, p) is Some,
        s.reply(conn, p)->0.as_packet() == (PacketView {
            kind: Some("heartbeat"@),
            client_id: Some(s.client_id),
            target_id: Some(s.target_id),
            message: Some("200"@),
        }),
        !closes(p),
{
    lemma_words_differ();
}

/// A break ends the pairing for the user interface, closes the connection and is not answered.
pub proof fn law_break_closes(s: ServerView, conn: Seq<char>, p: PacketView)
    requires
        p.kind == Some("break"@),
    ensures
        !s.received(conn, p).shared.paired,
        closes(p),
        s.reply(conn, p) is None,
{
    lemma_words_differ();
}

/// Setting a strength appends two messages to what waits for the paired APP, one for each channel,
/// both with that strength, and leaves what waits for the others as it is.
pub proof fn law_strength_reaches_both_channels(s: ServerView, strength: u8)
    requires
        s.target_id.len() > 0,
        s.conns.contains_key(s.paired_conn),
    ensures
        waiting(s.strengthened(strength).conns, s.paired_conn) == waiting(
            s.conns,
            s.paired_conn,
        ).push(s.strength_frame(1, strength)).push(s.strength_frame(2, strength)),
        forall|id: Seq<char>|
            id != s.paired_conn ==> #[trigger] waiting(s.strengthened(strength).conns, id)
                == waiting(s.conns, id),
        s.strengthened(strength).conns.dom() == s.conns.dom(),
{
    assert(s.strengthened(strength).conns.dom() =~= s.conns.dom());
}

/// An APP that pairs over a connection gets the strengths that are set from then on over that
/// connection, both channels each time, whatever id it gives itself.
pub proof fn law_paired_app_gets_strengths(
    s: ServerView,
    conn: Seq<char>,
    p: PacketView,
    strength: u8,
)
    requires
        s.grants(conn, p),
        conn.len() > 0,
        s.conns.contains_key(conn),
    ensures
        ({
            let paired = s.received(conn, p);
            waiting(paired.strengthened(strength).conns, conn) == waiting(s.conns, conn).push(
                paired.strength_frame(1, strength),
            ).push(paired.strength_frame(2, strength))
        }),
{
    let paired = s.received(conn, p);
    law_strength_reaches_both_channels(paired, strength);
}

/// While no APP is paired, or the paired APP has no open connection, setting a strength does
/// nothing.
pub proof fn law_strength_without_app_does_nothing(s: ServerView, strength: u8)
    requires
        s.target_id.len() == 0 || !s.conns.contains_key(s.paired_conn),
    ensures
        s.strengthened(strength) == s,
{
}

/// When the connection of the paired APP goes, the pairing goes with it, whatever other connections
/// are left.
pub proof fn law_pairing_ends_with_its_connection(s: ServerView)
    requires
        consistent(s),
    ensures
        !DglabServer::is_connected(s.cleaned(s.paired_conn)),
        !s.cleaned(s.paired_conn).shared.paired,
        s.cleaned(s.paired_conn).target_id.len() == 0,
{
}

/// When no connection of an APP is left, no pairing is left.
pub proof fn law_last_app_ends_pairing(s: ServerView, conn: Seq<char>)
    requires
        consistent(s),
        !some_app(s.conns.remove(conn)),
    ensures
        !DglabServer::is_connected(s.cleaned(conn)),
        !s.cleaned(conn).shared.paired,
{
}

/// When another connection than that of the paired APP goes, the pairing stays.
pub proof fn law_pairing_outlives_others(s: ServerView, conn: Seq<char>)
    requires
        consistent(s),
        s.target_id.len() > 0,
        conn != s.paired_conn,
    ensures
        s.cleaned(conn).target_id == s.target_id,
        s.cleaned(conn).paired_conn == s.paired_conn,
        s.cleaned(conn).shared == s.shared,
{
    assert(s.conns.remove(conn).contains_key(s.paired_conn));
}

/// A connection that is to end is forgotten.
pub proof fn law_closed_connection_is_forgotten(s: ServerView, conn: Seq<char>, event: ConnEvent)
    requires
        s.action(conn, event) is Close,
    ensures
        !s.stepped(conn, event).conns.contains_key(conn),
{
}

/// An event on one connection leaves the others as they are.
pub proof fn law_events_touch_one_connection(
    s: ServerView,
    conn: Seq<char>,
    event: ConnEvent,
    other: Seq<char>,
)
    requires
        other != conn,
    ensures
        s.stepped(conn, event).conns.contains_key(other) == s.conns.contains_key(other),
        s.conns.contains_key(other) ==> s.stepped(conn, event).conns[other] == s.conns[other],
{
}

/// The values of a message that an APP is sent are not empty.
pub open spec fn filled(p: PacketView) -> bool {
    &&& text_or_empty(p.kind).len() > 0
    &&& text_or_empty(p.client_id).len() > 0
    &&& text_or_empty(p.target_id).len() > 0
    &&& text_or_empty(p.message).len() > 0
}

/// All four values of the answer to a request to pair, and, while an APP is paired, of the answer
/// to a heartbeat and of a message that sets a channel, are there and not empty.
pub proof fn law_values_are_filled(
    s: ServerView,
    conn: Seq<char>,
    p: PacketView,
    channel: u8,
    strength: u8,
)
    requires
        s.client_id.len() > 0,
        conn.len() > 0,
    ensures
        s.pairs(p) ==> filled(s.reply(conn, p)->0.as_packet()),
        s.target_id.len() > 0 && p.kind == Some("heartbeat"@) ==> filled(
            s.reply(conn, p)->0.as_packet(),
        ),
        s.target_id.len() > 0 ==> filled(s.strength_frame(channel, strength).as_packet()),
{
    lemma_words_differ();
    reveal_strlit("bind");
    reveal_strlit("heartbeat");
    reveal_strlit("msg");
    reveal_strlit("200");
    reveal_strlit("400");
    reveal_strlit("strength-");
    assert("bind"@.len() == 4 && "heartbeat"@.len() == 9 && "msg"@.len() == 3);
    assert("200"@.len() == 3 && "400"@.len() == 3 && "strength-"@.len() == 9);
}

/// A connection that has gone gets nothing more.
pub proof fn law_gone_connection_gets_nothing(s: ServerView, conn: Seq<char>, strength: u8)
    ensures
        !s.cleaned(conn).strengthened(strength).conns.contains_key(conn),
{
}

/// Disconnecting ends the pairing, and doing it twice is the same as once.
pub proof fn law_disconnect(s: ServerView)
    ensures
        !DglabServer::is_connected(s.unpaired()),
        !s.unpaired().shared.paired,
        s.unpaired().unpaired() == s.unpaired(),
{
}

/// A server that was told to stop is not connected, and stopping it twice is the same as once.
pub proof fn law_shutdown_is_idempotent(s: ServerView)
    ensures
        s.stopped().stopped() == s.stopped(),
        !s.stopped().running,
        !DglabServer::is_connected(s.stopped()),
{
}

/// What waits for a connection is sent once: after it was taken nothing waits there.
pub proof fn law_messages_are_sent_once(s: ServerView, conn: Seq<char>)
    ensures
        waiting(s.stepped(conn, ConnEvent::Queued).conns, conn).len() == 0,
{
}

/// A client of the relay that gets a server's answer to a request that is granted is paired, with
/// the id that the server knows the APP under.
pub proof fn law_answer_pairs_client(s: ServerView, conn: Seq<char>, p: PacketView, c: ClientView)
    requires
        s.grants(conn, p),
        conn.len() > 0,
    ensures
        c.received(s.reply(conn, p)->0.as_packet()).shared.paired,
        c.received(s.reply(conn, p)->0.as_packet()).target_id == s.received(conn, p).target_id,
{
}

/// The message for a channel names the channel, the mode that sets a value, and the strength.
pub proof fn law_strength_message(s: ServerView, channel: u8, strength: u8)
    ensures
        s.strength_frame(channel, strength).as_packet() == (PacketView {
            kind: Some("msg"@),
            client_id: Some(s.client_id),
            target_id: Some(s.target_id),
            message: Some(strength_message(channel, strength)),
        }),
{
}

/// Every open connection has an id with a number below `n`.
pub open spec fn numbered(s: ServerView, n: u64) -> bool {
    forall|id: Seq<char>| #[trigger]
        s.conns.contains_key(id) ==> exists|k: u64| k < n && id == #[trigger] conn_id(k)
}

/// Where every open connection has a number below `n`, the id with the number `n` is free to be
/// given to a new one, which then has a number below `n + 1`.
pub proof fn law_next_id_is_free(s: ServerView, n: u64)
    requires
        numbered(s, n),
        n < u64::MAX,
    ensures
        possible(s, ServerOp::Open(conn_id(n))),
        conn_id(n).len() > 0,
        numbered(after(s, ServerOp::Open(conn_id(n))), (n + 1) as u64),
{
    reveal_strlit("c");
    assert(conn_id(n).len() >= 1);
    if s.conns.contains_key(conn_id(n)) {
        let k = choose|k: u64| k < n && conn_id(n) == #[trigger] conn_id(k);
        law_conn_ids_differ(k, n);
    }
    let t = after(s, ServerOp::Open(conn_id(n)));
    assert forall|id: Seq<char>| #[trigger] t.conns.contains_key(id) implies exists|k: u64|
        k < (n + 1) as u64 && id == #[trigger] conn_id(k) by {
        if id == conn_id(n) {
            assert(n < (n + 1) as u64);
        } else {
            assert(s.conns.contains_key(id));
            let k = choose|k: u64| k < n && id == #[trigger] conn_id(k);
            assert(k < (n + 1) as u64 && id == conn_id(k));
        }
    }
}

/// Nothing but a new connection adds to the ids in use.
pub proof fn law_ids_stay_numbered(s: ServerView, op: ServerOp, n: u64)
    requires
        numbered(s, n),
        !(op is Open),
    ensures
        numbered(after(s, op), n),
{
    assert forall|id: Seq<char>| #[trigger] after(s, op).conns.contains_key(id) implies exists|
        k: u64,
    | k < n && id == #[trigger] conn_id(k) by {
        assert(s.conns.contains_key(id));
    }
}

/// The message asks to pair: its type is bind, and it names the terminal of the server, or any APP.
pub open spec fn asks_to_pair(s: ServerView, p: PacketView) -> bool {
    &&& p.kind == Some("bind"@)
    &&& {
        ||| p.client_id == Some(s.client_id)
        ||| p.client_id is None && s.client_id.len() == 0
        ||| p.target_id matches Some(t) && t.len() > 0
    }
}

/// The id that the sender of a request to pair is given: the one that it names, if it names one,
/// and else that of its connection.
pub open spec fn id_given(conn: Seq<char>, p: PacketView) -> Seq<char> {
    match p.target_id {
        Some(t) => if t.len() > 0 {
            t
        } else {
            conn
        },
        None => conn,
    }
}

/// A request to pair from `conn` finds an APP that is paired over another connection, which is
/// open.
pub open spec fn finds_another(s: ServerView, conn: Seq<char>) -> bool {
    s.target_id.len() > 0 && s.paired_conn != conn && s.conns.contains_key(s.paired_conn)
}

/// A request to pair that finds no other APP pairs the sender, whatever the ids and however long
/// they are: the server knows it by the id given and by its connection, which is marked, shows the
/// pairing, answers 200, and is otherwise as before.
pub proof fn law_request_pairs(s: ServerView, conn: Seq<char>, p: PacketView)
    requires
        asks_to_pair(s, p),
        !finds_another(s, conn),
    ensures
        ({
            let t = s.received(conn, p);
            &&& t.target_id == id_given(conn, p)
            &&& t.paired_conn == conn
            &&& t.shared.paired
            &&& t.shared.url == s.shared.url
            &&& t.shared.client_id == s.shared.client_id
            &&& t.url == s.url
            &&& t.client_id == s.client_id
            &&& t.running == s.running
            &&& t.stopping == s.stopping
            &&& t.conns.dom() =~= s.conns.dom()
            &&& forall|id: Seq<char>| #[trigger]
                s.conns.contains_key(id) ==> t.conns[id].outbox == s.conns[id].outbox
                    && t.conns[id].is_app == (id == conn || s.conns[id].is_app)
        }),
        s.reply(conn, p) == Some(
            FrameView::Named {
                kind: FrameKind::Bind,
                client_id: s.client_id,
                target_id: id_given(conn, p),
                message: "200"@,
            },
        ),
        !closes(p),
        !is_unknown(p),
        s.grants(conn, p),
        ServerView::paired_id(conn, p) == id_given(conn, p),
{
    lemma_words_differ();
    if s.client_id.len() == 0 {
        assert(s.client_id =~= Seq::<char>::empty());
    }
}

/// A request to pair that finds another APP changes nothing and is answered with 400.
pub proof fn law_request_is_refused(s: ServerView, conn: Seq<char>, p: PacketView)
    requires
        asks_to_pair(s, p),
        finds_another(s, conn),
    ensures
        s.received(conn, p) == s,
        s.reply(conn, p) == Some(
            FrameView::Named {
                kind: FrameKind::Bind,
                client_id: s.client_id,
                target_id: id_given(conn, p),
                message: "400"@,
            },
        ),
        !closes(p),
        !is_unknown(p),
        !s.grants(conn, p),
{
    lemma_words_differ();
    if s.client_id.len() == 0 {
        assert(s.client_id =~= Seq::<char>::empty());
    }
}

/// A bind that names neither the terminal nor an APP is passed over.
pub proof fn law_bind_for_others_is_passed_over(s: ServerView, conn: Seq<char>, p: PacketView)
    requires
        p.kind == Some("bind"@),
        !asks_to_pair(s, p),
    ensures
        s.received(conn, p) == s,
        s.reply(conn, p) is None,
        !closes(p),
        !is_unknown(p),
        !s.grants(conn, p),
{
    lemma_words_differ();
    assert(text_or_empty(p.client_id) != s.client_id) by {
        if p.client_id is None && s.client_id.len() != 0 {
            assert(text_or_empty(p.client_id).len() != s.client_id.len());
        }
    }
}

/// A heartbeat is answered with 200 and the ids of the terminal and of the paired APP, and changes
/// nothing.
pub proof fn law_heartbeat(s: ServerView, conn: Seq<char>, p: PacketView)
    requires
        p.kind == Some("heartbeat"@),
    ensures
        s.received(conn, p) == s,
        s.reply(conn, p) == Some(
            FrameView::Named {
                kind: FrameKind::Heartbeat,
                client_id: s.client_id,
                target_id: s.target_id,
                message: "200"@,
            },
        ),
        !closes(p),
        !is_unknown(p),
        !s.grants(conn, p),
{
    lemma_words_differ();
}

/// A break takes the pairing from what is shown, changes nothing else, is not answered, and closes
/// the connection.
pub proof fn law_break(s: ServerView, conn: Seq<char>, p: PacketView)
    requires
        p.kind == Some("break"@),
    ensures
        s.received(conn, p) == (ServerView {
            shared: StateView {
                url: s.shared.url,
                client_id: s.shared.client_id,
                paired: false,
            },
            ..s
        }),
        s.reply(conn, p) is None,
        closes(p),
        !is_unknown(p),
        !s.grants(conn, p),
{
    lemma_words_differ();
}

/// Any other message changes nothing, is not answered and does not close the connection. It counts
/// as known where its type is msg or error, and only there.
pub proof fn law_any_other_message(s: ServerView, conn: Seq<char>, p: PacketView)
    requires
        p.kind != Some("bind"@),
        p.kind != Some("heartbeat"@),
        p.kind != Some("break"@),
    ensures
        s.received(conn, p) == s,
        s.reply(conn, p) is None,
        !closes(p),
        !s.grants(conn, p),
        is_unknown(p) == (p.kind != Some("msg"@) && p.kind != Some("error"@)),
{
    lemma_words_differ();
    reveal_strlit("bind");
    reveal_strlit("heartbeat");
    reveal_strlit("break");
    reveal_strlit("msg");
    reveal_strlit("error");
    assert("bind"@.len() == 4 && "heartbeat"@.len() == 9 && "break"@.len() == 5);
    assert("msg"@.len() == 3 && "error"@.len() == 5);
}

/// What happens on a connection when a text comes in that holds a message: the message is taken, a
/// break ends the connection, an answer is sent as its text, and the id of an APP that pairs is
/// noted.
pub proof fn law_text_with_message(
    s: ServerView,
    conn: Seq<char>,
    text: String,
    p: PacketView,
    before: Option<Seq<char>>,
)
    requires
        read_packet(text@) == Some(p),
    ensures
        ({
            let event = ConnEvent::Text(text);
            let action = s.action(conn, event);
            &&& p.kind == Some("break"@) ==> action is Close && s.stepped(conn, event)
                == s.received(conn, p).cleaned(conn)
            &&& p.kind != Some("break"@) ==> s.stepped(conn, event) == s.received(conn, p)
            &&& p.kind != Some("break"@) && s.reply(conn, p) is Some ==> action
                == ActionView::Reply(s.reply(conn, p)->0.text()) && s.sent(conn, event) == seq![
                s.reply(conn, p)->0,
            ]
            &&& p.kind != Some("break"@) && s.reply(conn, p) is None && is_unknown(p) ==> action
                == ActionView::Unknown && s.sent(conn, event).len() == 0
            &&& p.kind != Some("break"@) && s.reply(conn, p) is None && !is_unknown(p) ==> action
                == ActionView::Nothing && s.sent(conn, event).len() == 0
            &&& asks_to_pair(s, p) && !finds_another(s, conn) ==> s.paired_by(conn, event, before)
                == Some(id_given(conn, p))
            &&& !(asks_to_pair(s, p) && !finds_another(s, conn)) ==> s.paired_by(
                conn,
                event,
                before,
            ) == before
        }),
{
    lemma_words_differ();
    reveal_strlit("break");
    assert("break"@.len() == 5);
    if asks_to_pair(s, p) {
        if finds_another(s, conn) {
            law_request_is_refused(s, conn, p);
        } else {
            law_request_pairs(s, conn, p);
        }
    } else if p.kind == Some("bind"@) {
        law_bind_for_others_is_passed_over(s, conn, p);
    } else if p.kind == Some("heartbeat"@) {
        law_heartbeat(s, conn, p);
    } else if p.kind == Some("break"@) {
        law_break(s, conn, p);
    } else {
        law_any_other_message(s, conn, p);
    }
}

/// A text that is no JSON document changes nothing and calls for nothing.
pub proof fn law_text_without_message(
    s: ServerView,
    conn: Seq<char>,
    text: String,
    before: Option<Seq<char>>,
)
    requires
        json_document(text@) is None,
    ensures
        s.stepped(conn, ConnEvent::Text(text)) == s,
        s.action(conn, ConnEvent::Text(text)) == ActionView::Nothing,
        s.sent(conn, ConnEvent::Text(text)).len() == 0,
        s.paired_by(conn, ConnEvent::Text(text), before) == before,
{
}

/// From the text of a request to the text of the answer: where no APP is paired, a JSON document
/// with the type bind that names the terminal, and an APP or none, is answered by the text of the
/// object with the type bind, the terminal, the id given and 200.
pub proof fn law_request_text_is_answered(
    s: ServerView,
    conn: Seq<char>,
    text: String,
    m: Map<Seq<char>, Seq<char>>,
)
    requires
        s.target_id.len() == 0,
        json_document(text@) == Some(m),
        m.contains_key("type"@) && m["type"@] == "bind"@,
        m.contains_key("clientId"@) && m["clientId"@] == s.client_id,
    ensures
        ({
            let id = if m.contains_key("targetId"@) && m["targetId"@].len() > 0 {
                m["targetId"@]
            } else {
                conn
            };
            &&& s.action(conn, ConnEvent::Text(text)) == ActionView::Reply(
                json_object_text(
                    seq![
                        ("type"@, ScalarView::Text("bind"@)),
                        ("clientId"@, ScalarView::Text(s.client_id)),
                        ("targetId"@, ScalarView::Text(id)),
                        ("message"@, ScalarView::Text("200"@)),
                    ],
                ),
            )
            &&& s.stepped(conn, ConnEvent::Text(text)).shared.paired
            &&& s.stepped(conn, ConnEvent::Text(text)).target_id == id
        }),
{
    lemma_words_differ();
}

/// What waits for a connection is sent when its turn comes, all of it and in order, and nothing
/// waits there after that; the other connections and the pairing stay as they are.
pub proof fn law_queue_is_sent(s: ServerView, conn: Seq<char>)
    requires
        s.conns.contains_key(conn),
    ensures
        ({
            let t = s.stepped(conn, ConnEvent::Queued);
            let outbox = s.conns[conn].outbox;
            &&& s.sent(conn, ConnEvent::Queued) == outbox
            &&& s.action(conn, ConnEvent::Queued) is Relay
            &&& s.action(conn, ConnEvent::Queued)->Relay_0.len() == outbox.len()
            &&& forall|i: int|
                0 <= i < outbox.len() ==> #[trigger] s.action(
                    conn,
                    ConnEvent::Queued,
                )->Relay_0[i] == outbox[i].text()
            &&& t.conns[conn].outbox.len() == 0
            &&& t.conns[conn].is_app == s.conns[conn].is_app
            &&& t == (ServerView { conns: s.conns.insert(conn, t.conns[conn]), ..s })
        }),
{
}

/// Nothing waits for a connection that is not there.
pub proof fn law_no_queue_without_connection(s: ServerView, conn: Seq<char>)
    requires
        !s.conns.contains_key(conn),
    ensures
        s.action(conn, ConnEvent::Queued) is Relay,
        s.action(conn, ConnEvent::Queued)->Relay_0.len() == 0,
        s.stepped(conn, ConnEvent::Queued) == s,
{
}

/// What is no text and does not end the connection is passed over; everything else ends it.
pub proof fn law_other_events(s: ServerView, conn: Seq<char>, event: ConnEvent)
    requires
        !(event is Text),
        !(event is Queued),
    ensures
        event is Other ==> s.action(conn, event) == ActionView::Nothing && s.stepped(conn, event)
            == s,
        !(event is Other) ==> s.action(conn, event) == ActionView::Close && s.stepped(conn, event)
            == s.cleaned(conn),
        s.sent(conn, event).len() == 0,
        forall|before: Option<Seq<char>>| #[trigger] s.paired_by(conn, event, before) == before,
{
}

/// What is to be done on a connection is known by the texts in it.
pub proof fn law_action_is_its_texts(a: ConnAction)
    ensures
        match a {
            ConnAction::Relay(texts) => a@ is Relay && a@->Relay_0.len() == texts@.len()
                && forall|i: int|
                0 <= i < texts@.len() ==> #[trigger] a@->Relay_0[i] == texts@[i]@,
            ConnAction::Reply(text) => a@ == ActionView::Reply(text@),
            ConnAction::Unknown => a@ is Unknown,
            ConnAction::Nothing => a@ is Nothing,
            ConnAction::Close => a@ is Close,
        },
{
}

/// A connection that has gone is forgotten and the others stay. The pairing ends where the APP
/// paired over it, or where no connection of an APP is left; else it stays.
pub proof fn law_connection_goes(s: ServerView, conn: Seq<char>)
    ensures
        ({
            let t = s.cleaned(conn);
            let left = exists|id: Seq<char>| #[trigger]
                s.conns.contains_key(id) && id != conn && s.conns[id].is_app;
            &&& t.conns == s.conns.remove(conn)
            &&& s.target_id.len() > 0 && (conn == s.paired_conn || !left) ==> t.target_id.len() == 0
                && t.paired_conn.len() == 0 && !t.shared.paired
            &&& s.target_id.len() == 0 || (conn != s.paired_conn && left) ==> t.target_id
                == s.target_id && t.paired_conn == s.paired_conn && t.shared.paired
                == s.shared.paired
            &&& t.shared.url == s.shared.url
            &&& t.shared.client_id == s.shared.client_id
            &&& t.url == s.url
            &&& t.client_id == s.client_id
            &&& t.running == s.running
            &&& t.stopping == s.stopping
        }),
{
    let conns = s.conns.remove(conn);
    if some_app(conns) {
        let id = choose|id: Seq<char>| #[trigger] conns.contains_key(id) && conns[id].is_app;
        assert(s.conns.contains_key(id) && id != conn && s.conns[id].is_app);
    }
    if exists|id: Seq<char>| #[trigger]
        s.conns.contains_key(id) && id != conn && s.conns[id].is_app {
        let id = choose|id: Seq<char>| #[trigger]
            s.conns.contains_key(id) && id != conn && s.conns[id].is_app;
        assert(conns.contains_key(id) && conns[id].is_app);
    }
}

/// A new connection is nobody's yet, and nothing waits for it; nothing else changes.
pub proof fn law_connection_comes(s: ServerView, conn: Seq<char>)
    ensures
        ({
            let t = s.opened(conn);
            &&& t.conns == s.conns.insert(conn, t.conns[conn])
            &&& !t.conns[conn].is_app
            &&& t.conns[conn].outbox.len() == 0
            &&& t == (ServerView { conns: t.conns, ..s })
        }),
{
}

/// The messages that set the channels to a strength spell it out: the channel, the mode that sets a
/// value, and the strength in plain digits.
pub proof fn law_strength_is_spelled_out(s: ServerView, strength: u8, d: Seq<char>)
    requires
        plain(d, strength as int),
    ensures
        strength_message(1, strength) == "strength-1+2+"@ + d,
        strength_message(2, strength) == "strength-2+2+"@ + d,
        s.strength_frame(1, strength) == (FrameView::Named {
            kind: FrameKind::Msg,
            client_id: s.client_id,
            target_id: s.target_id,
            message: "strength-1+2+"@ + d,
        }),
        s.strength_frame(2, strength) == (FrameView::Named {
            kind: FrameKind::Msg,
            client_id: s.client_id,
            target_id: s.target_id,
            message: "strength-2+2+"@ + d,
        }),
{
    law_number_is_written_plainly(strength as nat, d);
    assert(plain(seq!['1'], 1)) by {
        assert(seq!['1'].drop_last() =~= Seq::<char>::empty());
        reveal_with_fuel(crate::laws::text::amount, 2);
    }
    assert(plain(seq!['2'], 2)) by {
        assert(seq!['2'].drop_last() =~= Seq::<char>::empty());
        reveal_with_fuel(crate::laws::text::amount, 2);
    }
    law_number_is_written_plainly(1, seq!['1']);
    law_number_is_written_plainly(2, seq!['2']);
    reveal_strlit("strength-");
    reveal_strlit("+2+");
    reveal_strlit("strength-1+2+");
    reveal_strlit("strength-2+2+");
    assert(strength_message(1, strength) =~= "strength-1+2+"@ + d);
    assert(strength_message(2, strength) =~= "strength-2+2+"@ + d);
}

/// Setting a strength while an APP is paired over an open connection appends the two messages that
/// spell it out to what waits there, channel 1 before channel 2, and changes nothing else.
pub proof fn law_strength_is_queued(s: ServerView, strength: u8, d: Seq<char>)
    requires
        s.target_id.len() > 0,
        s.conns.contains_key(s.paired_conn),
        plain(d, strength as int),
    ensures
        DglabServer::with_strength(s, strength) == (ServerView {
            conns: s.conns.insert(
                s.paired_conn,
                ConnView {
                    is_app: s.conns[s.paired_conn].is_app,
                    outbox: s.conns[s.paired_conn].outbox.push(
                        FrameView::Named {
                            kind: FrameKind::Msg,
                            client_id: s.client_id,
                            target_id: s.target_id,
                            message: "strength-1+2+"@ + d,
                        },
                    ).push(
                        FrameView::Named {
                            kind: FrameKind::Msg,
                            client_id: s.client_id,
                            target_id: s.target_id,
                            message: "strength-2+2+"@ + d,
                        },
                    ),
                },
            ),
            ..s
        }),
{
    law_strength_is_spelled_out(s, strength, d);
    assert(DglabServer::with_strength(s, strength).conns =~= s.conns.insert(
        s.paired_conn,
        DglabServer::with_strength(s, strength).conns[s.paired_conn],
    ));
}

/// Setting a strength while no APP is paired, or over a connection that is not there, does nothing.
pub proof fn law_strength_for_nobody(s: ServerView, strength: u8)
    requires
        s.target_id.len() == 0 || !s.conns.contains_key(s.paired_conn),
    ensures
        DglabServer::with_strength(s, strength) == s,
{
}

/// A server is connected while it knows an APP and was not told to stop. Disconnecting forgets the
/// APP; stopping ends accepting for good. Neither touches the connections.
pub proof fn law_connected_disconnected_stopped(s: ServerView)
    ensures
        DglabServer::is_connected(s) == (s.target_id.len() > 0 && !s.stopping),
        DglabServer::disconnected(s).target_id.len() == 0,
        DglabServer::disconnected(s).paired_conn.len() == 0,
        DglabServer::disconnected(s).shared == (StateView {
            url: s.shared.url,
            client_id: s.shared.client_id,
            paired: false,
        }),
        DglabServer::disconnected(s) == (ServerView {
            target_id: DglabServer::disconnected(s).target_id,
            paired_conn: DglabServer::disconnected(s).paired_conn,
            shared: DglabServer::disconnected(s).shared,
            ..s
        }),
        s.stopped() == (ServerView { running: false, stopping: true, ..s }),
{
}

/// A server that is replaced is left as it was, but told to stop.
pub proof fn law_replaced_server_is_stopped(before: DglabServer, after: DglabServer)
    ensures
        before.stops_as(&after) == (after@ == (ServerView {
            running: false,
            stopping: true,
            ..before@
        })),
        before.state() == before@,
{
}

/// A new server has its address and its terminal, shows both, is paired with nobody, has no
/// connections, and neither runs nor stops.
pub proof fn law_new_server(url: Seq<char>, client_id: Seq<char>, conn: Seq<char>)
    ensures
        ({
            let s = new_server(url, client_id);
            &&& s.url == url
            &&& s.client_id == client_id
            &&& s.target_id.len() == 0
            &&& s.paired_conn.len() == 0
            &&& !s.conns.contains_key(conn)
            &&& s.shared.url == url
            &&& s.shared.client_id == client_id
            &&& !s.shared.paired
            &&& !s.running
            &&& !s.stopping
        }),
{
}

/// What is shown is known by its fields.
pub proof fn law_shown_state_is_its_fields(state: DglabState)
    ensures
        state@.url == state.url@,
        state@.client_id == state.client_id@,
        state@.paired == state.paired,
{
}

/// Marking, queueing and emptying a connection change that connection alone, and there the mark,
/// the end of what waits, and all that waits.
pub proof fn law_one_connection_changes(
    conns: Map<Seq<char>, ConnView>,
    id: Seq<char>,
    frame: FrameView,
)
    ensures
        conns.contains_key(id) ==> {
            &&& marked(conns, id) == conns.insert(
                id,
                ConnView { is_app: true, outbox: conns[id].outbox },
            )
            &&& queued(conns, id, frame) == conns.insert(
                id,
                ConnView { is_app: conns[id].is_app, outbox: conns[id].outbox.push(frame) },
            )
            &&& emptied(conns, id) == conns.insert(
                id,
                ConnView { is_app: conns[id].is_app, outbox: Seq::empty() },
            )
            &&& waiting(conns, id) == conns[id].outbox
        },
        !conns.contains_key(id) ==> {
            &&& marked(conns, id) == conns
            &&& queued(conns, id, frame) == conns
            &&& emptied(conns, id) == conns
            &&& waiting(conns, id).len() == 0
        },
{
}

/// The other end of a new connection is told the id of the connection, by a bind message without a
/// partner, whatever the id.
pub proof fn law_greeting_tells_the_id(conn: Seq<char>)
    ensures
        greeting_for(conn).text() == json_object_text(
            seq![
                ("type"@, ScalarView::Text("bind"@)),
                ("clientId"@, ScalarView::Text(conn)),
                ("targetId"@, ScalarView::Text(Seq::empty())),
                ("message"@, ScalarView::Text("targetId"@)),
            ],
        ),
        greeting_for(conn).as_packet().client_id == Some(conn),
{
}

/// The numbers of connections go up by one and begin anew at 0 after the last one.
pub proof fn law_numbers_go_up(n: u64)
    ensures
        next_number(n) == if n as int == 0xffff_ffff_ffff_ffff {
            0int
        } else {
            n as int + 1
        },
{
}

/// While connections are accepted, each that comes in is served, a failure is waited out for 50
/// milliseconds, and neither changes the server; being told to stop ends it.
pub proof fn law_accepting(s: ServerView, event: AcceptEvent)
    ensures
        event is Accepted ==> accept_action(event) is Serve && s.accepting(event) == s,
        event is Failed ==> accept_action(event) == AcceptAction::Wait(50) && s.accepting(event)
            == s,
        event is Shutdown ==> accept_action(event) is Stop && s.accepting(event) == (ServerView {
            running: false,
            ..s
        }),
        s.accepting_begun() == (ServerView { running: true, ..s }),
{
}

}

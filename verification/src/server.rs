//! The embedded server: the phone in the same network connects to it directly.

use crate::conns::{emptied, marked, queued, some_app, waiting, ConnTable, ConnView};
use crate::packet::{frame_view, lemma_words_differ, read_back, read_packet, text_or_empty};
use crate::packet::{text_view, texts_of};
use crate::packet::{Frame, FrameKind, FrameView, Packet, PacketView};
use crate::state::{DglabState, StateView};
use crate::text::{decimal, decimal_text, same_text};
use crate::transport::DglabTransport;
use vstd::prelude::*;
use vstd::string::StringExecFns;

verus! {

/// The embedded server for protocol v2.
pub struct DglabServer {
    /// The address under which others reach the server.
    pub url: String,
    /// The id of the controlling terminal, which is this machine.
    client_id: String,
    /// The id of the paired APP; empty while none is paired.
    target_id: String,
    /// The id of the connection over which the APP paired; empty while none is paired.
    paired_conn: String,
    /// The connections, by id.
    conns: ConnTable,
    /// What the user interface reads.
    pub shared: DglabState,
    /// Whether connections are being accepted.
    running: bool,
    /// Whether the server was told to stop accepting.
    stopping: bool,
}

/// The server, as a mathematical value.
#[verifier::ext_equal]
pub struct ServerView {
    pub url: Seq<char>,
    pub client_id: Seq<char>,
    pub target_id: Seq<char>,
    pub paired_conn: Seq<char>,
    pub conns: Map<Seq<char>, ConnView>,
    pub shared: StateView,
    pub running: bool,
    pub stopping: bool,
}

impl View for DglabServer {
    type V = ServerView;

    closed spec fn view(&self) -> ServerView {
        ServerView {
            url: self.url@,
            client_id: self.client_id@,
            target_id: self.target_id@,
            paired_conn: self.paired_conn@,
            conns: self.conns@,
            shared: self.shared@,
            running: self.running,
            stopping: self.stopping,
        }
    }
}

/// `host:port`.
pub open spec fn host_port(host: Seq<char>, port: u16) -> Seq<char> {
    host + ":"@ + decimal(port as nat)
}

/// The address under which a server on `host` is reached.
pub open spec fn server_url(host: Seq<char>, port: u16) -> Seq<char> {
    "ws://"@ + host_port(host, port)
}

/// A server to which nobody has connected yet.
pub open spec fn new_server(url: Seq<char>, client_id: Seq<char>) -> ServerView {
    ServerView {
        url,
        client_id,
        target_id: Seq::empty(),
        paired_conn: Seq::empty(),
        conns: Map::empty(),
        shared: StateView { url, client_id, paired: false },
        running: false,
        stopping: false,
    }
}

/// The id of the connection with number `n`.
pub open spec fn conn_id(n: u64) -> Seq<char> {
    "c"@ + decimal(n as nat)
}

/// The number that comes after `n`; the numbers begin anew after the last.
pub open spec fn next_number(n: u64) -> u64 {
    if n == u64::MAX {
        0
    } else {
        (n + 1) as u64
    }
}

/// The message that tells the other end of a new connection its id.
pub open spec fn greeting_for(conn: Seq<char>) -> FrameView {
    FrameView::Named {
        kind: FrameKind::Bind,
        client_id: conn,
        target_id: Seq::empty(),
        message: "targetId"@,
    }
}

/// The message that sets a channel of the APP to a strength.
pub open spec fn strength_message(channel: u8, strength: u8) -> Seq<char> {
    "strength-"@ + decimal(channel as nat) + "+2+"@ + decimal(strength as nat)
}

impl ServerView {
    /// What the user interface reads, with the pairing shown as `paired`.
    pub open spec fn with_paired(self, paired: bool) -> StateView {
        StateView { paired, ..self.shared }
    }

    /// A connection has been accepted under `id`.
    pub open spec fn opened(self, id: Seq<char>) -> ServerView {
        ServerView { conns: self.conns.insert(id, ConnView::fresh()), ..self }
    }

    /// The message asks to pair with this server: it names the controlling terminal, or an APP.
    pub open spec fn pairs(self, p: PacketView) -> bool {
        &&& text_or_empty(p.kind) == "bind"@
        &&& text_or_empty(p.client_id) == self.client_id || text_or_empty(p.target_id).len() > 0
    }

    /// The id under which the sender of a request to pair is known from then on.
    pub open spec fn paired_id(conn: Seq<char>, p: PacketView) -> Seq<char> {
        if text_or_empty(p.target_id).len() == 0 {
            conn
        } else {
            text_or_empty(p.target_id)
        }
    }

    /// An APP is paired over a connection that is open and is not `conn`.
    pub open spec fn taken_by_other(self, conn: Seq<char>) -> bool {
        self.target_id.len() > 0 && self.conns.contains_key(self.paired_conn) && self.paired_conn
            != conn
    }

    /// The message from the connection `conn` asks to pair, and no other APP is in the way.
    pub open spec fn grants(self, conn: Seq<char>, p: PacketView) -> bool {
        self.pairs(p) && !self.taken_by_other(conn)
    }

    /// The server after a message from the connection `conn`.
    pub open spec fn received(self, conn: Seq<char>, p: PacketView) -> ServerView {
        if self.grants(conn, p) {
            ServerView {
                target_id: Self::paired_id(conn, p),
                paired_conn: conn,
                conns: marked(self.conns, conn),
                shared: self.with_paired(true),
                ..self
            }
        } else if self.pairs(p) {
            self
        } else if text_or_empty(p.kind) == "break"@ {
            ServerView { shared: self.with_paired(false), ..self }
        } else {
            self
        }
    }

    /// The answer to a message from the connection `conn`.
    pub open spec fn reply(self, conn: Seq<char>, p: PacketView) -> Option<FrameView> {
        if self.pairs(p) {
            Some(
                FrameView::Named {
                    kind: FrameKind::Bind,
                    client_id: self.client_id,
                    target_id: Self::paired_id(conn, p),
                    message: if self.taken_by_other(conn) {
                        "400"@
                    } else {
                        "200"@
                    },
                },
            )
        } else if text_or_empty(p.kind) == "heartbeat"@ {
            Some(
                FrameView::Named {
                    kind: FrameKind::Heartbeat,
                    client_id: self.client_id,
                    target_id: self.target_id,
                    message: "200"@,
                },
            )
        } else {
            None
        }
    }

    /// The server after the connection `conn` has gone. The pairing goes with the connection of the
    /// paired APP.
    pub open spec fn cleaned(self, conn: Seq<char>) -> ServerView {
        let conns = self.conns.remove(conn);
        if self.target_id.len() > 0 && (conn == self.paired_conn || !some_app(conns)) {
            ServerView { conns, ..self.unpaired() }
        } else {
            ServerView { conns, ..self }
        }
    }

    /// The message to the paired APP that sets one channel.
    pub open spec fn strength_frame(self, channel: u8, strength: u8) -> FrameView {
        FrameView::Named {
            kind: FrameKind::Msg,
            client_id: self.client_id,
            target_id: self.target_id,
            message: strength_message(channel, strength),
        }
    }

    /// The server after both channels of the paired APP were set.
    pub open spec fn strengthened(self, strength: u8) -> ServerView {
        if self.target_id.len() == 0 {
            self
        } else {
            ServerView {
                conns: queued(
                    queued(self.conns, self.paired_conn, self.strength_frame(1, strength)),
                    self.paired_conn,
                    self.strength_frame(2, strength),
                ),
                ..self
            }
        }
    }

    /// The server after the pairing was given up.
    pub open spec fn unpaired(self) -> ServerView {
        ServerView {
            target_id: Seq::empty(),
            paired_conn: Seq::empty(),
            shared: self.with_paired(false),
            ..self
        }
    }

    /// The server after it was told to stop.
    pub open spec fn stopped(self) -> ServerView {
        ServerView { running: false, stopping: true, ..self }
    }
}

/// That a message closes the connection it came over.
pub open spec fn closes(p: PacketView) -> bool {
    text_or_empty(p.kind) == "break"@
}

/// The message is of none of the kinds that the protocol knows.
pub open spec fn is_unknown(p: PacketView) -> bool {
    let kind = text_or_empty(p.kind);
    kind != "bind"@ && kind != "heartbeat"@ && kind != "msg"@ && kind != "break"@ && kind
        != "error"@
}

/// The text, or the empty text where there is none.
fn or_empty(s: &Option<String>) -> (r: &str)
    ensures
        r@ == text_or_empty(text_view(*s)),
{
    match s {
        Some(s) => s.as_str(),
        None => {
            let empty: &str = "";
            proof {
                reveal_strlit("");
            }
            assert(empty@ =~= Seq::<char>::empty());
            empty
        },
    }
}

/// What a message asks of the connection it came over.
pub struct Outcome {
    /// What is sent back.
    pub reply: Option<Frame>,
    /// Whether the connection is to be closed.
    pub close: bool,
    /// Whether the message is of no known kind.
    pub unknown: bool,
}

/// What can happen on an open connection.
pub enum ConnEvent {
    /// Messages wait to be sent.
    Queued,
    /// No more messages can be queued.
    QueueClosed,
    /// A queued message could not be sent.
    SendFailed,
    /// A text came in.
    Text(String),
    /// Something came in that is no text and does not end the connection.
    Other,
    /// The other end closed the connection, or it broke off.
    Closed,
    /// Reading failed.
    Failed,
}

/// What is to be done on an open connection.
pub enum ConnAction {
    /// Send these, in order; a failure ends the connection.
    Relay(Vec<String>),
    /// Send this; a failure is passed over.
    Reply(String),
    /// Note that the text holds a message of no known kind.
    Unknown,
    Nothing,
    /// End the connection.
    Close,
}

/// What is to be done on an open connection, as a mathematical value.
#[verifier::ext_equal]
pub enum ActionView {
    Relay(Seq<Seq<char>>),
    Reply(Seq<char>),
    Unknown,
    Nothing,
    Close,
}

impl View for ConnAction {
    type V = ActionView;

    open spec fn view(&self) -> ActionView {
        match self {
            ConnAction::Relay(texts) => ActionView::Relay(texts@.map_values(|s: String| s@)),
            ConnAction::Reply(text) => ActionView::Reply(text@),
            ConnAction::Unknown => ActionView::Unknown,
            ConnAction::Nothing => ActionView::Nothing,
            ConnAction::Close => ActionView::Close,
        }
    }
}

impl ServerView {
    /// The server after an event on the connection `conn`, while the connection still stands.
    pub open spec fn taken(self, conn: Seq<char>, event: ConnEvent) -> ServerView {
        match event {
            ConnEvent::Queued => ServerView { conns: emptied(self.conns, conn), ..self },
            ConnEvent::Text(text) => match read_packet(text@) {
                Some(p) => self.received(conn, p),
                None => self,
            },
            _ => self,
        }
    }

    /// The server after an event on the connection `conn`. A connection that is to end is
    /// forgotten.
    pub open spec fn stepped(self, conn: Seq<char>, event: ConnEvent) -> ServerView {
        if self.action(conn, event) is Close {
            self.taken(conn, event).cleaned(conn)
        } else {
            self.taken(conn, event)
        }
    }

    /// The messages that an event on the connection `conn` has sent over it, in order.
    pub open spec fn sent(self, conn: Seq<char>, event: ConnEvent) -> Seq<FrameView> {
        match event {
            ConnEvent::Queued => waiting(self.conns, conn),
            ConnEvent::Text(text) => match read_packet(text@) {
                Some(p) => match self.reply(conn, p) {
                    Some(f) => seq![f],
                    None => Seq::empty(),
                },
                None => Seq::empty(),
            },
            _ => Seq::empty(),
        }
    }

    /// What an event on the connection `conn` calls for.
    pub open spec fn action(self, conn: Seq<char>, event: ConnEvent) -> ActionView {
        match event {
            ConnEvent::Queued => ActionView::Relay(
                waiting(self.conns, conn).map_values(|f: FrameView| f.text()),
            ),
            ConnEvent::Text(text) => match read_packet(text@) {
                Some(p) => if closes(p) {
                    ActionView::Close
                } else {
                    match self.reply(conn, p) {
                        Some(f) => ActionView::Reply(f.text()),
                        None => if is_unknown(p) {
                            ActionView::Unknown
                        } else {
                            ActionView::Nothing
                        },
                    }
                },
                None => ActionView::Nothing,
            },
            ConnEvent::Other => ActionView::Nothing,
            _ => ActionView::Close,
        }
    }

    /// The id of the APP that an event on the connection `conn` pairs, or the one known before.
    pub open spec fn paired_by(
        self,
        conn: Seq<char>,
        event: ConnEvent,
        before: Option<Seq<char>>,
    ) -> Option<Seq<char>> {
        match event {
            ConnEvent::Text(text) => match read_packet(text@) {
                Some(p) => if self.grants(conn, p) {
                    Some(Self::paired_id(conn, p))
                } else {
                    before
                },
                None => before,
            },
            _ => before,
        }
    }
}

/// What can happen while connections are accepted.
#[derive(Clone, Copy, Debug, PartialEq, Eq, Structural)]
pub enum AcceptEvent {
    /// The server was told to stop.
    Shutdown,
    /// A connection came in.
    Accepted,
    /// Accepting failed.
    Failed,
}

/// What is to be done while connections are accepted.
#[derive(Clone, Copy, Debug, PartialEq, Eq, Structural)]
pub enum AcceptAction {
    /// Stop and release the port.
    Stop,
    /// Serve the connection.
    Serve,
    /// Wait for so many milliseconds.
    Wait(u64),
}

/// What an event calls for while connections are accepted.
pub open spec fn accept_action(event: AcceptEvent) -> AcceptAction {
    match event {
        AcceptEvent::Shutdown => AcceptAction::Stop,
        AcceptEvent::Accepted => AcceptAction::Serve,
        AcceptEvent::Failed => AcceptAction::Wait(50),
    }
}

impl ServerView {
    /// The server once it accepts connections.
    pub open spec fn accepting_begun(self) -> ServerView {
        ServerView { running: true, ..self }
    }

    /// The server after an event while connections are accepted.
    pub open spec fn accepting(self, event: AcceptEvent) -> ServerView {
        match event {
            AcceptEvent::Shutdown => ServerView { running: false, ..self },
            _ => self,
        }
    }
}

impl DglabServer {
    /// A server for the port. The second part of the result is the address to listen at.
    pub fn bind(listen_host: &str, public_host: &str, port: u16, client_id: String) -> (r: (
        DglabServer,
        String,
    ))
        ensures
            r.0@ == new_server(server_url(public_host@, port), client_id@),
            r.1@ == host_port(listen_host@, port),
    {
        let port_text: String = decimal_text(port as u64);
        let bind_addr: String = listen_host.to_owned().concat(":").concat(port_text.as_str());
        let url: String = "ws://".to_owned().concat(public_host).concat(":").concat(
            port_text.as_str(),
        );
        assert(url@ =~= server_url(public_host@, port));
        let shared: DglabState = DglabState {
            url: url.clone(),
            client_id: client_id.clone(),
            paired: false,
        };
        let server: DglabServer = DglabServer {
            url,
            client_id,
            target_id: String::new(),
            paired_conn: String::new(),
            conns: ConnTable::new(),
            shared,
            running: false,
            stopping: false,
        };
        (server, bind_addr)
    }

    /// Stops accepting connections. Doing so twice is the same as once.
    pub fn shutdown(&mut self)
        ensures
            final(self)@ == old(self)@.stopped(),
    {
        self.running = false;
        self.stopping = true;
    }

    /// Accepting connections begins.
    pub fn start_accepting(&mut self)
        ensures
            final(self)@ == old(self)@.accepting_begun(),
            final(self)@ == (ServerView { running: true, ..old(self)@ }),
    {
        self.running = true;
    }

    /// Decides what follows an event while connections are accepted.
    pub fn accept_step(&mut self, event: AcceptEvent) -> (action: AcceptAction)
        ensures
            action == accept_action(event),
            action == (match event {
                AcceptEvent::Shutdown => AcceptAction::Stop,
                AcceptEvent::Accepted => AcceptAction::Serve,
                AcceptEvent::Failed => AcceptAction::Wait(50),
            }),
            final(self)@ == old(self)@.accepting(event),
            final(self)@ == (match event {
                AcceptEvent::Shutdown => ServerView { running: false, ..old(self)@ },
                _ => old(self)@,
            }),
    {
        match event {
            AcceptEvent::Shutdown => {
                self.running = false;
                AcceptAction::Stop
            },
            AcceptEvent::Accepted => AcceptAction::Serve,
            AcceptEvent::Failed => AcceptAction::Wait(50),
        }
    }

    /// The address under which others reach the server.
    pub fn url(&self) -> (r: &str)
        ensures
            r@ == self@.url,
    {
        self.url.as_str()
    }

    /// What the user interface reads.
    pub fn shared(&self) -> (r: &DglabState)
        ensures
            r@ == self@.shared,
    {
        &self.shared
    }

    /// Whether connections are being accepted.
    pub fn is_running(&self) -> (r: bool)
        ensures
            r == self@.running,
    {
        self.running
    }

    /// Whether the server was told to stop.
    pub fn is_stopping(&self) -> (r: bool)
        ensures
            r == self@.stopping,
    {
        self.stopping
    }

    /// The id for the next connection; `counter` counts the ids given so far.
    pub fn alloc_id(counter: &mut u64) -> (id: String)
        ensures
            id@ == conn_id(*old(counter)),
            *final(counter) == next_number(*old(counter)),
            *final(counter) == (if *old(counter) == u64::MAX {
                0
            } else {
                *old(counter) + 1
            }),
    {
        let n: u64 = *counter;
        *counter = n.wrapping_add(1);
        "c".to_owned().concat(decimal_text(n).as_str())
    }

    /// Enters an accepted connection and tells the other end its id.
    pub fn open_conn(&mut self, conn: &str) -> (greeting: Frame)
        ensures
            final(self)@ == old(self)@.opened(conn@),
            greeting@ == greeting_for(conn@),
            greeting@ == (FrameView::Named {
                kind: FrameKind::Bind,
                client_id: conn@,
                target_id: Seq::empty(),
                message: "targetId"@,
            }),
    {
        self.conns.insert(conn.to_owned());
        Frame::Named {
            kind: FrameKind::Bind,
            client_id: conn.to_owned(),
            target_id: String::new(),
            message: "targetId".to_owned(),
        }
    }

    /// Decides what follows an event on the connection `conn`, and forgets the connection where it
    /// is to end.
    pub fn conn_step(
        &mut self,
        conn: &str,
        event: &ConnEvent,
        paired_target: &mut Option<String>,
    ) -> (action: ConnAction)
        ensures
            final(self)@ == old(self)@.stepped(conn@, *event),
            action@ == old(self)@.action(conn@, *event),
            read_back(old(self)@.sent(conn@, *event)),
            text_view(*final(paired_target)) == old(self)@.paired_by(
                conn@,
                *event,
                text_view(*old(paired_target)),
            ),
    {
        proof {
            lemma_words_differ();
        }
        let action: ConnAction = match event {
            ConnEvent::Queued => {
                let frames: Vec<Frame> = self.conns.take(conn);
                ConnAction::Relay(texts_of(&frames))
            },
            ConnEvent::Text(text) => {
                match Packet::read(text.as_str()) {
                    Some(p) => {
                        let outcome: Outcome = self.on_message(conn, &p, paired_target);
                        if outcome.close {
                            ConnAction::Close
                        } else {
                            match outcome.reply {
                                Some(f) => ConnAction::Reply(f.to_text()),
                                None => {
                                    if outcome.unknown {
                                        ConnAction::Unknown
                                    } else {
                                        ConnAction::Nothing
                                    }
                                },
                            }
                        }
                    },
                    None => ConnAction::Nothing,
                }
            },
            ConnEvent::Other => ConnAction::Nothing,
            _ => ConnAction::Close,
        };
        if let ConnAction::Close = action {
            self.cleanup(conn);
        }
        action
    }

    /// Takes a message from the connection `conn`.
    pub fn on_message(&mut self, conn: &str, p: &Packet, paired_target: &mut Option<String>) -> (r:
        Outcome)
        ensures
            final(self)@ == old(self)@.received(conn@, p@),
            frame_view(r.reply) == old(self)@.reply(conn@, p@),
            r.close == closes(p@),
            r.unknown == is_unknown(p@),
            text_view(*final(paired_target)) == (if old(self)@.grants(conn@, p@) {
                Some(ServerView::paired_id(conn@, p@))
            } else {
                text_view(*old(paired_target))
            }),
    {
        let kind: &str = or_empty(&p.kind);
        let msg_ci: &str = or_empty(&p.client_id);
        let msg_ti: &str = or_empty(&p.target_id);
        proof {
            lemma_words_differ();
        }
        if same_text(kind, "bind") {
            if same_text(msg_ci, self.client_id.as_str()) || !msg_ti.is_empty() {
                let tid: String = if msg_ti.is_empty() {
                    conn.to_owned()
                } else {
                    msg_ti.to_owned()
                };
                if !self.target_id.as_str().is_empty() && self.conns.contains(
                    self.paired_conn.as_str(),
                ) && !same_text(self.paired_conn.as_str(), conn) {
                    let refusal: Frame = Frame::Named {
                        kind: FrameKind::Bind,
                        client_id: self.client_id.clone(),
                        target_id: tid,
                        message: "400".to_owned(),
                    };
                    return Outcome { reply: Some(refusal), close: false, unknown: false };
                }
                self.conns.mark_app(conn);
                self.target_id = tid.clone();
                self.paired_conn = conn.to_owned();
                *paired_target = Some(tid.clone());
                self.shared.paired = true;
                let reply: Frame = Frame::Named {
                    kind: FrameKind::Bind,
                    client_id: self.client_id.clone(),
                    target_id: tid,
                    message: "200".to_owned(),
                };
                return Outcome { reply: Some(reply), close: false, unknown: false };
            }
        } else if same_text(kind, "heartbeat") {
            let reply: Frame = Frame::Named {
                kind: FrameKind::Heartbeat,
                client_id: self.client_id.clone(),
                target_id: self.target_id.clone(),
                message: "200".to_owned(),
            };
            return Outcome { reply: Some(reply), close: false, unknown: false };
        } else if same_text(kind, "break") {
            self.shared.paired = false;
            return Outcome { reply: None, close: true, unknown: false };
        }
        let unknown: bool = !same_text(kind, "bind") && !same_text(kind, "msg") && !same_text(
            kind,
            "error",
        );
        Outcome { reply: None, close: false, unknown }
    }

    /// Forgets the connection `conn`, and the pairing where that was the connection of the paired
    /// APP or no APP is left.
    pub fn cleanup(&mut self, conn: &str)
        ensures
            final(self)@ == old(self)@.cleaned(conn@),
    {
        self.conns.remove(conn);
        if !self.target_id.as_str().is_empty() {
            if same_text(conn, self.paired_conn.as_str()) || !self.conns.any_app() {
                self.disconnect();
            }
        }
    }
}

impl DglabTransport for DglabServer {
    type State = ServerView;

    open spec fn state(&self) -> ServerView {
        self@
    }

    open spec fn is_connected(state: ServerView) -> bool {
        state.target_id.len() > 0 && !state.stopping
    }

    open spec fn with_strength(state: ServerView, strength: u8) -> ServerView {
        state.strengthened(strength)
    }

    open spec fn disconnected(state: ServerView) -> ServerView {
        state.unpaired()
    }

    /// An APP is paired, and the server was not told to stop.
    fn connected(&self) -> (r: bool) {
        !self.target_id.as_str().is_empty() && !self.stopping
    }

    /// Queues one message per channel for the paired APP.
    fn set_strength(&mut self, strength: u8) {
        if self.target_id.as_str().is_empty() {
            return ;
        }
        let mut channel: u8 = 1;
        let ghost before = self@;
        while channel <= 2
            invariant
                1 <= channel <= 3,
                before.target_id.len() > 0,
                channel == 1 ==> self@ == before,
                channel == 2 ==> self@ == (ServerView {
                    conns: queued(
                        before.conns,
                        before.paired_conn,
                        before.strength_frame(1, strength),
                    ),
                    ..before
                }),
                channel == 3 ==> self@ == before.strengthened(strength),
            decreases 3 - channel,
        {
            let message: String = "strength-".to_owned().concat(
                decimal_text(channel as u64).as_str(),
            ).concat("+2+").concat(decimal_text(strength as u64).as_str());
            let frame: Frame = Frame::Named {
                kind: FrameKind::Msg,
                client_id: self.client_id.clone(),
                target_id: self.target_id.clone(),
                message,
            };
            self.conns.queue(self.paired_conn.as_str(), frame);
            channel = channel + 1;
        }
    }

    fn disconnect(&mut self) {
        self.target_id = String::new();
        self.paired_conn = String::new();
        self.shared.paired = false;
    }
}

/// What can be told to stop.
pub trait Stoppable {
    /// `after` can be left once this was told to stop. Where an impl says nothing, anything can.
    open spec fn stops_as(&self, after: &Self) -> bool {
        true
    }

    /// Tells it to stop.
    fn stop(&mut self)
        ensures
            old(self).stops_as(final(self)),
    ;
}

impl Stoppable for DglabServer {
    open spec fn stops_as(&self, after: &Self) -> bool {
        after@ == self@.stopped()
    }

    fn stop(&mut self) {
        self.shutdown();
    }
}

/// Puts a server in its place, or none. The server that was there is told to stop and handed back.
pub fn set_server<S: Stoppable>(slot: &mut Option<S>, server: Option<S>) -> (previous: Option<S>)
    ensures
        *final(slot) == server,
        match *old(slot) {
            Some(s) => previous is Some && s.stops_as(&previous->0),
            None => previous is None,
        },
{
    let mut previous: Option<S> = server;
    std::mem::swap(&mut previous, slot);
    match previous {
        Some(s) => {
            let mut s: S = s;
            s.stop();
            Some(s)
        },
        None => None,
    }
}

/// The server that is in its place, if there is one.
pub fn current_server<S>(slot: &Option<S>) -> (r: Option<&S>)
    ensures
        r is Some == slot is Some,
        r matches Some(s) ==> *slot == Some(*s),
{
    match slot {
        Some(s) => Some(s),
        None => None,
    }
}

}

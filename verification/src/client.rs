//! The client of an external relay.

use crate::address::{normalize_ws_url, normalized, pairing_link, pairing_text};
use crate::packet::{frame_view, frames_view, lemma_words_differ, read_back, read_packet};
use crate::packet::{text_or_empty, text_view, texts_of};
use crate::packet::{Frame, FrameKind, FrameView, Packet, PacketView};
use crate::state::{DglabState, StateView};
use crate::text::same_text;
use crate::transport::DglabTransport;
use vstd::prelude::*;

verus! {

/// How many strengths can wait to be sent.
pub const QUEUE_CAPACITY: usize = 64;

/// How many seconds pass before the next attempt to connect.
pub const RECONNECT_SECS: u64 = 3;

/// The transport over an external relay.
pub struct WsTransport {
    /// The address of the relay, in its normal form.
    url: String,
    /// The id that the relay gave in this session; empty before.
    client_id: String,
    /// The id of the APP in this session; empty before.
    target_id: String,
    /// The strengths that wait to be sent, oldest first.
    queue: Vec<u8>,
    connected: bool,
    /// What the user interface reads.
    pub shared: DglabState,
}

/// The client, as a mathematical value.
#[verifier::ext_equal]
pub struct ClientView {
    pub url: Seq<char>,
    pub client_id: Seq<char>,
    pub target_id: Seq<char>,
    pub queue: Seq<u8>,
    pub connected: bool,
    pub shared: StateView,
}

impl View for WsTransport {
    type V = ClientView;

    closed spec fn view(&self) -> ClientView {
        ClientView {
            url: self.url@,
            client_id: self.client_id@,
            target_id: self.target_id@,
            queue: self.queue@,
            connected: self.connected,
            shared: self.shared@,
        }
    }
}

/// A client that has not connected yet.
pub open spec fn new_client(url: Seq<char>) -> ClientView {
    ClientView {
        url,
        client_id: Seq::empty(),
        target_id: Seq::empty(),
        queue: Seq::empty(),
        connected: false,
        shared: StateView { url, client_id: Seq::empty(), paired: false },
    }
}

/// `new` where it is there and `old` is empty, else `old`.
pub open spec fn first_of(old: Seq<char>, new: Option<Seq<char>>) -> Seq<char> {
    match new {
        Some(s) => if old.len() == 0 {
            s
        } else {
            old
        },
        None => old,
    }
}

/// `new` where it is there and not empty, else `old`.
pub open spec fn latest_of(old: Seq<char>, new: Option<Seq<char>>) -> Seq<char> {
    match new {
        Some(s) => if s.len() > 0 {
            s
        } else {
            old
        },
        None => old,
    }
}

impl ClientView {
    /// The message that opens a session.
    pub open spec fn hello() -> FrameView {
        FrameView::Named {
            kind: FrameKind::Bind,
            client_id: "pending"@,
            target_id: Seq::empty(),
            message: "bind"@,
        }
    }

    /// The client at the start of a session.
    pub open spec fn started(self) -> ClientView {
        ClientView {
            client_id: Seq::empty(),
            target_id: Seq::empty(),
            connected: true,
            ..self
        }
    }

    /// The client at the end of a session.
    pub open spec fn ended(self) -> ClientView {
        ClientView { connected: false, ..self }
    }

    /// The message gives the session its id.
    pub open spec fn takes_id(self, p: PacketView) -> bool {
        p.kind == Some("bind"@) && self.client_id.len() == 0 && text_or_empty(p.client_id).len() > 0
    }

    /// The id that is shown after a bind message: the one that the session has just got, else the
    /// one shown before.
    pub open spec fn shown_id(self, p: PacketView) -> Seq<char> {
        if self.takes_id(p) {
            text_or_empty(p.client_id)
        } else {
            first_of(self.shared.client_id, p.client_id)
        }
    }

    /// The client after a message from the relay.
    pub open spec fn received(self, p: PacketView) -> ClientView {
        if p.kind == Some("bind"@) {
            ClientView {
                client_id: first_of(self.client_id, p.client_id),
                target_id: latest_of(self.target_id, p.target_id),
                shared: StateView {
                    client_id: self.shown_id(p),
                    paired: self.shared.paired || p.message == Some("200"@),
                    ..self.shared
                },
                ..self
            }
        } else if p.kind == Some("break"@) {
            ClientView { shared: StateView { paired: false, ..self.shared }, ..self }
        } else {
            self
        }
    }

    /// The answer to a message from the relay.
    pub open spec fn reply(self, p: PacketView) -> Option<FrameView> {
        if p.kind == Some("heartbeat"@) {
            Some(
                FrameView::Named {
                    kind: FrameKind::Heartbeat,
                    client_id: self.client_id,
                    target_id: self.target_id,
                    message: "200"@,
                },
            )
        } else {
            None
        }
    }

    /// What the pairing code holds that a message from the relay gives rise to.
    pub open spec fn link(self, p: PacketView) -> Option<Seq<char>> {
        if p.kind == Some("bind"@) && p.client_id is Some && self.client_id.len() == 0 {
            Some(pairing_text(self.url, p.client_id->0))
        } else {
            None
        }
    }

    /// The message to the relay that sets one channel.
    pub open spec fn strength_frame(self, channel: u8, strength: u8) -> FrameView {
        FrameView::SetChannel {
            channel,
            strength,
            client_id: self.client_id,
            target_id: self.target_id,
        }
    }

    /// The client after a strength was put in line; it is dropped where the line is full.
    pub open spec fn strengthened(self, strength: u8) -> ClientView {
        if self.queue.len() < QUEUE_CAPACITY {
            ClientView { queue: self.queue.push(strength), ..self }
        } else {
            self
        }
    }
}

/// Why a session ends.
#[derive(Clone, Copy, Debug, PartialEq, Eq, Structural)]
pub enum SessionEnd {
    /// No more strengths can come.
    Finished,
    /// The opposite side disconnected.
    Unpaired,
    /// The relay closed the connection.
    Closed,
    /// The relay could not be reached.
    Unreachable,
    /// A message could not be sent.
    SendFailed,
    /// Receiving failed.
    ReceiveFailed,
}

impl SessionEnd {
    /// What the log says of the end of a session, where it says more than the failure itself.
    pub open spec fn words(self) -> Option<Seq<char>> {
        match self {
            SessionEnd::Unreachable => Some("dglab ws connect failed"@),
            SessionEnd::Unpaired => Some("dglab: opposite side disconnected"@),
            SessionEnd::Closed => Some("dglab ws closed"@),
            SessionEnd::Finished | SessionEnd::SendFailed | SessionEnd::ReceiveFailed => None,
        }
    }

    /// What the log says of the end of a session, where it says more than the failure itself.
    pub fn message(self) -> (r: Option<&'static str>)
        ensures
            r is Some == self.words() is Some,
            r matches Some(s) ==> self.words() == Some(s@),
    {
        match self {
            SessionEnd::Unreachable => Some("dglab ws connect failed"),
            SessionEnd::Unpaired => Some("dglab: opposite side disconnected"),
            SessionEnd::Closed => Some("dglab ws closed"),
            SessionEnd::Finished | SessionEnd::SendFailed | SessionEnd::ReceiveFailed => None,
        }
    }
}

/// What can happen in a session.
pub enum SessionEvent {
    /// The relay could not be reached.
    Unreachable,
    /// A strength waits to be sent.
    Command,
    /// No more strengths can come.
    QueueClosed,
    /// A text came in.
    Text(String),
    /// Something came in that is no text.
    Other,
    /// A message could not be sent.
    SendFailed,
    /// Receiving failed.
    ReceiveFailed,
    /// The relay closed the connection.
    Closed,
}

/// What is to be done in a session.
pub enum SessionAction {
    /// Send these, in order; a failure ends the session.
    Send(Vec<String>),
    /// Show what the pairing code holds.
    Announce(String),
    /// Note that the text holds no message of a known kind.
    Unknown,
    Nothing,
    /// End the session.
    End(SessionEnd),
}

/// What is to be done in a session, as a mathematical value.
#[verifier::ext_equal]
pub enum SessionActionView {
    Send(Seq<Seq<char>>),
    Announce(Seq<char>),
    Unknown,
    Nothing,
    End(SessionEnd),
}

impl View for SessionAction {
    type V = SessionActionView;

    open spec fn view(&self) -> SessionActionView {
        match self {
            SessionAction::Send(texts) => SessionActionView::Send(
                texts@.map_values(|s: String| s@),
            ),
            SessionAction::Announce(text) => SessionActionView::Announce(text@),
            SessionAction::Unknown => SessionActionView::Unknown,
            SessionAction::Nothing => SessionActionView::Nothing,
            SessionAction::End(end) => SessionActionView::End(*end),
        }
    }
}

/// What a message from the relay calls for.
pub struct Response {
    /// What is sent back.
    pub reply: Option<Frame>,
    /// What the pairing code holds, where the session has just got its id.
    pub link: Option<String>,
    /// Whether the session ends.
    pub end: bool,
    /// Whether the message is of no known kind.
    pub unknown: bool,
}

/// The message is of none of the kinds that the client knows.
pub open spec fn is_unknown(p: PacketView) -> bool {
    p.kind != Some("bind"@) && p.kind != Some("break"@) && p.kind != Some("heartbeat"@)
}

impl ClientView {
    /// The client after an event.
    pub open spec fn stepped(self, event: SessionEvent) -> ClientView {
        match event {
            SessionEvent::Command => if self.queue.len() > 0 {
                ClientView { queue: self.queue.drop_first(), ..self }
            } else {
                self
            },
            SessionEvent::Text(text) => match read_packet(text@) {
                Some(p) => self.received(p),
                None => self,
            },
            _ => self,
        }
    }

    /// The messages for the strength that has waited longest.
    pub open spec fn command_frames(self) -> Seq<FrameView> {
        seq![
            self.strength_frame(1, self.queue.first()),
            self.strength_frame(2, self.queue.first()),
        ]
    }

    /// The messages that an event has sent, in order.
    pub open spec fn sent(self, event: SessionEvent) -> Seq<FrameView> {
        match event {
            SessionEvent::Command => if self.queue.len() > 0 {
                self.command_frames()
            } else {
                Seq::empty()
            },
            SessionEvent::Text(text) => match read_packet(text@) {
                Some(p) => match self.reply(p) {
                    Some(f) => seq![f],
                    None => Seq::empty(),
                },
                None => Seq::empty(),
            },
            _ => Seq::empty(),
        }
    }

    /// What a message from the relay calls for.
    pub open spec fn answer(self, p: PacketView) -> SessionActionView {
        if p.kind == Some("break"@) {
            SessionActionView::End(SessionEnd::Unpaired)
        } else {
            match self.reply(p) {
                Some(f) => SessionActionView::Send(seq![f.text()]),
                None => match self.link(p) {
                    Some(link) => SessionActionView::Announce(link),
                    None => if is_unknown(p) {
                        SessionActionView::Unknown
                    } else {
                        SessionActionView::Nothing
                    },
                },
            }
        }
    }

    /// What an event calls for.
    pub open spec fn action(self, event: SessionEvent) -> SessionActionView {
        match event {
            SessionEvent::Command => if self.queue.len() > 0 {
                SessionActionView::Send(self.command_frames().map_values(|f: FrameView| f.text()))
            } else {
                SessionActionView::Nothing
            },
            SessionEvent::QueueClosed => SessionActionView::End(SessionEnd::Finished),
            SessionEvent::Text(text) => match read_packet(text@) {
                Some(p) => self.answer(p),
                None => SessionActionView::Unknown,
            },
            SessionEvent::Other => SessionActionView::Nothing,
            SessionEvent::Unreachable => SessionActionView::End(SessionEnd::Unreachable),
            SessionEvent::SendFailed => SessionActionView::End(SessionEnd::SendFailed),
            SessionEvent::ReceiveFailed => SessionActionView::End(SessionEnd::ReceiveFailed),
            SessionEvent::Closed => SessionActionView::End(SessionEnd::Closed),
        }
    }
}

/// Whether `s` is there and holds `word`.
fn is_word(s: &Option<String>, word: &str) -> (r: bool)
    ensures
        r == (text_view(*s) == Some(word@)),
{
    match s {
        Some(s) => same_text(s.as_str(), word),
        None => false,
    }
}

impl WsTransport {
    /// A client of the relay at `url`, not connected yet.
    pub fn connect(url: &str) -> (client: WsTransport)
        ensures
            client@ == new_client(normalized(url@)),
    {
        let url: String = normalize_ws_url(url);
        let shared: DglabState = DglabState { url: url.clone(), ..DglabState::default() };
        let client: WsTransport = WsTransport {
            url,
            client_id: String::new(),
            target_id: String::new(),
            queue: Vec::new(),
            connected: false,
            shared,
        };
        client
    }

    /// The address of the relay.
    pub fn url(&self) -> (r: &str)
        ensures
            r@ == self@.url,
    {
        self.url.as_str()
    }

    /// The id that the relay gave this session; empty before that.
    pub fn client_id(&self) -> (r: &str)
        ensures
            r@ == self@.client_id,
    {
        self.client_id.as_str()
    }

    /// The id of the APP in this session; empty before the relay named one.
    pub fn target_id(&self) -> (r: &str)
        ensures
            r@ == self@.target_id,
    {
        self.target_id.as_str()
    }

    /// What the user interface reads.
    pub fn shared(&self) -> (r: &DglabState)
        ensures
            r@ == self@.shared,
    {
        &self.shared
    }

    /// Whether a strength waits to be sent.
    pub fn has_command(&self) -> (r: bool)
        ensures
            r == (self@.queue.len() > 0),
    {
        self.queue.len() > 0
    }

    /// A session begins: the connection stands, and the message is the first to be sent.
    pub fn begin_session(&mut self) -> (hello: Frame)
        ensures
            final(self)@ == old(self)@.started(),
            hello@ == ClientView::hello(),
    {
        self.connected = true;
        self.client_id = String::new();
        self.target_id = String::new();
        Frame::Named {
            kind: FrameKind::Bind,
            client_id: "pending".to_owned(),
            target_id: String::new(),
            message: "bind".to_owned(),
        }
    }

    /// A session has ended. The result is the number of seconds until the next one is tried.
    pub fn end_session(&mut self) -> (wait_secs: u64)
        ensures
            final(self)@ == old(self)@.ended(),
            final(self)@ == (ClientView { connected: false, ..old(self)@ }),
            wait_secs == RECONNECT_SECS,
            wait_secs == 3,
    {
        self.connected = false;
        RECONNECT_SECS
    }

    /// Decides what follows an event in a session.
    pub fn session_step(&mut self, event: &SessionEvent) -> (action: SessionAction)
        ensures
            final(self)@ == old(self)@.stepped(*event),
            action@ == old(self)@.action(*event),
            read_back(old(self)@.sent(*event)),
    {
        proof {
            lemma_words_differ();
        }
        match event {
            SessionEvent::Command => {
                if self.queue.len() == 0 {
                    return SessionAction::Nothing;
                }
                let strength: u8 = self.queue.remove(0);
                assert(self.queue@ =~= old(self)@.queue.drop_first());
                let mut frames: Vec<Frame> = Vec::new();
                let mut channel: u8 = 1;
                while channel <= 2
                    invariant
                        1 <= channel <= 3,
                        old(self)@.queue.len() > 0,
                        strength == old(self)@.queue.first(),
                        self.client_id@ == old(self)@.client_id,
                        self.target_id@ == old(self)@.target_id,
                        frames@.len() == channel - 1,
                        frames_view(frames@) == old(self)@.command_frames().take(channel - 1),
                    decreases 3 - channel,
                {
                    frames.push(
                        Frame::SetChannel {
                            channel,
                            strength,
                            client_id: self.client_id.clone(),
                            target_id: self.target_id.clone(),
                        },
                    );
                    channel = channel + 1;
                    assert(frames_view(frames@) =~= old(self)@.command_frames().take(channel - 1));
                }
                assert(old(self)@.command_frames().take(2) =~= old(self)@.command_frames());
                SessionAction::Send(texts_of(&frames))
            },
            SessionEvent::QueueClosed => SessionAction::End(SessionEnd::Finished),
            SessionEvent::Text(text) => {
                match Packet::read(text.as_str()) {
                    Some(p) => {
                        let response: Response = self.on_packet(&p);
                        if response.end {
                            return SessionAction::End(SessionEnd::Unpaired);
                        }
                        match response.reply {
                            Some(f) => {
                                let mut texts: Vec<String> = Vec::new();
                                texts.push(f.to_text());
                                assert(texts@.map_values(|s: String| s@) =~= seq![f@.text()]);
                                SessionAction::Send(texts)
                            },
                            None => match response.link {
                                Some(link) => SessionAction::Announce(link),
                                None => {
                                    if response.unknown {
                                        SessionAction::Unknown
                                    } else {
                                        SessionAction::Nothing
                                    }
                                },
                            },
                        }
                    },
                    None => SessionAction::Unknown,
                }
            },
            SessionEvent::Other => SessionAction::Nothing,
            SessionEvent::Unreachable => SessionAction::End(SessionEnd::Unreachable),
            SessionEvent::SendFailed => SessionAction::End(SessionEnd::SendFailed),
            SessionEvent::ReceiveFailed => SessionAction::End(SessionEnd::ReceiveFailed),
            SessionEvent::Closed => SessionAction::End(SessionEnd::Closed),
        }
    }

    /// Takes a message from the relay.
    pub fn on_packet(&mut self, p: &Packet) -> (r: Response)
        ensures
            final(self)@ == old(self)@.received(p@),
            frame_view(r.reply) == old(self)@.reply(p@),
            text_view(r.link) == old(self)@.link(p@),
            r.end == (p@.kind == Some("break"@)),
            r.unknown == is_unknown(p@),
    {
        proof {
            lemma_words_differ();
        }
        if is_word(&p.kind, "bind") {
            let mut link: Option<String> = None;
            if let Some(cid) = &p.client_id {
                if self.client_id.as_str().is_empty() {
                    self.client_id = cid.clone();
                    if !cid.as_str().is_empty() {
                        self.shared.client_id = cid.clone();
                    }
                    link = Some(pairing_link(self.url.as_str(), cid.as_str()));
                }
                if self.shared.client_id.as_str().is_empty() {
                    self.shared.client_id = cid.clone();
                }
            }
            if let Some(tid) = &p.target_id {
                if !tid.as_str().is_empty() {
                    self.target_id = tid.clone();
                }
            }
            if is_word(&p.message, "200") {
                self.shared.paired = true;
            }
            Response { reply: None, link, end: false, unknown: false }
        } else if is_word(&p.kind, "break") {
            self.shared.paired = false;
            Response { reply: None, link: None, end: true, unknown: false }
        } else if is_word(&p.kind, "heartbeat") {
            let reply: Frame = Frame::Named {
                kind: FrameKind::Heartbeat,
                client_id: self.client_id.clone(),
                target_id: self.target_id.clone(),
                message: "200".to_owned(),
            };
            Response { reply: Some(reply), link: None, end: false, unknown: false }
        } else {
            Response { reply: None, link: None, end: false, unknown: true }
        }
    }
}

impl DglabTransport for WsTransport {
    type State = ClientView;

    open spec fn state(&self) -> ClientView {
        self@
    }

    open spec fn is_connected(state: ClientView) -> bool {
        state.connected
    }

    open spec fn with_strength(state: ClientView, strength: u8) -> ClientView {
        state.strengthened(strength)
    }

    open spec fn disconnected(state: ClientView) -> ClientView {
        ClientView { connected: false, ..state }
    }

    /// The connection to the relay stands.
    fn connected(&self) -> (r: bool) {
        self.connected
    }

    /// Puts a strength in line; it is dropped where the line is full.
    fn set_strength(&mut self, strength: u8) {
        if self.queue.len() < QUEUE_CAPACITY {
            self.queue.push(strength);
        }
    }

    fn disconnect(&mut self) {
        self.connected = false;
    }
}

/// How many seconds an attempt to reach a relay may take.
pub const HANDSHAKE_SECS: u64 = 5;

/// How an attempt to reach a relay went.
#[derive(Clone, Copy, Debug, PartialEq, Eq, Structural)]
pub enum Handshake {
    Done,
    Refused,
    TimedOut,
}

/// Why a relay counts as out of reach.
#[derive(Clone, Copy, Debug, PartialEq, Eq, Structural)]
pub enum ConnectError {
    Unreachable,
    TimedOut,
}

impl ConnectError {
    /// What the user is told.
    pub open spec fn words(self) -> Seq<char> {
        match self {
            ConnectError::Unreachable => "无法连接 WebSocket 服务器"@,
            ConnectError::TimedOut => "连接超时（5 秒内未完成握手）"@,
        }
    }

    /// What the user is told.
    pub fn message(self) -> (r: &'static str)
        ensures
            r@ == self.words(),
    {
        match self {
            ConnectError::Unreachable => "无法连接 WebSocket 服务器",
            ConnectError::TimedOut => "连接超时（5 秒内未完成握手）",
        }
    }
}

/// Whether a relay can be reached, going by how an attempt went.
pub fn test_ws_connection(handshake: Handshake) -> (r: Result<(), ConnectError>)
    ensures
        r == (match handshake {
            Handshake::Done => Ok(()),
            Handshake::Refused => Err(ConnectError::Unreachable),
            Handshake::TimedOut => Err(ConnectError::TimedOut),
        }),
{
    match handshake {
        Handshake::Done => Ok(()),
        Handshake::Refused => Err(ConnectError::Unreachable),
        Handshake::TimedOut => Err(ConnectError::TimedOut),
    }
}

}

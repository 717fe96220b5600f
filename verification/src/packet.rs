//! The messages of the protocol: what is read of a received one, and the ones that are sent.

use crate::json::{json_document, json_object_text, members_view, object_text, parse_json};
use crate::json::{string_member, string_members, Member, Scalar, ScalarView};
use vstd::prelude::*;

verus! {

/// What is read of a received message: the members that are strings.
pub struct Packet {
    pub kind: Option<String>,
    pub client_id: Option<String>,
    pub target_id: Option<String>,
    pub message: Option<String>,
}

/// A received message, as a mathematical value.
#[verifier::ext_equal]
pub struct PacketView {
    pub kind: Option<Seq<char>>,
    pub client_id: Option<Seq<char>>,
    pub target_id: Option<Seq<char>>,
    pub message: Option<Seq<char>>,
}

/// The view of an optional text.
pub open spec fn text_view(s: Option<String>) -> Option<Seq<char>> {
    match s {
        Some(s) => Some(s@),
        None => None,
    }
}

/// The text, or the empty text where there is none.
pub open spec fn text_or_empty(s: Option<Seq<char>>) -> Seq<char> {
    match s {
        Some(s) => s,
        None => Seq::empty(),
    }
}

impl View for Packet {
    type V = PacketView;

    open spec fn view(&self) -> PacketView {
        PacketView {
            kind: text_view(self.kind),
            client_id: text_view(self.client_id),
            target_id: text_view(self.target_id),
            message: text_view(self.message),
        }
    }
}

/// The string under `key`, if there is one.
pub open spec fn string_at(strings: Map<Seq<char>, Seq<char>>, key: Seq<char>) -> Option<
    Seq<char>,
> {
    if strings.contains_key(key) {
        Some(strings[key])
    } else {
        None
    }
}

/// The message whose string members these are.
pub open spec fn packet_of(strings: Map<Seq<char>, Seq<char>>) -> PacketView {
    PacketView {
        kind: string_at(strings, "type"@),
        client_id: string_at(strings, "clientId"@),
        target_id: string_at(strings, "targetId"@),
        message: string_at(strings, "message"@),
    }
}

/// The message that `text` holds; `None` where it is no JSON document.
pub open spec fn read_packet(text: Seq<char>) -> Option<PacketView> {
    match json_document(text) {
        Some(strings) => Some(packet_of(strings)),
        None => None,
    }
}

fn owned(s: Option<&str>) -> (r: Option<String>)
    ensures
        r is Some == s is Some,
        r matches Some(t) ==> t@ == s->0@,
{
    match s {
        Some(s) => Some(s.to_owned()),
        None => None,
    }
}

impl Packet {
    /// Reads the message that `text` holds.
    pub fn read(text: &str) -> (r: Option<Packet>)
        ensures
            r is Some == read_packet(text@) is Some,
            r matches Some(p) ==> read_packet(text@) == Some(p@),
    {
        match parse_json(text) {
            Ok(value) => {
                let p: Packet = Packet {
                    kind: owned(string_member(&value, "type")),
                    client_id: owned(string_member(&value, "clientId")),
                    target_id: owned(string_member(&value, "targetId")),
                    message: owned(string_member(&value, "message")),
                };
                Some(p)
            },
            Err(_) => None,
        }
    }
}

/// The kinds of message that name their kind by a word.
#[derive(Clone, Copy, Debug, PartialEq, Eq, Structural)]
pub enum FrameKind {
    Bind,
    Heartbeat,
    Msg,
}

/// The word for a kind of message.
pub open spec fn kind_word(kind: FrameKind) -> Seq<char> {
    match kind {
        FrameKind::Bind => "bind"@,
        FrameKind::Heartbeat => "heartbeat"@,
        FrameKind::Msg => "msg"@,
    }
}

/// The words for the kinds of message that are told apart are different words.
pub proof fn lemma_words_differ()
    ensures
        "bind"@ != "heartbeat"@,
        "bind"@ != "break"@,
        "heartbeat"@ != "break"@,
{
    reveal_strlit("bind");
    reveal_strlit("heartbeat");
    reveal_strlit("break");
    assert("bind"@.len() == 4 && "heartbeat"@.len() == 9 && "break"@.len() == 5);
}

/// A message that is sent.
pub enum Frame {
    /// A message of one of the kinds named by a word.
    Named { kind: FrameKind, client_id: String, target_id: String, message: String },
    /// Sets one channel to a strength, by way of a relay.
    SetChannel { channel: u8, strength: u8, client_id: String, target_id: String },
}

/// A message that is sent, as a mathematical value.
#[verifier::ext_equal]
pub enum FrameView {
    Named { kind: FrameKind, client_id: Seq<char>, target_id: Seq<char>, message: Seq<char> },
    SetChannel { channel: u8, strength: u8, client_id: Seq<char>, target_id: Seq<char> },
}

impl View for Frame {
    type V = FrameView;

    open spec fn view(&self) -> FrameView {
        match self {
            Frame::Named { kind, client_id, target_id, message } => FrameView::Named {
                kind: *kind,
                client_id: client_id@,
                target_id: target_id@,
                message: message@,
            },
            Frame::SetChannel { channel, strength, client_id, target_id } => FrameView::SetChannel {
                channel: *channel,
                strength: *strength,
                client_id: client_id@,
                target_id: target_id@,
            },
        }
    }
}

/// The view of an optional message.
pub open spec fn frame_view(f: Option<Frame>) -> Option<FrameView> {
    match f {
        Some(f) => Some(f@),
        None => None,
    }
}

/// The views of a list of messages.
pub open spec fn frames_view(frames: Seq<Frame>) -> Seq<FrameView> {
    frames.map_values(|f: Frame| f@)
}

impl FrameView {
    /// The members of the JSON object that stands for the message.
    pub open spec fn members(self) -> Seq<(Seq<char>, ScalarView)> {
        match self {
            FrameView::Named { kind, client_id, target_id, message } => seq![
                ("type"@, ScalarView::Text(kind_word(kind))),
                ("clientId"@, ScalarView::Text(client_id)),
                ("targetId"@, ScalarView::Text(target_id)),
                ("message"@, ScalarView::Text(message)),
            ],
            FrameView::SetChannel { channel, strength, client_id, target_id } => seq![
                ("type"@, ScalarView::Int(3)),
                ("channel"@, ScalarView::Int(channel as int)),
                ("strength"@, ScalarView::Int(strength as int)),
                ("clientId"@, ScalarView::Text(client_id)),
                ("targetId"@, ScalarView::Text(target_id)),
                ("message"@, ScalarView::Text("set channel"@)),
            ],
        }
    }

    /// The text that is sent for the message.
    pub open spec fn text(self) -> Seq<char> {
        json_object_text(self.members())
    }

    /// The message as its receiver reads it.
    pub open spec fn as_packet(self) -> PacketView {
        match self {
            FrameView::Named { kind, client_id, target_id, message } => PacketView {
                kind: Some(kind_word(kind)),
                client_id: Some(client_id),
                target_id: Some(target_id),
                message: Some(message),
            },
            FrameView::SetChannel { channel, strength, client_id, target_id } => PacketView {
                kind: None,
                client_id: Some(client_id),
                target_id: Some(target_id),
                message: Some("set channel"@),
            },
        }
    }

    /// The members of a message are read back as the message.
    pub proof fn lemma_members(self)
        ensures
            packet_of(string_members(self.members())) == self.as_packet(),
    {
        reveal_strlit("type");
        reveal_strlit("clientId");
        reveal_strlit("targetId");
        reveal_strlit("message");
        reveal_strlit("channel");
        reveal_strlit("strength");
        assert("clientId"@[0] != "targetId"@[0]);
        assert("type"@.len() == 4 && "clientId"@.len() == 8 && "targetId"@.len() == 8
            && "message"@.len() == 7 && "channel"@.len() == 7 && "strength"@.len() == 8);
        assert("message"@[0] != "channel"@[0]);
        assert("strength"@[0] != "clientId"@[0]);
        assert("strength"@[0] != "targetId"@[0]);
        let m = self.members();
        reveal_with_fuel(string_members, 7);
        match self {
            FrameView::Named { .. } => {
                assert(m.drop_last().drop_last().drop_last().drop_last().len() == 0);
            },
            FrameView::SetChannel { .. } => {
                let m4 = m.drop_last().drop_last().drop_last().drop_last();
                assert(m4.drop_last().drop_last().len() == 0);
            },
        }
        assert(packet_of(string_members(m)) =~= self.as_packet());
    }
}

fn text_member(key: &str, value: &str) -> (m: Member)
    ensures
        m@ == (key@, ScalarView::Text(value@)),
{
    Member { key: key.to_owned(), value: Scalar::Text(value.to_owned()) }
}

fn int_member(key: &str, value: u8) -> (m: Member)
    ensures
        m@ == (key@, ScalarView::Int(value as int)),
{
    Member { key: key.to_owned(), value: Scalar::Int(value as i64) }
}

impl FrameKind {
    /// The word for the kind.
    pub fn word(self) -> (r: &'static str)
        ensures
            r@ == kind_word(self),
    {
        match self {
            FrameKind::Bind => "bind",
            FrameKind::Heartbeat => "heartbeat",
            FrameKind::Msg => "msg",
        }
    }
}

impl Frame {
    /// The members of the JSON object that stands for the message.
    fn members(&self) -> (r: Vec<Member>)
        ensures
            members_view(r@) == self@.members(),
    {
        let mut r: Vec<Member> = Vec::new();
        match self {
            Frame::Named { kind, client_id, target_id, message } => {
                r.push(text_member("type", kind.word()));
                r.push(text_member("clientId", client_id.as_str()));
                r.push(text_member("targetId", target_id.as_str()));
                r.push(text_member("message", message.as_str()));
            },
            Frame::SetChannel { channel, strength, client_id, target_id } => {
                r.push(int_member("type", 3));
                r.push(int_member("channel", *channel));
                r.push(int_member("strength", *strength));
                r.push(text_member("clientId", client_id.as_str()));
                r.push(text_member("targetId", target_id.as_str()));
                r.push(text_member("message", "set channel"));
            },
        }
        assert(members_view(r@) =~= self@.members());
        r
    }

    /// The text that is sent for the message. Its receiver reads the message back from it.
    pub fn to_text(&self) -> (text: String)
        ensures
            text@ == self@.text(),
            read_packet(text@) == Some(self@.as_packet()),
    {
        proof {
            self@.lemma_members();
        }
        object_text(&self.members())
    }
}

/// The receiver of each of these messages reads it back from its text.
pub open spec fn read_back(frames: Seq<FrameView>) -> bool {
    forall|i: int|
        0 <= i < frames.len() ==> read_packet((#[trigger] frames[i]).text()) == Some(
            frames[i].as_packet(),
        )
}

/// The texts of the messages, in order.
pub fn texts_of(frames: &Vec<Frame>) -> (texts: Vec<String>)
    ensures
        texts@.map_values(|s: String| s@) == frames_view(frames@).map_values(
            |f: FrameView| f.text(),
        ),
        read_back(frames_view(frames@)),
{
    let mut texts: Vec<String> = Vec::new();
    let mut i: usize = 0;
    while i < frames.len()
        invariant
            i <= frames@.len(),
            texts@.len() == i,
            forall|j: int| 0 <= j < i ==> (#[trigger] texts@[j])@ == frames@[j]@.text(),
            forall|j: int|
                0 <= j < i ==> read_packet((#[trigger] frames@[j])@.text()) == Some(
                    frames@[j]@.as_packet(),
                ),
        decreases frames.len() - i,
    {
        texts.push(frames[i].to_text());
        i = i + 1;
    }
    assert(texts@.map_values(|s: String| s@) =~= frames_view(frames@).map_values(
        |f: FrameView| f.text(),
    ));
    texts
}

}

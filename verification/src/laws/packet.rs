//! What holds of the messages: what is read of a text, and which text is sent.

use crate::json::{json_document, json_object_text, ScalarView};
use crate::packet::{read_packet, text_or_empty, text_view};
use crate::packet::{Frame, FrameKind, FrameView, Packet, PacketView};
use vstd::prelude::*;

verus! {

/// Of a JSON document the strings under `type`, `clientId`, `targetId` and `message` are read, each
/// where it is there.
pub proof fn law_four_strings_are_read(text: Seq<char>, m: Map<Seq<char>, Seq<char>>)
    requires
        json_document(text) == Some(m),
    ensures
        read_packet(text) is Some,
        ({
            let p = read_packet(text)->0;
            &&& m.contains_key("type"@) ==> p.kind == Some(m["type"@])
            &&& !m.contains_key("type"@) ==> p.kind is None
            &&& m.contains_key("clientId"@) ==> p.client_id == Some(m["clientId"@])
            &&& !m.contains_key("clientId"@) ==> p.client_id is None
            &&& m.contains_key("targetId"@) ==> p.target_id == Some(m["targetId"@])
            &&& !m.contains_key("targetId"@) ==> p.target_id is None
            &&& m.contains_key("message"@) ==> p.message == Some(m["message"@])
            &&& !m.contains_key("message"@) ==> p.message is None
        }),
{
}

/// Nothing is read of a text that is no JSON document.
pub proof fn law_other_texts_hold_no_message(text: Seq<char>)
    requires
        json_document(text) is None,
    ensures
        read_packet(text) is None,
{
}

/// A missing string counts as empty, and any other as itself.
pub proof fn law_missing_string_is_empty(s: Seq<char>)
    ensures
        text_or_empty(Some(s)) == s,
        text_or_empty(None).len() == 0,
{
}

/// A message in hand is known by the strings it holds.
pub proof fn law_message_is_its_strings(p: Packet)
    ensures
        p@.kind == (match p.kind {
            Some(s) => Some(s@),
            None => None,
        }),
        p@.client_id == (match p.client_id {
            Some(s) => Some(s@),
            None => None,
        }),
        p@.target_id == (match p.target_id {
            Some(s) => Some(s@),
            None => None,
        }),
        p@.message == (match p.message {
            Some(s) => Some(s@),
            None => None,
        }),
{
}

/// An optional text is known by what it holds.
pub proof fn law_text_is_its_characters(s: String)
    ensures
        text_view(Some(s)) == Some(s@),
        text_view(None) is None,
{
}

/// The text for a message with a word for its kind is that of the JSON object with the four strings
/// and nothing else: the word, the two ids and the message.
pub proof fn law_named_message_is_sent_whole(
    kind: FrameKind,
    client_id: Seq<char>,
    target_id: Seq<char>,
    message: Seq<char>,
)
    ensures
        ({
            let f = FrameView::Named { kind, client_id, target_id, message };
            let word = match kind {
                FrameKind::Bind => "bind"@,
                FrameKind::Heartbeat => "heartbeat"@,
                FrameKind::Msg => "msg"@,
            };
            &&& f.text() == json_object_text(
                seq![
                    ("type"@, ScalarView::Text(word)),
                    ("clientId"@, ScalarView::Text(client_id)),
                    ("targetId"@, ScalarView::Text(target_id)),
                    ("message"@, ScalarView::Text(message)),
                ],
            )
            &&& f.as_packet() == (PacketView {
                kind: Some(word),
                client_id: Some(client_id),
                target_id: Some(target_id),
                message: Some(message),
            })
        }),
{
}

/// The text for a message that sets a channel over a relay is that of the JSON object whose type is
/// the number 3, whose channel and strength are the numbers of the message, whatever they are, and
/// which names the two ids.
pub proof fn law_channel_message_is_sent_whole(
    channel: u8,
    strength: u8,
    client_id: Seq<char>,
    target_id: Seq<char>,
)
    ensures
        ({
            let f = FrameView::SetChannel { channel, strength, client_id, target_id };
            &&& f.text() == json_object_text(
                seq![
                    ("type"@, ScalarView::Int(3)),
                    ("channel"@, ScalarView::Int(channel as int)),
                    ("strength"@, ScalarView::Int(strength as int)),
                    ("clientId"@, ScalarView::Text(client_id)),
                    ("targetId"@, ScalarView::Text(target_id)),
                    ("message"@, ScalarView::Text("set channel"@)),
                ],
            )
            &&& f.as_packet() == (PacketView {
                kind: None,
                client_id: Some(client_id),
                target_id: Some(target_id),
                message: Some("set channel"@),
            })
        }),
{
}

/// The whole number that an object with these members has under `key`; the last member with the key
/// counts.
pub open spec fn whole_number_at(members: Seq<(Seq<char>, ScalarView)>, key: Seq<char>) -> Option<
    int,
>
    decreases members.len(),
{
    if members.len() == 0 {
        None
    } else if members.last().0 == key {
        match members.last().1 {
            ScalarView::Int(n) => Some(n),
            ScalarView::Text(_) => None,
        }
    } else {
        whole_number_at(members.drop_last(), key)
    }
}

/// Type, channel and strength are read back from the members of a message that sets a channel as
/// the numbers that went in.
pub proof fn law_channel_message_reads_back(
    channel: u8,
    strength: u8,
    client_id: Seq<char>,
    target_id: Seq<char>,
)
    ensures
        ({
            let f = FrameView::SetChannel { channel, strength, client_id, target_id };
            &&& whole_number_at(f.members(), "type"@) == Some(3int)
            &&& whole_number_at(f.members(), "channel"@) == Some(channel as int)
            &&& whole_number_at(f.members(), "strength"@) == Some(strength as int)
            &&& f.text() == json_object_text(f.members())
        }),
{
    reveal_strlit("type");
    reveal_strlit("clientId");
    reveal_strlit("targetId");
    reveal_strlit("message");
    reveal_strlit("channel");
    reveal_strlit("strength");
    assert("type"@.len() == 4 && "clientId"@.len() == 8 && "targetId"@.len() == 8
        && "message"@.len() == 7 && "channel"@.len() == 7 && "strength"@.len() == 8);
    assert("message"@[0] != "channel"@[0]);
    assert("strength"@[0] != "clientId"@[0]);
    assert("strength"@[0] != "targetId"@[0]);
    reveal_with_fuel(whole_number_at, 7);
}

/// A message that is sent is known by what it holds.
pub proof fn law_frame_is_its_parts(f: Frame)
    ensures
        match f {
            Frame::Named { kind, client_id, target_id, message } => f@ == (FrameView::Named {
                kind,
                client_id: client_id@,
                target_id: target_id@,
                message: message@,
            }),
            Frame::SetChannel { channel, strength, client_id, target_id } => f@ == (
            FrameView::SetChannel {
                channel,
                strength,
                client_id: client_id@,
                target_id: target_id@,
            }),
        },
{
}

}

use dglab::client::{
    test_ws_connection, ConnectError, Handshake, SessionAction, SessionEnd, SessionEvent, WsTransport,
};
use dglab::packet::Packet;
use dglab::transport::DglabTransport;
use serde_json::Value;

fn text(c: &mut WsTransport, text: &str) -> SessionAction {
    c.session_step(&SessionEvent::Text(text.to_owned()))
}

fn value(text: &str) -> Value {
    serde_json::from_str(text).unwrap()
}

fn sent(action: SessionAction) -> Vec<Value> {
    match action {
        SessionAction::Send(texts) => texts.iter().map(|t| value(t)).collect(),
        _ => panic!("messages are due"),
    }
}

#[test]
fn new_client_is_not_connected() {
    let c = WsTransport::connect(" host:1 ");
    assert_eq!(c.url(), "ws://host:1");
    assert_eq!(c.shared.url, "ws://host:1");
    assert_eq!(c.shared.client_id, "");
    assert!(!c.shared.paired && !c.connected() && !c.has_command());
}

#[test]
fn session_begins_with_bind() {
    let mut c = WsTransport::connect("host");
    let v = value(&c.begin_session().to_text());
    assert_eq!(v["type"], "bind");
    assert_eq!(v["clientId"], "pending");
    assert_eq!(v["targetId"], "");
    assert_eq!(v["message"], "bind");
    assert!(c.connected());
}

#[test]
fn ended_session_is_tried_again() {
    let mut c = WsTransport::connect("host");
    c.begin_session();
    assert_eq!(c.end_session(), 3);
    assert!(!c.connected());
}

#[test]
fn first_id_is_announced_and_stays() {
    let mut c = WsTransport::connect("host:1");
    c.begin_session();
    match text(&mut c, r#"{"type":"bind","clientId":"a","targetId":"","message":"targetId"}"#) {
        SessionAction::Announce(link) => assert_eq!(
            link,
            "https://www.dungeon-lab.com/app-download.php#DGLAB-SOCKET#ws://host:1/a"
        ),
        _ => panic!("an announcement is due"),
    }
    assert_eq!(c.shared.client_id, "a");
    assert!(matches!(text(&mut c, r#"{"type":"bind","clientId":"b"}"#), SessionAction::Nothing));
    assert_eq!(c.shared.client_id, "a");
    c.end_session();
    c.begin_session();
    assert_eq!(c.shared.client_id, "a");
    assert!(matches!(text(&mut c, r#"{"type":"bind","clientId":"b"}"#), SessionAction::Announce(_)));
    assert_eq!(c.shared().client_id, "b");
    assert!(matches!(text(&mut c, r#"{"type":"bind","clientId":"a"}"#), SessionAction::Nothing));
    assert_eq!(c.shared.client_id, "b");
}

#[test]
fn bind_200_pairs() {
    let mut c = WsTransport::connect("host");
    c.begin_session();
    text(&mut c, r#"{"type":"bind","clientId":"a","targetId":"t","message":"400"}"#);
    assert!(!c.shared.paired);
    text(&mut c, r#"{"type":"bind","clientId":"a","targetId":"","message":"200"}"#);
    assert!(c.shared.paired);
    assert_eq!(c.client_id(), "a");
    assert_eq!(c.target_id(), "t");
    let v = sent(text(&mut c, r#"{"type":"heartbeat"}"#));
    assert_eq!(v.len(), 1);
    assert_eq!(v[0]["type"], "heartbeat");
    assert_eq!(v[0]["clientId"], "a");
    assert_eq!(v[0]["targetId"], "t");
    assert_eq!(v[0]["message"], "200");
}

#[test]
fn break_ends_the_session() {
    let mut c = WsTransport::connect("host");
    c.begin_session();
    text(&mut c, r#"{"type":"bind","message":"200"}"#);
    assert!(c.shared.paired);
    assert!(matches!(text(&mut c, r#"{"type":"break"}"#), SessionAction::End(SessionEnd::Unpaired)));
    assert!(!c.shared.paired);
}

#[test]
fn strength_is_sent_for_both_channels() {
    let mut c = WsTransport::connect("host");
    c.begin_session();
    text(&mut c, r#"{"type":"bind","clientId":"a","targetId":"t","message":"200"}"#);
    c.set_strength(35);
    c.set_strength(7);
    let v = sent(c.session_step(&SessionEvent::Command));
    assert_eq!(v.len(), 2);
    for (i, m) in v.iter().enumerate() {
        assert_eq!(m["type"], 3);
        assert_eq!(m["channel"], i as i64 + 1);
        assert_eq!(m["strength"], 35);
        assert_eq!(m["clientId"], "a");
        assert_eq!(m["targetId"], "t");
        assert_eq!(m["message"], "set channel");
    }
    assert_eq!(sent(c.session_step(&SessionEvent::Command))[0]["strength"], 7);
    assert!(matches!(c.session_step(&SessionEvent::Command), SessionAction::Nothing));
}

#[test]
fn full_line_drops_strengths() {
    let mut c = WsTransport::connect("host");
    for strength in 0..70u8 {
        c.set_strength(strength);
    }
    let mut n = 0u8;
    while c.has_command() {
        assert_eq!(sent(c.session_step(&SessionEvent::Command))[0]["strength"], n);
        n += 1;
    }
    assert_eq!(n, 64);
}

#[test]
fn other_session_events() {
    let mut c = WsTransport::connect("host");
    c.begin_session();
    for t in ["no json", "{}", r#"{"type":3}"#, r#"{"type":"msg"}"#] {
        assert!(matches!(text(&mut c, t), SessionAction::Unknown));
    }
    let mut step = |event| match c.session_step(&event) {
        SessionAction::End(end) => Some(end),
        _ => None,
    };
    assert_eq!(step(SessionEvent::Other), None);
    assert_eq!(step(SessionEvent::QueueClosed), Some(SessionEnd::Finished));
    assert_eq!(step(SessionEvent::Unreachable), Some(SessionEnd::Unreachable));
    assert_eq!(step(SessionEvent::SendFailed), Some(SessionEnd::SendFailed));
    assert_eq!(step(SessionEvent::ReceiveFailed), Some(SessionEnd::ReceiveFailed));
    assert_eq!(step(SessionEvent::Closed), Some(SessionEnd::Closed));
}

#[test]
fn ends_have_messages() {
    assert_eq!(SessionEnd::Unreachable.message(), Some("dglab ws connect failed"));
    assert_eq!(SessionEnd::Unpaired.message(), Some("dglab: opposite side disconnected"));
    assert_eq!(SessionEnd::Closed.message(), Some("dglab ws closed"));
    for end in [SessionEnd::Finished, SessionEnd::SendFailed, SessionEnd::ReceiveFailed] {
        assert_eq!(end.message(), None);
    }
}

#[test]
fn empty_id_is_announced_again() {
    let mut c = WsTransport::connect("host");
    let p = Packet {
        kind: Some("bind".to_owned()),
        client_id: Some(String::new()),
        target_id: None,
        message: None,
    };
    for _ in 0..2 {
        let r = c.on_packet(&p);
        assert!(r.reply.is_none() && !r.end);
        assert_eq!(
            r.link.as_deref(),
            Some("https://www.dungeon-lab.com/app-download.php#DGLAB-SOCKET#ws://host/")
        );
    }
}

#[test]
fn disconnect_only_drops_the_flag() {
    let mut c = WsTransport::connect("host");
    c.begin_session();
    c.set_strength(1);
    c.disconnect();
    assert!(!c.connected() && c.has_command());
}

#[test]
fn attempts_to_connect() {
    assert_eq!(test_ws_connection(Handshake::Done), Ok(()));
    assert_eq!(test_ws_connection(Handshake::Refused), Err(ConnectError::Unreachable));
    assert_eq!(test_ws_connection(Handshake::TimedOut), Err(ConnectError::TimedOut));
    assert_eq!(ConnectError::Unreachable.message(), "无法连接 WebSocket 服务器");
    assert_eq!(ConnectError::TimedOut.message(), "连接超时（5 秒内未完成握手）");
}

#[test]
fn answer_of_the_server_pairs_the_client() {
    let mut s = dglab::server::DglabServer::bind("0.0.0.0", "h", 1, "term".to_owned()).0;
    s.open_conn("c0");
    let p = Packet {
        kind: Some("bind".to_owned()),
        client_id: Some("term".to_owned()),
        target_id: None,
        message: None,
    };
    let reply = s.on_message("c0", &p, &mut None).reply.unwrap().to_text();
    let mut c = WsTransport::connect("host");
    c.begin_session();
    text(&mut c, &reply);
    assert!(c.shared.paired);
    assert_eq!(c.shared.client_id, "term");
}

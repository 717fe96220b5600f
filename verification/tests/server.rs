use dglab::packet::{Frame, Packet};
use dglab::server::{
    current_server, set_server, AcceptAction, AcceptEvent, ConnAction, ConnEvent, DglabServer,
};
use dglab::transport::DglabTransport;
use serde_json::Value;

fn server() -> DglabServer {
    DglabServer::bind("0.0.0.0", "192.168.1.5", 9999, "term".to_owned()).0
}

fn packet(kind: &str, client_id: &str, target_id: &str) -> Packet {
    Packet {
        kind: Some(kind.to_owned()),
        client_id: Some(client_id.to_owned()),
        target_id: Some(target_id.to_owned()),
        message: Some("DGLAB".to_owned()),
    }
}

fn fields(text: &str) -> [String; 4] {
    let v: Value = serde_json::from_str(text).unwrap();
    assert_eq!(v.as_object().unwrap().len(), 4);
    ["type", "clientId", "targetId", "message"].map(|k| v[k].as_str().unwrap().to_owned())
}

fn strings(parts: [&str; 4]) -> [String; 4] {
    parts.map(|s| s.to_owned())
}

fn step(s: &mut DglabServer, conn: &str, event: ConnEvent) -> ConnAction {
    s.conn_step(conn, &event, &mut None)
}

fn relayed(s: &mut DglabServer, conn: &str) -> Vec<[String; 4]> {
    match step(s, conn, ConnEvent::Queued) {
        ConnAction::Relay(texts) => texts.iter().map(|t| fields(t)).collect(),
        _ => panic!("messages wait"),
    }
}

#[test]
fn bind_fixes_the_addresses() {
    let (s, addr) = DglabServer::bind("0.0.0.0", "192.168.1.5", 80, "term".to_owned());
    assert_eq!(addr, "0.0.0.0:80");
    assert_eq!(s.url, "ws://192.168.1.5:80");
    assert_eq!(s.url(), s.url);
    assert_eq!(s.shared().url, s.url);
    assert_eq!(s.shared.url, s.url);
    assert_eq!(s.shared.client_id, "term");
    assert!(!s.shared.paired);
    assert!(!s.connected());
    assert!(!s.is_running());
    assert!(!s.is_stopping());
}

#[test]
fn accepting() {
    let mut s = server();
    s.start_accepting();
    assert!(s.is_running());
    assert_eq!(s.accept_step(AcceptEvent::Accepted), AcceptAction::Serve);
    assert_eq!(s.accept_step(AcceptEvent::Failed), AcceptAction::Wait(50));
    assert!(s.is_running());
    assert_eq!(s.accept_step(AcceptEvent::Shutdown), AcceptAction::Stop);
    assert!(!s.is_running());
}

#[test]
fn shutdown_twice_is_once() {
    let mut s = server();
    s.start_accepting();
    s.shutdown();
    assert!(!s.is_running() && s.is_stopping());
    s.shutdown();
    assert!(!s.is_running() && s.is_stopping());
}

#[test]
fn replaced_server_is_stopped() {
    let mut slot = None;
    assert!(current_server(&slot).is_none());
    let mut first = server();
    first.start_accepting();
    assert!(set_server(&mut slot, Some(first)).is_none());
    assert!(current_server(&slot).unwrap().is_running());
    let previous = set_server(&mut slot, None).unwrap();
    assert!(!previous.is_running() && previous.is_stopping());
    assert!(current_server(&slot).is_none());
    assert!(set_server(&mut slot, None).is_none());
}

#[test]
fn ids_are_numbered() {
    let mut counter = 9u64;
    assert_eq!(DglabServer::alloc_id(&mut counter), "c9");
    assert_eq!(DglabServer::alloc_id(&mut counter), "c10");
    assert_eq!(counter, 11);
    counter = u64::MAX;
    assert_eq!(DglabServer::alloc_id(&mut counter), "c18446744073709551615");
    assert_eq!(counter, 0);
}

#[test]
fn greeting_tells_the_id() {
    let mut s = server();
    let greeting = s.open_conn("c0");
    assert_eq!(fields(&greeting.to_text()), strings(["bind", "c0", "", "targetId"]));
}

#[test]
fn text_of_a_frame() {
    let frame = Frame::SetChannel {
        channel: 2,
        strength: 35,
        client_id: "a\"b\n".to_owned(),
        target_id: "码".to_owned(),
    };
    let v: Value = serde_json::from_str(&frame.to_text()).unwrap();
    assert_eq!(v["type"].as_i64(), Some(3));
    assert_eq!(v["channel"].as_i64(), Some(2));
    assert_eq!(v["strength"].as_i64(), Some(35));
    assert_eq!(v["clientId"].as_str(), Some("a\"b\n"));
    assert_eq!(v["targetId"].as_str(), Some("码"));
    assert_eq!(v["message"].as_str(), Some("set channel"));
    let p = Packet::read(&frame.to_text()).unwrap();
    assert!(p.kind.is_none());
    assert_eq!(p.client_id.as_deref(), Some("a\"b\n"));
}

#[test]
fn packets_are_read() {
    let p = Packet::read(r#"{"type":"bind","clientId":7,"message":"x","type":"msg"}"#).unwrap();
    assert_eq!(p.kind.as_deref(), Some("msg"));
    assert_eq!(p.client_id, None);
    assert_eq!(p.target_id, None);
    assert_eq!(p.message.as_deref(), Some("x"));
    assert!(Packet::read("{").is_none());
    assert!(Packet::read("[1]").unwrap().kind.is_none());
    assert!(Packet::read("").is_none());
}

#[test]
fn naming_the_terminal_pairs() {
    let mut s = server();
    s.open_conn("c0");
    let mut paired = None;
    let outcome = s.on_message("c0", &packet("bind", "term", ""), &mut paired);
    assert!(!outcome.close);
    assert_eq!(fields(&outcome.reply.unwrap().to_text()), strings(["bind", "term", "c0", "200"]));
    assert_eq!(paired.as_deref(), Some("c0"));
    assert!(s.connected() && s.shared.paired);
}

#[test]
fn naming_an_app_pairs() {
    let mut s = server();
    s.open_conn("c0");
    let text = r#"{"type":"bind","clientId":"other","targetId":"app","message":"DGLAB"}"#;
    match step(&mut s, "c0", ConnEvent::Text(text.to_owned())) {
        ConnAction::Reply(reply) => assert_eq!(fields(&reply), strings(["bind", "term", "app", "200"])),
        _ => panic!("an answer is due"),
    }
    assert!(s.connected() && s.shared.paired);
}

#[test]
fn bind_that_names_nobody_is_passed_over() {
    let mut s = server();
    s.open_conn("c0");
    let mut paired = Some("before".to_owned());
    let outcome = s.on_message("c0", &packet("bind", "other", ""), &mut paired);
    assert!(outcome.reply.is_none() && !outcome.close);
    assert_eq!(paired.as_deref(), Some("before"));
    assert!(!s.connected() && !s.shared.paired);
}

#[test]
fn heartbeat_is_answered() {
    let mut s = server();
    s.open_conn("c0");
    let text = r#"{"type":"heartbeat"}"#;
    match step(&mut s, "c0", ConnEvent::Text(text.to_owned())) {
        ConnAction::Reply(reply) => assert_eq!(fields(&reply), strings(["heartbeat", "term", "", "200"])),
        _ => panic!("an answer is due"),
    }
}

#[test]
fn break_closes() {
    let mut s = server();
    s.open_conn("c0");
    s.on_message("c0", &packet("bind", "term", ""), &mut None);
    let outcome = s.on_message("c0", &packet("break", "", ""), &mut None);
    assert!(outcome.close && outcome.reply.is_none());
    assert!(!s.shared.paired);
    assert!(s.connected());
    s.cleanup("c0");
    assert!(!s.connected());
}

#[test]
fn connection_that_ends_is_forgotten() {
    let text = ConnEvent::Text(r#"{"type":"break","message":"209"}"#.to_owned());
    for event in [text, ConnEvent::Closed, ConnEvent::Failed, ConnEvent::SendFailed, ConnEvent::QueueClosed] {
        let mut s = server();
        s.open_conn("c0");
        s.open_conn("c1");
        s.on_message("c0", &packet("bind", "term", ""), &mut None);
        assert!(matches!(step(&mut s, "c0", event), ConnAction::Close));
        assert!(!s.connected() && !s.shared.paired);
        s.on_message("c1", &packet("bind", "term", "c0"), &mut None);
        s.set_strength(1);
        assert!(relayed(&mut s, "c0").is_empty());
        assert_eq!(
            relayed(&mut s, "c1"),
            vec![
                strings(["msg", "term", "c0", "strength-1+2+1"]),
                strings(["msg", "term", "c0", "strength-2+2+1"]),
            ]
        );
    }
}

#[test]
fn other_events() {
    let mut s = server();
    s.open_conn("c0");
    for text in ["no json", r#"{"type":"msg"}"#, r#"{"type":"error"}"#, r#"{"type":"bind"}"#] {
        assert!(matches!(step(&mut s, "c0", ConnEvent::Text(text.to_owned())), ConnAction::Nothing));
    }
    for text in [r#"{"type":1}"#, "{}", r#"{"type":"other"}"#] {
        assert!(matches!(step(&mut s, "c0", ConnEvent::Text(text.to_owned())), ConnAction::Unknown));
    }
    assert!(matches!(step(&mut s, "c0", ConnEvent::Other), ConnAction::Nothing));
}

#[test]
fn strength_reaches_both_channels() {
    let mut s = server();
    s.open_conn("c0");
    s.open_conn("c1");
    s.set_strength(1);
    s.on_message("c0", &packet("bind", "term", ""), &mut None);
    s.set_strength(35);
    s.set_strength(0);
    assert_eq!(
        relayed(&mut s, "c0"),
        vec![
            strings(["msg", "term", "c0", "strength-1+2+35"]),
            strings(["msg", "term", "c0", "strength-2+2+35"]),
            strings(["msg", "term", "c0", "strength-1+2+0"]),
            strings(["msg", "term", "c0", "strength-2+2+0"]),
        ]
    );
    assert!(relayed(&mut s, "c0").is_empty());
    assert!(relayed(&mut s, "c1").is_empty());
}

#[test]
fn strength_reaches_an_app_under_its_own_id() {
    let mut s = server();
    s.open_conn("c0");
    s.on_message("c0", &packet("bind", "term", "app"), &mut None);
    assert!(s.connected());
    s.set_strength(35);
    assert_eq!(
        relayed(&mut s, "c0"),
        vec![
            strings(["msg", "term", "app", "strength-1+2+35"]),
            strings(["msg", "term", "app", "strength-2+2+35"]),
        ]
    );
}

#[test]
fn second_app_is_refused() {
    let mut s = server();
    s.open_conn("c0");
    s.open_conn("c1");
    s.on_message("c0", &packet("bind", "term", "T1"), &mut None);
    let mut paired = None;
    let outcome = s.on_message("c1", &packet("bind", "term", "T2"), &mut paired);
    assert!(!outcome.close && paired.is_none());
    assert_eq!(fields(&outcome.reply.unwrap().to_text()), strings(["bind", "term", "T2", "400"]));
    assert!(s.connected() && s.shared.paired);
    s.set_strength(35);
    assert_eq!(relayed(&mut s, "c0")[0], strings(["msg", "term", "T1", "strength-1+2+35"]));
    assert!(relayed(&mut s, "c1").is_empty());
    let again = s.on_message("c0", &packet("bind", "term", "T3"), &mut paired);
    assert_eq!(fields(&again.reply.unwrap().to_text()), strings(["bind", "term", "T3", "200"]));
    assert_eq!(paired.as_deref(), Some("T3"));
    s.cleanup("c0");
    let outcome = s.on_message("c1", &packet("bind", "term", "T2"), &mut None);
    assert_eq!(fields(&outcome.reply.unwrap().to_text()), strings(["bind", "term", "T2", "200"]));
}

#[test]
fn stopped_server_is_not_connected() {
    let mut s = server();
    s.start_accepting();
    s.open_conn("c0");
    s.on_message("c0", &packet("bind", "term", ""), &mut None);
    assert!(s.connected());
    s.shutdown();
    assert!(!s.connected());
}

#[test]
fn pairing_ends_with_the_connection_of_the_app() {
    let mut s = server();
    for conn in ["c0", "c1", "c2"] {
        s.open_conn(conn);
    }
    s.on_message("c0", &packet("bind", "term", ""), &mut None);
    s.disconnect();
    s.on_message("c1", &packet("bind", "term", ""), &mut None);
    s.cleanup("c2");
    assert!(s.connected() && s.shared.paired);
    s.cleanup("c1");
    assert!(!s.connected() && !s.shared.paired);
    s.set_strength(5);
    assert!(relayed(&mut s, "c0").is_empty());
    s.cleanup("c0");
    assert!(!s.connected());
}

#[test]
fn disconnect_ends_the_pairing() {
    let mut s = server();
    s.open_conn("c0");
    s.on_message("c0", &packet("bind", "term", ""), &mut None);
    s.disconnect();
    assert!(!s.connected() && !s.shared.paired);
    s.set_strength(35);
    assert!(relayed(&mut s, "c0").is_empty());
}

#[test]
fn connection_under_a_used_id_takes_its_place() {
    let mut s = server();
    s.open_conn("c0");
    s.on_message("c0", &packet("bind", "term", ""), &mut None);
    s.set_strength(1);
    s.open_conn("c0");
    assert!(relayed(&mut s, "c0").is_empty());
    s.cleanup("c1");
    assert!(!s.connected());
}

#[test]
fn events_touch_one_connection_and_keep_the_identity() {
    let mut s = server();
    s.open_conn("c0");
    s.open_conn("c1");
    s.on_message("c1", &packet("bind", "term", ""), &mut None);
    s.set_strength(9);
    step(&mut s, "c0", ConnEvent::Text(r#"{"type":"heartbeat"}"#.to_owned()));
    step(&mut s, "c0", ConnEvent::Closed);
    assert_eq!(relayed(&mut s, "c1").len(), 2);
    assert!(s.connected());
    assert_eq!(s.url, "ws://192.168.1.5:9999");
    assert_eq!(s.shared.url, "ws://192.168.1.5:9999");
    assert_eq!(s.shared.client_id, "term");
}

#[test]
fn values_for_a_paired_app_are_filled() {
    let mut s = server();
    s.open_conn("c0");
    let reply = s.on_message("c0", &packet("bind", "term", ""), &mut None).reply.unwrap();
    assert!(fields(&reply.to_text()).iter().all(|v| !v.is_empty()));
    let reply = s.on_message("c0", &packet("heartbeat", "", ""), &mut None).reply.unwrap();
    assert_eq!(fields(&reply.to_text()), strings(["heartbeat", "term", "c0", "200"]));
    s.set_strength(9);
    for message in relayed(&mut s, "c0") {
        assert!(message.iter().all(|v| !v.is_empty()));
    }
}

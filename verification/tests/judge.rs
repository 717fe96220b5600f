use dglab::client::{SessionAction, SessionEvent, WsTransport};
use dglab::judge::{
    build_dglab_update_fn, pulse, pump_judgements, read_configured_strength, Config, DglabKind,
    Judge, JudgeEvent, Judgement,
};
use dglab::packet::Packet;
use dglab::server::{ConnAction, ConnEvent, DglabServer};
use dglab::transport::{DglabTransport, Transport};

fn config(perfect: &str, good: &str, badmiss: &str) -> Config {
    Config {
        dglab_enabled: true,
        dglab_ws_url: "host:1".to_owned(),
        dglab_perfect_power: perfect.to_owned(),
        dglab_good_power: good.to_owned(),
        dglab_badmiss_power: badmiss.to_owned(),
    }
}

fn judge(results: &[Result<Judgement, bool>]) -> Judge {
    Judge {
        judgements: results.iter().map(|r| JudgeEvent { line_id: 1, note_id: 2, result: *r }).collect(),
    }
}

fn paired_server() -> DglabServer {
    let mut s = DglabServer::bind("0.0.0.0", "h", 1, "term".to_owned()).0;
    s.open_conn("c0");
    let p = Packet {
        kind: Some("bind".to_owned()),
        client_id: Some("term".to_owned()),
        target_id: None,
        message: None,
    };
    s.on_message("c0", &p, &mut None);
    s
}

fn messages(s: &mut DglabServer) -> Vec<String> {
    match s.conn_step("c0", &ConnEvent::Queued, &mut None) {
        ConnAction::Relay(texts) => {
            texts.iter().map(|t| Packet::read(t).unwrap().message.unwrap()).collect()
        }
        _ => panic!("messages wait"),
    }
}

#[test]
fn judgements_have_kinds() {
    assert_eq!(DglabKind::from_judgement(Judgement::Perfect), DglabKind::Perfect);
    assert_eq!(DglabKind::from_judgement(Judgement::Good), DglabKind::Good);
    assert_eq!(DglabKind::from_judgement(Judgement::Bad), DglabKind::BadMiss);
    assert_eq!(DglabKind::from_judgement(Judgement::Miss), DglabKind::BadMiss);
}

#[test]
fn strengths_are_read_and_clamped() {
    assert_eq!(read_configured_strength("35", 9), 35);
    assert_eq!(read_configured_strength(" +35\n", 9), 35);
    assert_eq!(read_configured_strength("0", 9), 0);
    assert_eq!(read_configured_strength("200", 9), 200);
    assert_eq!(read_configured_strength("201", 9), 200);
    assert_eq!(read_configured_strength("2147483647", 9), 200);
    assert_eq!(read_configured_strength("-1", 9), 0);
    assert_eq!(read_configured_strength("-2147483648", 9), 0);
}

#[test]
fn strengths_that_are_no_numbers_are_zero() {
    for raw in ["", " ", "x", "3.5", "2147483648", "-2147483649", "1 2", "+"] {
        assert_eq!(read_configured_strength(raw, 9), 0, "{}", raw);
    }
}

#[test]
fn reports_call_for_pulses() {
    let cfg = config("1", "2", "300");
    let j = judge(&[Ok(Judgement::Perfect), Err(true), Ok(Judgement::Good), Err(false), Ok(Judgement::Miss)]);
    let pulses: Vec<(DglabKind, u8)> = j.judgements.iter().map(|e| pulse(e, &cfg)).collect();
    let (perfect, good) = ((DglabKind::Perfect, 1), (DglabKind::Good, 2));
    assert_eq!(pulses, vec![perfect, perfect, good, good, (DglabKind::BadMiss, 200)]);
}

#[test]
fn reports_become_messages_in_order() {
    let mut s = paired_server();
    let mut j = judge(&[
        Ok(Judgement::Perfect),
        Ok(Judgement::Good),
        Ok(Judgement::Bad),
        Ok(Judgement::Miss),
        Err(true),
        Err(false),
    ]);
    pump_judgements(&mut s, &mut j, &config("1", "2", "300"));
    assert!(j.judgements.is_empty());
    let expected: Vec<String> = [1, 2, 200, 200, 1, 2]
        .iter()
        .flat_map(|v| vec![format!("strength-1+2+{}", v), format!("strength-2+2+{}", v)])
        .collect();
    assert_eq!(messages(&mut s), expected);
}

#[test]
fn unreadable_settings_give_nothing() {
    let mut s = paired_server();
    let mut j = judge(&[Ok(Judgement::Perfect), Ok(Judgement::Good), Ok(Judgement::Miss)]);
    pump_judgements(&mut s, &mut j, &config("", "x", "2147483648"));
    let m = messages(&mut s);
    assert_eq!(m[0], "strength-1+2+0");
    assert_eq!(m[2], "strength-1+2+0");
    assert_eq!(m[4], "strength-1+2+0");
}

#[test]
fn reports_are_dropped_without_connection() {
    let mut s = DglabServer::bind("0.0.0.0", "h", 1, "term".to_owned()).0;
    s.open_conn("c0");
    let mut j = judge(&[Ok(Judgement::Perfect)]);
    pump_judgements(&mut s, &mut j, &config("1", "1", "1"));
    assert!(j.judgements.is_empty());
    assert!(messages(&mut s).is_empty());

    let mut c = WsTransport::connect("host");
    pump_judgements(&mut c, &mut judge(&[Ok(Judgement::Perfect)]), &config("1", "1", "1"));
    assert!(!c.has_command());
}

#[test]
fn no_transport_where_the_device_is_not_used() {
    let mut cfg = config("1", "1", "1");
    cfg.dglab_enabled = false;
    assert!(build_dglab_update_fn(&cfg, Some(paired_server())).is_none());
}

#[test]
fn running_server_goes_first() {
    let cfg = config("5", "6", "7");
    let mut t = build_dglab_update_fn(&cfg, Some(paired_server())).unwrap();
    assert!(t.connected());
    pump_judgements(&mut t, &mut judge(&[Err(false)]), &cfg);
    match &mut t {
        Transport::Server(s) => assert_eq!(messages(s), ["strength-1+2+6", "strength-2+2+6"]),
        Transport::Client(_) => panic!("the server is there"),
    }
    t.disconnect();
    assert!(!t.connected());
}

#[test]
fn relay_is_used_without_server() {
    let cfg = config("5", "6", "7");
    let mut t = build_dglab_update_fn::<DglabServer>(&cfg, None).unwrap();
    assert!(!t.connected());
    if let Transport::Client(c) = &mut t {
        assert_eq!(c.url(), "ws://host:1");
        c.begin_session();
    }
    assert!(t.connected());
    t.set_strength(9);
    pump_judgements(&mut t, &mut judge(&[Ok(Judgement::Miss)]), &cfg);
    if let Transport::Client(c) = &mut t {
        for strength in ["9", "7"] {
            match c.session_step(&SessionEvent::Command) {
                SessionAction::Send(texts) => {
                    assert!(texts[0].contains(&format!("\"strength\":{}", strength)))
                }
                _ => panic!("messages are due"),
            }
        }
    }
    t.disconnect();
    assert!(!t.connected());
}

#[test]
fn reports_in_parts_are_reports_at_once() {
    let cfg = config("1", "2", "3");
    let all = [Ok(Judgement::Perfect), Err(false), Ok(Judgement::Bad)];
    let mut at_once = paired_server();
    pump_judgements(&mut at_once, &mut judge(&all), &cfg);
    let mut in_parts = paired_server();
    pump_judgements(&mut in_parts, &mut judge(&all[..1]), &cfg);
    pump_judgements(&mut in_parts, &mut judge(&[]), &cfg);
    pump_judgements(&mut in_parts, &mut judge(&all[1..]), &cfg);
    assert_eq!(messages(&mut in_parts), messages(&mut at_once));
}

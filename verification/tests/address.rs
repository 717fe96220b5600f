use dglab::address::{detect_lan_ip, is_blank, normalize_ws_url, pairing_link, IpAddress};
use dglab::server::DglabServer;

#[test]
fn bare_address_gets_the_ws_scheme() {
    assert_eq!(normalize_ws_url("127.0.0.1:1145"), "ws://127.0.0.1:1145");
}

#[test]
fn scheme_is_kept() {
    assert_eq!(normalize_ws_url("ws://host:9999"), "ws://host:9999");
    assert_eq!(normalize_ws_url("wss://host/path"), "wss://host/path");
    assert_eq!(normalize_ws_url("://"), "://");
    assert_eq!(normalize_ws_url("a:/b"), "ws://a:/b");
}

#[test]
fn white_space_around_an_address_is_dropped() {
    assert_eq!(normalize_ws_url("  wss://host \n"), "wss://host");
    assert_eq!(normalize_ws_url("\t\u{3000}host name\u{a0}"), "ws://host name");
    assert_eq!(normalize_ws_url("   "), "ws://");
    assert_eq!(normalize_ws_url(""), "ws://");
}

#[test]
fn every_white_space_character_is_trimmed() {
    for code in 0..0x11_0000u32 {
        if let Some(c) = char::from_u32(code) {
            let text = c.to_string();
            assert_eq!(dglab::text::trim(&text), text.trim(), "{:x}", code);
        }
    }
}

#[test]
fn normal_form_is_stable() {
    for raw in ["", " x ", "a://b", "::/", "ws:/x", " wss://y "] {
        let once = normalize_ws_url(raw);
        assert_eq!(normalize_ws_url(&once), once);
        assert!(once.contains("://"));
    }
}

#[test]
fn lan_address_is_the_local_one() {
    assert_eq!(detect_lan_ip(Some(IpAddress::V4(192, 168, 1, 5))), "192.168.1.5");
    assert_eq!(detect_lan_ip(Some(IpAddress::V4(0, 10, 255, 100))), "0.10.255.100");
}

#[test]
fn lan_address_falls_back_to_loopback() {
    assert_eq!(detect_lan_ip(None), "127.0.0.1");
    assert_eq!(detect_lan_ip(Some(IpAddress::V6)), "127.0.0.1");
    assert_eq!(detect_lan_ip(Some(IpAddress::V4(127, 8, 8, 8))), "127.0.0.1");
}

fn resolve(manual: &str) -> (String, String, u16) {
    DglabServer::resolve_addr(manual, 9999, "10.0.0.7")
}

fn found(host: &str, port: u16) -> (String, String, u16) {
    ("0.0.0.0".to_owned(), host.to_owned(), port)
}

#[test]
fn blank_address_resolves_to_this_machine() {
    assert_eq!(resolve(""), found("10.0.0.7", 9999));
    assert_eq!(resolve(" \t"), found("10.0.0.7", 9999));
    assert!(is_blank(" \t"));
    assert!(!is_blank(" x"));
}

#[test]
fn filled_in_address_goes_first() {
    assert_eq!(resolve("192.168.1.5:8080"), found("192.168.1.5", 8080));
    assert_eq!(resolve("ws://192.168.1.5:8080"), found("192.168.1.5", 8080));
    assert_eq!(resolve(" 192.168.1.5 "), found("192.168.1.5", 9999));
    assert_eq!(resolve("ws://192.168.1.5"), found("192.168.1.5", 9999));
}

#[test]
fn any_scheme_is_ignored() {
    for scheme in ["ws", "wss", "http", ""] {
        assert_eq!(resolve(&format!("{}://192.168.1.5:8080", scheme)), found("192.168.1.5", 8080));
        assert_eq!(resolve(&format!(" {}://h:8080 \n", scheme)), found("h", 8080));
        assert_eq!(resolve(&format!("{}://h", scheme)), found("h", 9999));
    }
}

#[test]
fn odd_ports() {
    assert_eq!(resolve("h:0"), found("h", 0));
    assert_eq!(resolve("h:65535"), found("h", 65535));
    assert_eq!(resolve("h:65536"), found("h:65536", 9999));
    assert_eq!(resolve("h:+80"), found("h", 80));
    assert_eq!(resolve("h:-1"), found("h:-1", 9999));
    assert_eq!(resolve("h:+"), found("h:+", 9999));
    assert_eq!(resolve("h:"), found("h:", 9999));
    assert_eq!(resolve("h: 80"), found("h: 80", 9999));
    assert_eq!(resolve("h:00080"), found("h", 80));
    assert_eq!(resolve("h:99999999999999999999999999"), found("h:99999999999999999999999999", 9999));
    assert_eq!(resolve("a:b:80"), found("a:b", 80));
    assert_eq!(resolve(":80"), found("", 80));
    assert_eq!(resolve("a://b://c:1"), found("b://c", 1));
    assert_eq!(resolve("主机:80"), found("主机", 80));
}

#[test]
fn url_of_a_server_resolves_to_it() {
    for (host, port) in [("192.168.1.5", 9999u16), ("", 0), ("x://y:1", 65535)] {
        let (server, _) = DglabServer::bind("0.0.0.0", host, port, "id".to_owned());
        assert_eq!(resolve(&server.url), found(host, port));
    }
}

#[test]
fn pairing_link_has_three_parts() {
    let link = pairing_link("ws://192.168.1.5:9999", "abc");
    assert_eq!(
        link,
        "https://www.dungeon-lab.com/app-download.php#DGLAB-SOCKET#ws://192.168.1.5:9999/abc"
    );
    assert_eq!(link.split('#').count(), 3);
}

#[test]
fn numbers_are_read_as_std_reads_them() {
    for text in [
        "", "+", "-", "0", "-0", "+0", "7", "007", "+12", "-12", "--1", "+-1", "1a", "a1", " 1", "1_0",
        "2147483647", "2147483648", "-2147483648", "-2147483649", "65535", "65536", "٣",
    ] {
        let chars: Vec<char> = text.chars().collect();
        assert_eq!(dglab::text::parse_i32(&chars), text.parse::<i32>().ok(), "{}", text);
        assert_eq!(dglab::text::parse_u16(&chars), text.parse::<u16>().ok(), "{}", text);
    }
}

#[test]
fn decimal_text_is_that_of_std() {
    for n in [0u64, 9, 10, 255, 65535, 1_000_000, u64::MAX] {
        assert_eq!(dglab::text::decimal_text(n), n.to_string());
    }
}

#[test]
fn same_text_compares_characters() {
    assert!(dglab::text::same_text("码a", "码a"));
    assert!(!dglab::text::same_text("码a", "码b"));
    assert!(!dglab::text::same_text("a", "ab"));
    assert!(dglab::text::same_text("", ""));
}

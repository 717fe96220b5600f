//! Addresses: what the user fills in, where the server is reached, what a pairing code holds.

use crate::server::DglabServer;
use crate::text::{chars_of, decimal, decimal_text, find, find_last, index_of, last_index_of};
use crate::text::{parse_u16, trim, trimmed, u16_of};
use vstd::prelude::*;
use vstd::string::StringExecFns;

verus! {

/// The address `raw` in the form in which it can be connected to: without white space around it,
/// and with the scheme `ws` where it names none.
pub open spec fn normalized(raw: Seq<char>) -> Seq<char> {
    let s = trimmed(raw);
    if find(s, "://"@) is Some {
        s
    } else {
        "ws://"@ + s
    }
}

/// Brings an address that the user filled in into the form in which it can be connected to.
pub fn normalize_ws_url(raw: &str) -> (r: String)
    ensures
        r@ == normalized(raw@),
{
    let s: &str = trim(raw);
    match index_of(&chars_of(s), &chars_of("://")) {
        Some(_) => s.to_owned(),
        None => "ws://".to_owned().concat(s),
    }
}

/// The address of a network interface.
#[derive(Clone, Copy, Debug, PartialEq, Eq, Structural)]
pub enum IpAddress {
    V4(u8, u8, u8, u8),
    V6,
}

/// Four numbers with dots between them.
pub open spec fn dotted(a: u8, b: u8, c: u8, d: u8) -> Seq<char> {
    decimal(a as nat) + "."@ + decimal(b as nat) + "."@ + decimal(c as nat) + "."@ + decimal(
        d as nat,
    )
}

/// The address under which this machine is reached in its network, going by the address that the
/// system would send from: that address where it is an IPv4 address that does not loop back
/// (127.0.0.0/8), else 127.0.0.1.
pub open spec fn lan_ip(local: Option<IpAddress>) -> Seq<char> {
    match local {
        Some(IpAddress::V4(a, b, c, d)) => if a != 127 {
            dotted(a, b, c, d)
        } else {
            "127.0.0.1"@
        },
        _ => "127.0.0.1"@,
    }
}

/// The address under which this machine is reached in its network, where `local` is the address
/// that the system would send from, if it could be found out.
pub fn detect_lan_ip(local: Option<IpAddress>) -> (r: String)
    ensures
        r@ == lan_ip(local),
{
    match local {
        Some(IpAddress::V4(a, b, c, d)) => {
            if a != 127 {
                decimal_text(a as u64).concat(".").concat(decimal_text(b as u64).as_str()).concat(
                    ".",
                ).concat(decimal_text(c as u64).as_str()).concat(".").concat(
                    decimal_text(d as u64).as_str(),
                )
            } else {
                "127.0.0.1".to_owned()
            }
        },
        _ => "127.0.0.1".to_owned(),
    }
}

/// What follows the scheme, or all of it where there is no scheme.
pub open spec fn without_scheme(s: Seq<char>) -> Seq<char> {
    match find(s, "://"@) {
        Some(i) => s.skip(i + 3),
        None => s,
    }
}

/// Host and port: what stands before and after the last colon where a port stands after it, else
/// all of it and the default port.
pub open spec fn host_and_port(s: Seq<char>, default_port: u16) -> (Seq<char>, u16) {
    match find_last(s, ':') {
        Some(i) => match u16_of(s.skip(i + 1)) {
            Some(port) => (s.take(i), port as u16),
            None => (s, default_port),
        },
        None => (s, default_port),
    }
}

/// The host that others reach, and the port.
pub open spec fn resolved(manual: Seq<char>, default_port: u16, lan_ip: Seq<char>) -> (
    Seq<char>,
    u16,
) {
    if trimmed(manual).len() == 0 {
        (lan_ip, default_port)
    } else {
        host_and_port(without_scheme(trimmed(manual)), default_port)
    }
}

/// Whether there is nothing but white space in `s`.
pub fn is_blank(s: &str) -> (r: bool)
    ensures
        r == (trimmed(s@).len() == 0),
{
    trim(s).is_empty()
}

impl DglabServer {
    /// The host to listen at, the host that others reach, and the port. An address that the user
    /// filled in goes first; where it is blank, `lan_ip` and the default port are taken.
    pub fn resolve_addr(manual: &str, default_port: u16, lan_ip: &str) -> (r: (String, String, u16))
        ensures
            r.0@ == "0.0.0.0"@,
            (r.1@, r.2) == resolved(manual@, default_port, lan_ip@),
    {
        let manual: &str = trim(manual);
        let listen: String = "0.0.0.0".to_owned();
        if manual.is_empty() {
            return (listen, lan_ip.to_owned(), default_port);
        }
        let len: usize = chars_of(manual).len();
        let raw: &str = match index_of(&chars_of(manual), &chars_of("://")) {
            Some(i) => {
                proof {
                    reveal_strlit("://");
                }
                let rest: &str = manual.substring_char(i + 3, len);
                assert(rest@ == manual@.skip(i + 3));
                rest
            },
            None => manual,
        };
        let chars: Vec<char> = chars_of(raw);
        if let Some(i) = last_index_of(&chars, ':') {
            let port_text: &str = raw.substring_char(i + 1, chars.len());
            assert(port_text@ == raw@.skip(i + 1));
            if let Some(port) = parse_u16(&chars_of(port_text)) {
                let host: &str = raw.substring_char(0, i);
                assert(host@ == raw@.take(i as int));
                return (listen, host.to_owned(), port);
            }
        }
        (listen, raw.to_owned(), default_port)
    }
}

/// What the pairing code for a terminal holds.
pub open spec fn pairing_text(url: Seq<char>, client_id: Seq<char>) -> Seq<char> {
    "https://www.dungeon-lab.com/app-download.php#DGLAB-SOCKET#"@ + url + "/"@ + client_id
}

/// What the pairing code for the terminal `client_id` of the service at `url` holds.
pub fn pairing_link(url: &str, client_id: &str) -> (r: String)
    ensures
        r@ == pairing_text(url@, client_id@),
{
    "https://www.dungeon-lab.com/app-download.php#DGLAB-SOCKET#".to_owned().concat(url).concat(
        "/",
    ).concat(client_id)
}

}

//! What holds of addresses, connection ids and pairing codes.

use crate::address::{dotted, host_and_port, lan_ip, normalized, pairing_text, resolved};
use crate::address::{without_scheme, IpAddress};
use crate::laws::text::{bare, blank, law_blank_leaves_nothing, law_found_is_first};
use crate::laws::text::{law_found_is_last, law_number_is_written_plainly, law_port_is_read};
use crate::laws::text::{law_port_is_unique, law_trimming, plain, stands, writes_unsigned};
use crate::server::{conn_id, host_port, server_url};
use crate::text::{decimal, find, is_digit, is_white_space, matches_at};
use crate::text::{lemma_decimal, lemma_find_from, lemma_find_last, lemma_no_last, lemma_not_found};
use crate::text::{lemma_nowhere, lemma_trimmed, trim_end, trimmed, u16_of};
use vstd::prelude::*;

verus! {

/// An address in its normal form names a scheme.
pub proof fn law_normal_address_has_scheme(raw: Seq<char>)
    ensures
        find(normalized(raw), "://"@) is Some,
{
    reveal_strlit("://");
    reveal_strlit("ws://");
    let n = normalized(raw);
    if find(trimmed(raw), "://"@) is None {
        assert(n.subrange(2, 5) =~= "://"@);
        assert(matches_at(n, "://"@, 2));
        if find(n, "://"@) is None {
            lemma_nowhere(n, "://"@, 0, 2);
        }
    }
}

/// Bringing an address into its normal form a second time changes nothing.
pub proof fn law_normal_address_is_stable(raw: Seq<char>)
    ensures
        normalized(normalized(raw)) == normalized(raw),
{
    law_normal_address_has_scheme(raw);
    reveal_strlit("ws://");
    lemma_trimmed(raw);
    let n = normalized(raw);
    let t = trimmed(raw);
    if find(t, "://"@) is None {
        assert(n.first() == 'w');
        if t.len() == 0 {
            assert(n.last() == '/');
        } else {
            assert(n.last() == t.last());
        }
    }
    assert(trimmed(n) == n);
}

/// An address that names a scheme is kept as it is, but for white space around it.
pub proof fn law_scheme_is_kept(raw: Seq<char>)
    requires
        find(trimmed(raw), "://"@) is Some,
    ensures
        normalized(raw) == trimmed(raw),
{
}

/// A port is read back from its decimal form.
pub proof fn law_port_reads_back(port: u16)
    ensures
        u16_of(decimal(port as nat)) == Some(port as nat),
{
    lemma_decimal(port as nat);
    let d = decimal(port as nat);
    assert(is_digit(d[0]));
}

/// `host:port` gives the host and the port, whatever the host.
pub proof fn law_host_port_splits(host: Seq<char>, port: u16, default_port: u16)
    ensures
        host_and_port(host_port(host, port), default_port) == (host, port),
{
    reveal_strlit(":");
    let s = host_port(host, port);
    let d = decimal(port as nat);
    lemma_decimal(port as nat);
    assert forall|j: int| host.len() < j < s.len() implies s[j] != ':' by {
        assert(s[j] == d[j - host.len() - 1]);
        assert(is_digit(d[j - host.len() - 1]));
    }
    assert(s[host.len() as int] == ':');
    lemma_find_last(s, ':', host.len() as int);
    assert(s.skip(host.len() + 1int) =~= d);
    assert(s.take(host.len() as int) =~= host);
    law_port_reads_back(port);
}

/// White space is taken from the end of the second of two texts where the first does not end in
/// any.
proof fn lemma_trim_end_of_two(first: Seq<char>, second: Seq<char>)
    requires
        first.len() > 0,
        !is_white_space(first.last()),
    ensures
        trim_end(first + second) == first + trim_end(second),
    decreases second.len(),
{
    if second.len() == 0 {
        assert(first + second =~= first);
        assert(first + trim_end(second) =~= first);
    } else {
        assert((first + second).last() == second.last());
        assert((first + second).drop_last() =~= first + second.drop_last());
        if is_white_space(second.last()) {
            lemma_trim_end_of_two(first, second.drop_last());
        }
    }
}

/// An address with a scheme, filled in by hand, is taken without the scheme, whatever the scheme:
/// its host and port are those of the rest, without white space after it.
pub proof fn law_scheme_is_ignored(
    scheme: Seq<char>,
    rest: Seq<char>,
    default_port: u16,
    lan_ip: Seq<char>,
)
    requires
        scheme.len() > 0 ==> !is_white_space(scheme.first()),
        !scheme.contains(':'),
    ensures
        resolved(scheme + "://"@ + rest, default_port, lan_ip) == host_and_port(
            trim_end(rest),
            default_port,
        ),
{
    reveal_strlit("://");
    let head = scheme + "://"@;
    let s = head + rest;
    assert(head.last() == '/');
    lemma_trim_end_of_two(head, rest);
    assert(s.first() == if scheme.len() > 0 {
        scheme.first()
    } else {
        ':'
    });
    let t = head + trim_end(rest);
    assert(trimmed(s) == t);
    let n = scheme.len() as int;
    assert(t.subrange(n, n + 3) =~= "://"@);
    assert forall|j: int| 0 <= j < n implies !matches_at(t, "://"@, j) by {
        if matches_at(t, "://"@, j) {
            assert(t.subrange(j, j + 3)[0] == t[j]);
            assert(t[j] == scheme[j]);
        }
    }
    lemma_find_from(t, "://"@, 0, n);
    assert(without_scheme(t) =~= trim_end(rest));
}

/// `scheme://host:port`, filled in by hand, gives the host and the port, whatever the scheme.
pub proof fn law_full_address_resolves(
    scheme: Seq<char>,
    host: Seq<char>,
    port: u16,
    default_port: u16,
    lan_ip: Seq<char>,
)
    requires
        scheme.len() > 0 ==> !is_white_space(scheme.first()),
        !scheme.contains(':'),
    ensures
        resolved(scheme + "://"@ + host_port(host, port), default_port, lan_ip) == (host, port),
{
    let rest = host_port(host, port);
    lemma_decimal(port as nat);
    let d = decimal(port as nat);
    assert(rest.last() == d.last());
    assert(is_digit(d[d.len() - 1]));
    assert(trim_end(rest) == rest);
    law_scheme_is_ignored(scheme, rest, default_port, lan_ip);
    law_host_port_splits(host, port, default_port);
}

/// The address of a server, filled in by hand, gives the server's host and port.
pub proof fn law_server_url_resolves(
    host: Seq<char>,
    port: u16,
    default_port: u16,
    lan_ip: Seq<char>,
)
    ensures
        resolved(server_url(host, port), default_port, lan_ip) == (host, port),
{
    reveal_strlit("ws://");
    reveal_strlit("ws");
    reveal_strlit("://");
    assert(server_url(host, port) =~= "ws"@ + "://"@ + host_port(host, port));
    law_full_address_resolves("ws"@, host, port, default_port, lan_ip);
}

/// `host:port`, filled in by hand, gives the host and the port, where the host neither begins with
/// white space nor holds a scheme.
pub proof fn law_host_port_resolves(
    host: Seq<char>,
    port: u16,
    default_port: u16,
    lan_ip: Seq<char>,
)
    requires
        host.len() > 0 ==> !is_white_space(host.first()),
        find(host, "://"@) is None,
    ensures
        resolved(host_port(host, port), default_port, lan_ip) == (host, port),
{
    reveal_strlit(":");
    reveal_strlit("://");
    let s = host_port(host, port);
    lemma_decimal(port as nat);
    let d = decimal(port as nat);
    assert(is_digit(d[d.len() - 1]));
    assert(s.last() == d.last());
    assert(s.first() == if host.len() > 0 {
        host.first()
    } else {
        ':'
    });
    assert(trimmed(s) == s);
    assert forall|j: int| 0 <= j implies !matches_at(s, "://"@, j) by {
        if matches_at(s, "://"@, j) {
            let m = s.subrange(j, j + 3);
            assert(m[0] == s[j] && m[1] == s[j + 1] && m[2] == s[j + 2]);
            if j + 3 <= host.len() {
                assert(host.subrange(j, j + 3) =~= m);
                assert(matches_at(host, "://"@, j));
                lemma_nowhere(host, "://"@, 0, j);
            } else if j + 2 == host.len() {
                assert(s[j + 2] == ':');
            } else if j + 1 == host.len() {
                assert(s[j + 1] == ':');
            } else {
                assert(s[j + 1] == d[j - host.len()]);
                assert(is_digit(d[j - host.len()]));
            }
        }
    }
    lemma_not_found(s, "://"@, 0);
    law_host_port_splits(host, port, default_port);
}

/// A host without a port, filled in by hand, is taken with the default port.
pub proof fn law_host_resolves(host: Seq<char>, default_port: u16, lan_ip: Seq<char>)
    requires
        host.len() > 0,
        !is_white_space(host.first()),
        !is_white_space(host.last()),
        forall|j: int| 0 <= j < host.len() ==> host[j] != ':',
    ensures
        resolved(host, default_port, lan_ip) == (host, default_port),
{
    reveal_strlit("://");
    assert forall|j: int| 0 <= j implies !matches_at(host, "://"@, j) by {
        if matches_at(host, "://"@, j) {
            assert(host.subrange(j, j + 3)[0] == host[j]);
        }
    }
    lemma_not_found(host, "://"@, 0);
    lemma_no_last(host, ':');
}

/// Connections with different numbers have different ids.
pub proof fn law_conn_ids_differ(m: u64, n: u64)
    requires
        m != n,
    ensures
        conn_id(m) != conn_id(n),
{
    reveal_strlit("c");
    lemma_decimal(m as nat);
    lemma_decimal(n as nat);
    assert(conn_id(m).skip(1) =~= decimal(m as nat));
    assert(conn_id(n).skip(1) =~= decimal(n as nat));
}

/// The character `#` does not stand in `s`.
pub open spec fn no_hash(s: Seq<char>) -> bool {
    !s.contains('#')
}

/// A pairing code consists of three parts with a `#` between them, and no `#` stands in a part:
/// the address of the download page, the tag, and the service with the id of the terminal.
pub proof fn law_pairing_text_has_three_parts(url: Seq<char>, client_id: Seq<char>)
    requires
        no_hash(url),
        no_hash(client_id),
    ensures
        pairing_text(url, client_id) == "https://www.dungeon-lab.com/app-download.php"@ + seq!['#']
            + "DGLAB-SOCKET"@ + seq!['#'] + (url + "/"@ + client_id),
        no_hash("https://www.dungeon-lab.com/app-download.php"@),
        no_hash("DGLAB-SOCKET"@),
        no_hash(url + "/"@ + client_id),
{
    reveal_strlit("https://www.dungeon-lab.com/app-download.php#DGLAB-SOCKET#");
    reveal_strlit("https://www.dungeon-lab.com/app-download.php");
    reveal_strlit("DGLAB-SOCKET");
    reveal_strlit("/");
    assert("https://www.dungeon-lab.com/app-download.php#DGLAB-SOCKET#"@
        =~= "https://www.dungeon-lab.com/app-download.php"@ + seq!['#'] + "DGLAB-SOCKET"@
        + seq!['#']);
    assert(pairing_text(url, client_id) =~= "https://www.dungeon-lab.com/app-download.php"@
        + seq!['#'] + "DGLAB-SOCKET"@ + seq!['#'] + (url + "/"@ + client_id));
    let service = url + "/"@ + client_id;
    assert forall|i: int| 0 <= i < service.len() implies service[i] != '#' by {
        if i < url.len() {
            assert(service[i] == url[i]);
        } else if i > url.len() {
            assert(service[i] == client_id[i - url.len() - 1]);
        }
    }
}

/// `://` stands in `s` at `i`.
pub open spec fn scheme_mark(s: Seq<char>, i: int) -> bool {
    0 <= i && i + 2 < s.len() && s[i] == ':' && s[i + 1] == '/' && s[i + 2] == '/'
}

proof fn lemma_scheme_mark(s: Seq<char>, i: int)
    ensures
        stands(s, "://"@, i) == scheme_mark(s, i),
{
    reveal_strlit("://");
    let pat = "://"@;
    assert(pat.len() == 3 && pat[0] == ':' && pat[1] == '/' && pat[2] == '/');
    if scheme_mark(s, i) {
        assert forall|k: int| 0 <= k < pat.len() implies s[i + k] == #[trigger] pat[k] by {
            assert(k == 0 || k == 1 || k == 2);
        }
    }
    if stands(s, pat, i) {
        assert(s[i + 0] == pat[0] && s[i + 1] == pat[1] && s[i + 2] == pat[2]);
    }
}

/// An address in which no `://` stands gets the scheme `ws`, however long it is; white space around
/// it is dropped.
pub proof fn law_bare_address_gets_ws(a: Seq<char>, t: Seq<char>, b: Seq<char>)
    requires
        blank(a),
        bare(t),
        blank(b),
        forall|i: int| !#[trigger] scheme_mark(t, i),
    ensures
        normalized(a + t + b) == seq!['w', 's', ':', '/', '/'] + t,
{
    law_trimming(a, t, b);
    law_found_is_first(t, "://"@);
    if let Some(i) = find(t, "://"@) {
        lemma_scheme_mark(t, i);
    }
    reveal_strlit("ws://");
    assert("ws://"@ =~= seq!['w', 's', ':', '/', '/']);
}

/// An address in which `://` stands is taken as it is, but for white space around it.
pub proof fn law_address_with_scheme_stays(a: Seq<char>, t: Seq<char>, b: Seq<char>, i: int)
    requires
        blank(a),
        bare(t),
        blank(b),
        scheme_mark(t, i),
    ensures
        normalized(a + t + b) == t,
{
    law_trimming(a, t, b);
    law_found_is_first(t, "://"@);
    lemma_scheme_mark(t, i);
}

/// The four numbers of an IPv4 address are written with dots between them, unless the first is 127.
pub proof fn law_local_address_is_written(
    a: u8,
    b: u8,
    c: u8,
    d: u8,
    s: Seq<char>,
    t: Seq<char>,
    u: Seq<char>,
    v: Seq<char>,
)
    requires
        a != 127,
        plain(s, a as int),
        plain(t, b as int),
        plain(u, c as int),
        plain(v, d as int),
    ensures
        lan_ip(Some(IpAddress::V4(a, b, c, d))) == s + seq!['.'] + t + seq!['.'] + u + seq!['.']
            + v,
{
    law_number_is_written_plainly(a as nat, s);
    law_number_is_written_plainly(b as nat, t);
    law_number_is_written_plainly(c as nat, u);
    law_number_is_written_plainly(d as nat, v);
    reveal_strlit(".");
    assert("."@ =~= seq!['.']);
    assert(dotted(a, b, c, d) == s + seq!['.'] + t + seq!['.'] + u + seq!['.'] + v);
}

/// Where no IPv4 address is known, or one that loops back, this machine is known by 127.0.0.1.
pub proof fn law_loopback_stands_in(local: Option<IpAddress>)
    requires
        match local {
            Some(IpAddress::V4(a, _, _, _)) => a == 127,
            _ => true,
        },
    ensures
        lan_ip(local) == seq!['1', '2', '7', '.', '0', '.', '0', '.', '1'],
{
    reveal_strlit("127.0.0.1");
    assert("127.0.0.1"@ =~= seq!['1', '2', '7', '.', '0', '.', '0', '.', '1']);
}

/// Where nothing is filled in, this machine and the default port are taken.
pub proof fn law_nothing_filled_in(s: Seq<char>, default_port: u16, lan: Seq<char>)
    requires
        blank(s),
    ensures
        resolved(s, default_port, lan) == (lan, default_port),
{
    law_blank_leaves_nothing(s);
}

/// What is left of `t` without its scheme is `rest`: what follows the first `://`, or all of it.
pub open spec fn leaves(t: Seq<char>, rest: Seq<char>) -> bool {
    ||| rest == t && forall|i: int| !#[trigger] scheme_mark(t, i)
    ||| exists|i: int| #[trigger]
        scheme_mark(t, i) && rest == t.skip(i + 3) && forall|j: int|
            0 <= j < i ==> !#[trigger] scheme_mark(t, j)
}

proof fn lemma_leaves(t: Seq<char>, rest: Seq<char>)
    requires
        leaves(t, rest),
    ensures
        without_scheme(t) == rest,
{
    law_found_is_first(t, "://"@);
    assert forall|j: int| #[trigger] stands(t, "://"@, j) == scheme_mark(t, j) by {
        lemma_scheme_mark(t, j);
    }
    if forall|i: int| !#[trigger] scheme_mark(t, i) {
        if let Some(i) = find(t, "://"@) {
            assert(stands(t, "://"@, i));
        }
    } else {
        let i = choose|i: int| #[trigger]
            scheme_mark(t, i) && rest == t.skip(i + 3) && forall|j: int|
                0 <= j < i ==> !#[trigger] scheme_mark(t, j);
        assert(stands(t, "://"@, i));
        let k = find(t, "://"@)->0;
        assert(stands(t, "://"@, k));
        if k < i {
            assert(!scheme_mark(t, k));
        }
    }
}

/// Where a port stands after the last colon of what is filled in, the host is what stands before
/// that colon, and the port is that.
pub proof fn law_filled_in_port_is_taken(
    a: Seq<char>,
    t: Seq<char>,
    b: Seq<char>,
    host: Seq<char>,
    d: Seq<char>,
    port: u16,
    default_port: u16,
    lan: Seq<char>,
)
    requires
        blank(a),
        bare(t),
        blank(b),
        t.len() > 0,
        leaves(t, host + seq![':'] + d),
        !d.contains(':'),
        writes_unsigned(d, port as int),
    ensures
        resolved(a + t + b, default_port, lan) == (host, port),
{
    let rest = host + seq![':'] + d;
    law_trimming(a, t, b);
    lemma_leaves(t, rest);
    lemma_last_colon(host, d);
    law_port_is_unique(d, port as int);
    assert(rest.skip(host.len() + 1int) =~= d);
    assert(rest.take(host.len() as int) =~= host);
}

proof fn lemma_last_colon(host: Seq<char>, d: Seq<char>)
    requires
        !d.contains(':'),
    ensures
        crate::text::find_last(host + seq![':'] + d, ':') == Some(host.len() as int),
{
    let rest = host + seq![':'] + d;
    assert forall|j: int| host.len() < j < rest.len() implies rest[j] != ':' by {
        assert(rest[j] == d[j - host.len() - 1]);
    }
    lemma_find_last(rest, ':', host.len() as int);
}

/// Where no port stands after the last colon of what is filled in, all of it is the host, and the
/// default port is taken.
pub proof fn law_other_colon_is_part_of_the_host(
    a: Seq<char>,
    t: Seq<char>,
    b: Seq<char>,
    host: Seq<char>,
    d: Seq<char>,
    default_port: u16,
    lan: Seq<char>,
)
    requires
        blank(a),
        bare(t),
        blank(b),
        t.len() > 0,
        leaves(t, host + seq![':'] + d),
        !d.contains(':'),
        forall|n: int| n <= 65535 ==> !#[trigger] writes_unsigned(d, n),
    ensures
        resolved(a + t + b, default_port, lan) == (host + seq![':'] + d, default_port),
{
    let rest = host + seq![':'] + d;
    law_trimming(a, t, b);
    lemma_leaves(t, rest);
    lemma_last_colon(host, d);
    law_port_is_read(d);
    assert(rest.skip(host.len() + 1int) =~= d);
}

/// Where no colon stands in what is filled in, all of it is the host, and the default port is
/// taken.
pub proof fn law_filled_in_host_is_taken(
    a: Seq<char>,
    t: Seq<char>,
    b: Seq<char>,
    host: Seq<char>,
    default_port: u16,
    lan: Seq<char>,
)
    requires
        blank(a),
        bare(t),
        blank(b),
        t.len() > 0,
        leaves(t, host),
        !host.contains(':'),
    ensures
        resolved(a + t + b, default_port, lan) == (host, default_port),
{
    law_trimming(a, t, b);
    lemma_leaves(t, host);
    law_found_is_last(host, ':');
}

/// An address to listen at, and the address of a server, are written with the port in plain digits
/// after a colon.
pub proof fn law_server_addresses_are_written(host: Seq<char>, port: u16, d: Seq<char>)
    requires
        plain(d, port as int),
    ensures
        host_port(host, port) == host + seq![':'] + d,
        server_url(host, port) == seq!['w', 's', ':', '/', '/'] + host + seq![':'] + d,
{
    law_number_is_written_plainly(port as nat, d);
    reveal_strlit(":");
    reveal_strlit("ws://");
    assert(":"@ =~= seq![':']);
    assert("ws://"@ =~= seq!['w', 's', ':', '/', '/']);
    assert(server_url(host, port) =~= seq!['w', 's', ':', '/', '/'] + host + seq![':'] + d);
}

/// The id of a connection is the letter c and its number in plain digits.
pub proof fn law_conn_id_is_written(n: u64, d: Seq<char>)
    requires
        plain(d, n as int),
    ensures
        conn_id(n) == seq!['c'] + d,
{
    law_number_is_written_plainly(n as nat, d);
    reveal_strlit("c");
    assert("c"@ =~= seq!['c']);
}

/// A pairing code holds the address of the download page with the tag, the address of the service
/// and the id of the terminal, whatever these are.
pub proof fn law_pairing_text_is_written(url: Seq<char>, client_id: Seq<char>)
    ensures
        pairing_text(url, client_id)
            == "https://www.dungeon-lab.com/app-download.php#DGLAB-SOCKET#"@ + url + seq!['/']
            + client_id,
{
    reveal_strlit("/");
    assert("/"@ =~= seq!['/']);
}

}

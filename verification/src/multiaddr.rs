//! Peer addresses: HTTP base URLs and the multiaddrs (`/ip4/<host>/tcp/<port>/http`) that
//! advertise them.

use crate::text::{
    concat_str, first_index, has_prefix, nonempty_pieces, scan_pieces, split_nonempty, split_once, split_once_char, str_eq,
    str_strip_prefix, trim_end, trim_end_char,
};
use vstd::prelude::*;

verus! {

/// The multiaddr that advertises an HTTP base URL. Multiaddrs are kept; `http://host[:port]` and
/// `https://host[:port]` become `/ip4/host/tcp/port/http[s]` (port 80 or 443 when absent);
/// anything else is kept, without trailing slashes.
pub open spec fn multiaddr_of(base: Seq<char>) -> Seq<char> {
    let b = trim_end(base, '/');
    if has_prefix(b, "/ip4/"@) || has_prefix(b, "/ip6/"@) {
        b
    } else if has_prefix(b, "http://"@) {
        let rest = b.skip("http://"@.len() as int);
        match split_once(rest, ':') {
            Some((h, p)) => "/ip4/"@ + h + "/tcp/"@ + p + "/http"@,
            None => "/ip4/"@ + rest + "/tcp/80/http"@,
        }
    } else if has_prefix(b, "https://"@) {
        let rest = b.skip("https://"@.len() as int);
        match split_once(rest, ':') {
            Some((h, p)) => "/ip4/"@ + h + "/tcp/"@ + p + "/https"@,
            None => "/ip4/"@ + rest + "/tcp/443/https"@,
        }
    } else {
        b
    }
}

/// The HTTP base URL that a multiaddr stands for: an `http(s)://` URL as it is (without trailing
/// slashes), or `/ip4|ip6/<host>/tcp/<port>[/https]` as `http[s]://host:port`; nothing otherwise.
pub open spec fn http_base_of(m: Seq<char>) -> Option<Seq<char>> {
    let t = trim_end(m, '/');
    if has_prefix(t, "http://"@) || has_prefix(t, "https://"@) {
        Some(t)
    } else {
        let parts = nonempty_pieces(t, '/');
        if parts.len() >= 4 && (parts[0] == "ip4"@ || parts[0] == "ip6"@) && parts[2] == "tcp"@ {
            let proto = if parts.len() > 4 && parts[4] == "https"@ {
                "https"@
            } else {
                "http"@
            };
            Some(proto + "://"@ + parts[1] + ":"@ + parts[3])
        } else {
            None
        }
    }
}

/// The multiaddr that advertises an HTTP base URL.
pub fn http_to_multiaddr(base: &str) -> (r: String)
    ensures
        r@ == multiaddr_of(base@),
{
    let b = trim_end_char(base, '/');
    if str_strip_prefix(b.as_str(), "/ip4/").is_some() || str_strip_prefix(b.as_str(), "/ip6/").is_some() {
        return b;
    }
    if let Some(rest) = str_strip_prefix(b.as_str(), "http://") {
        return match split_once_char(rest, ':') {
            Some((host, port)) => {
                let a = concat_str("/ip4/", host.as_str());
                let c = concat_str(a.as_str(), "/tcp/");
                let d = concat_str(c.as_str(), port.as_str());
                concat_str(d.as_str(), "/http")
            },
            None => {
                let a = concat_str("/ip4/", rest);
                concat_str(a.as_str(), "/tcp/80/http")
            },
        };
    }
    if let Some(rest) = str_strip_prefix(b.as_str(), "https://") {
        return match split_once_char(rest, ':') {
            Some((host, port)) => {
                let a = concat_str("/ip4/", host.as_str());
                let c = concat_str(a.as_str(), "/tcp/");
                let d = concat_str(c.as_str(), port.as_str());
                concat_str(d.as_str(), "/https")
            },
            None => {
                let a = concat_str("/ip4/", rest);
                concat_str(a.as_str(), "/tcp/443/https")
            },
        };
    }
    b
}

/// The HTTP base URL that a multiaddr stands for, if any.
pub fn http_base(multiaddr: &str) -> (r: Option<String>)
    ensures
        match r {
            Some(u) => http_base_of(multiaddr@) == Some(u@),
            None => http_base_of(multiaddr@) is None,
        },
{
    let t = trim_end_char(multiaddr, '/');
    if str_strip_prefix(t.as_str(), "http://").is_some() || str_strip_prefix(t.as_str(), "https://").is_some() {
        return Some(t);
    }
    let parts = split_nonempty(t.as_str(), '/');
    let ghost ps = nonempty_pieces(t@, '/');
    if parts.len() >= 4 && (str_eq(parts[0].as_str(), "ip4") || str_eq(parts[0].as_str(), "ip6")) && str_eq(
        parts[2].as_str(),
        "tcp",
    ) {
        let https = parts.len() > 4 && str_eq(parts[4].as_str(), "https");
        let proto = if https {
            "https"
        } else {
            "http"
        };
        let a = concat_str(proto, "://");
        let b = concat_str(a.as_str(), parts[1].as_str());
        let c = concat_str(b.as_str(), ":");
        let d = concat_str(c.as_str(), parts[3].as_str());
        proof {
            assert(parts@[0]@ == ps[0] && parts@[1]@ == ps[1] && parts@[2]@ == ps[2] && parts@[3]@ == ps[3]);
            if parts@.len() > 4 {
                assert(parts@[4]@ == ps[4]);
            }
        }
        return Some(d);
    }
    proof {
        if parts@.len() >= 4 {
            assert(parts@[0]@ == ps[0] && parts@[2]@ == ps[2]);
        }
    }
    None
}

/// Whether a string holds no `c`.
pub open spec fn free_of(s: Seq<char>, c: char) -> bool {
    forall|i: int| 0 <= i < s.len() ==> s[i] != c
}

/// Reading characters other than the separator only extends the piece being read.
proof fn lemma_scan_plain(a: Seq<char>, b: Seq<char>, c: char)
    requires
        free_of(b, c),
    ensures
        scan_pieces(a + b, c) == (scan_pieces(a, c).0, scan_pieces(a, c).1 + b),
    decreases b.len(),
{
    if b.len() == 0 {
        assert(a + b =~= a);
        assert(scan_pieces(a, c).1 + b =~= scan_pieces(a, c).1);
    } else {
        let b2 = b.drop_last();
        lemma_scan_plain(a, b2, c);
        assert((a + b).drop_last() =~= a + b2);
        assert((a + b).last() == b.last());
        assert(scan_pieces(a, c).1 + b2 + seq![b.last()] =~= scan_pieces(a, c).1 + b);
        assert((scan_pieces(a, c).1 + b2).push(b.last()) =~= scan_pieces(a, c).1 + b);
    }
}

/// After a separator and then a piece without separators, the pieces read so far are the
/// non-empty pieces before the separator, and that piece is being read.
proof fn lemma_scan_piece(a: Seq<char>, b: Seq<char>, c: char)
    requires
        free_of(b, c),
    ensures
        scan_pieces(a + seq![c] + b, c) == (nonempty_pieces(a, c), b),
{
    let a1 = a + seq![c];
    assert(a1.drop_last() =~= a);
    assert(a1.last() == c);
    assert(scan_pieces(a1, c) == (nonempty_pieces(a, c), Seq::<char>::empty()));
    lemma_scan_plain(a1, b, c);
    assert(Seq::<char>::empty() + b =~= b);
}

/// The base `scheme + host + ":" + port` in question.
pub open spec fn http_base_text(host: Seq<char>, port: Seq<char>, secure: bool) -> Seq<char> {
    (if secure { "https://"@ } else { "http://"@ }) + host + ":"@ + port
}

/// The multiaddr that advertises such a base.
spec fn advertised(host: Seq<char>, port: Seq<char>, secure: bool) -> Seq<char> {
    "/ip4/"@ + host + "/tcp/"@ + port + "/"@ + (if secure { "https"@ } else { "http"@ })
}

proof fn lemma_split_host_port(host: Seq<char>, port: Seq<char>)
    requires
        free_of(host, ':'),
    ensures
        split_once(host + ":"@ + port, ':') == Some((host, port)),
{
    reveal_strlit(":");
    let rest = host + ":"@ + port;
    assert(rest[host.len() as int] == ':');
    assert(first_index(rest, ':') == Some(host.len() as int)) by {
        let k = choose|k: int| 0 <= k < rest.len() && rest[k] == ':' && forall|j: int| 0 <= j < k ==> rest[j] != ':';
        assert(forall|j: int| 0 <= j < host.len() ==> rest[j] == host[j]);
        if k < host.len() {
            assert(rest[k] == host[k]);
        }
    }
    assert(rest.take(host.len() as int) =~= host);
    assert(rest.skip(host.len() as int + 1) =~= port);
}

/// A base that begins with `h` is neither an `/ip4/` nor an `/ip6/` multiaddr.
proof fn lemma_not_multiaddr(base: Seq<char>)
    requires
        base.len() > 0,
        base[0] == 'h',
    ensures
        !has_prefix(base, "/ip4/"@),
        !has_prefix(base, "/ip6/"@),
{
    reveal_strlit("/ip4/");
    reveal_strlit("/ip6/");
    if 5 <= base.len() {
        assert(base.take(5)[0] == 'h');
    }
}

#[verifier::rlimit(60)]
proof fn lemma_multiaddr_of_http(host: Seq<char>, port: Seq<char>)
    requires
        host.len() > 0,
        port.len() > 0,
        free_of(host, ':'),
        free_of(port, '/'),
    ensures
        multiaddr_of(http_base_text(host, port, false)) == advertised(host, port, false),
{
    reveal_strlit("http://");
    reveal_strlit("/http");
    reveal_strlit("/");
    reveal_strlit("http");
    let base = http_base_text(host, port, false);
    let rest = host + ":"@ + port;
    assert(base.last() == port.last());
    assert(trim_end(base, '/') == base);
    lemma_not_multiaddr(base);
    lemma_split_host_port(host, port);
    assert(base.take(7) =~= "http://"@);
    assert(base.skip(7) =~= rest);
    assert("/http"@ =~= "/"@ + "http"@);
}

#[verifier::rlimit(60)]
proof fn lemma_multiaddr_of_https(host: Seq<char>, port: Seq<char>)
    requires
        host.len() > 0,
        port.len() > 0,
        free_of(host, ':'),
        free_of(port, '/'),
    ensures
        multiaddr_of(http_base_text(host, port, true)) == advertised(host, port, true),
{
    reveal_strlit("http://");
    reveal_strlit("https://");
    reveal_strlit("/https");
    reveal_strlit("/");
    reveal_strlit("https");
    let base = http_base_text(host, port, true);
    let rest = host + ":"@ + port;
    assert(base.last() == port.last());
    assert(trim_end(base, '/') == base);
    lemma_not_multiaddr(base);
    lemma_split_host_port(host, port);
    assert(!has_prefix(base, "http://"@)) by {
        assert(base.take(7)[4] == 's');
    }
    assert(base.take(8) =~= "https://"@);
    assert(base.skip(8) =~= rest);
    assert("/https"@ =~= "/"@ + "https"@);
}

proof fn lemma_pieces_of_advertised(host: Seq<char>, port: Seq<char>, secure: bool)
    requires
        host.len() > 0,
        port.len() > 0,
        free_of(host, '/'),
        free_of(port, '/'),
    ensures
        nonempty_pieces(advertised(host, port, secure), '/')
            == seq!["ip4"@, host, "tcp"@, port, if secure { "https"@ } else { "http"@ }],
{
    reveal_strlit("/ip4/");
    reveal_strlit("/tcp/");
    reveal_strlit("/");
    reveal_strlit("ip4");
    reveal_strlit("tcp");
    reveal_strlit("http");
    reveal_strlit("https");
    let tail = if secure { "https"@ } else { "http"@ };
    let e = Seq::<char>::empty();
    let s1 = e + seq!['/'] + "ip4"@;
    let s2 = s1 + seq!['/'] + host;
    let s3 = s2 + seq!['/'] + "tcp"@;
    let s4 = s3 + seq!['/'] + port;
    let s5 = s4 + seq!['/'] + tail;
    assert(s5 =~= advertised(host, port, secure));
    assert(free_of("ip4"@, '/'));
    assert(free_of("tcp"@, '/'));
    assert(free_of(tail, '/'));
    lemma_scan_piece(e, "ip4"@, '/');
    assert(nonempty_pieces(e, '/') == Seq::<Seq<char>>::empty());
    lemma_scan_piece(s1, host, '/');
    assert(nonempty_pieces(s1, '/') =~= seq!["ip4"@]);
    lemma_scan_piece(s2, "tcp"@, '/');
    assert(nonempty_pieces(s2, '/') =~= seq!["ip4"@, host]);
    lemma_scan_piece(s3, port, '/');
    assert(nonempty_pieces(s3, '/') =~= seq!["ip4"@, host, "tcp"@]);
    lemma_scan_piece(s4, tail, '/');
    assert(nonempty_pieces(s4, '/') =~= seq!["ip4"@, host, "tcp"@, port]);
    assert(nonempty_pieces(s5, '/') =~= seq!["ip4"@, host, "tcp"@, port, tail]);
}

proof fn lemma_http_base_of_advertised(host: Seq<char>, port: Seq<char>, secure: bool)
    requires
        host.len() > 0,
        port.len() > 0,
        free_of(host, '/'),
        free_of(port, '/'),
    ensures
        http_base_of(advertised(host, port, secure)) == Some(http_base_text(host, port, secure)),
{
    reveal_strlit("http://");
    reveal_strlit("https://");
    reveal_strlit("/ip4/");
    reveal_strlit(":");
    reveal_strlit("://");
    reveal_strlit("http");
    reveal_strlit("https");
    let m = advertised(host, port, secure);
    let tail = if secure { "https"@ } else { "http"@ };
    assert(m.last() == tail.last());
    assert(trim_end(m, '/') == m);
    assert(m[0] == '/');
    assert(!has_prefix(m, "http://"@)) by {
        if "http://"@.len() <= m.len() {
            assert(m.take(7)[0] == '/');
        }
    }
    assert(!has_prefix(m, "https://"@)) by {
        if "https://"@.len() <= m.len() {
            assert(m.take(8)[0] == '/');
        }
    }
    lemma_pieces_of_advertised(host, port, secure);
    let parts = nonempty_pieces(m, '/');
    if !secure {
        assert(parts[4].len() != "https"@.len());
    }
    let proto = if secure { "https"@ } else { "http"@ };
    assert(proto + "://"@ + host + ":"@ + port =~= http_base_text(host, port, secure));
}

/// A node recognizes the address it advertises: for a base `http://host:port` (or `https://`)
/// whose host holds no `:` or `/` and whose port holds no `/`, both non-empty, the HTTP base of
/// the multiaddr that advertises it is the base itself.
pub proof fn law_advertised_base_roundtrip(host: Seq<char>, port: Seq<char>, secure: bool)
    requires
        host.len() > 0,
        port.len() > 0,
        free_of(host, ':'),
        free_of(host, '/'),
        free_of(port, '/'),
    ensures
        http_base_of(multiaddr_of(http_base_text(host, port, secure))) == Some(http_base_text(host, port, secure)),
{
    if secure {
        lemma_multiaddr_of_https(host, port);
    } else {
        lemma_multiaddr_of_http(host, port);
    }
    lemma_http_base_of_advertised(host, port, secure);
}

} // verus!

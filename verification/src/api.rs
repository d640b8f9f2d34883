//! The decisions of the HTTP API: query defaults, where a client connects
//! from, power requests and static assets.

use crate::config::ServerConfig;
use crate::docker::{lemma_trim_leading_result, trim_leading, trim_leading_chars};
use crate::system::PowerAction;
use crate::text::{
    begins_with, chars_of, contains_chars, find_char, has_infix, is_text, lemma_find_char,
    push_chars, string_from, trim, trim_chars,
};
use vstd::prelude::*;

verus! {

/// The query of `GET /api/history`.
#[derive(Clone, Debug)]
pub struct HistoryQuery {
    pub seconds: Option<i64>,
}

/// The query of `GET /api/ping`.
#[derive(Clone, Debug)]
pub struct PingQuery {
    pub client_net: Option<String>,
}

/// The answer to `GET /api/ping`.
#[derive(Clone, Debug)]
pub struct PingResponse {
    pub status: &'static str,
    pub server_time_ms: u128,
    pub client_ip: String,
    pub connection_type: String,
    pub route: String,
}

/// The answer to a power request.
#[derive(Clone, Debug)]
pub struct SystemActionResponse {
    pub success: bool,
    pub message: String,
}

impl HistoryQuery {
    /// The span of history asked for, in seconds: a day unless given, and
    /// never less than a minute.
    pub fn window_seconds(&self) -> (s: i64)
        ensures
            s == (match self.seconds {
                Some(v) => if v < 60 {
                    60
                } else {
                    v
                },
                None => 86400,
            }),
            s >= 60,
    {
        let v = match self.seconds {
            Some(v) => v,
            None => 86400,
        };
        if v < 60 {
            60
        } else {
            v
        }
    }
}

/// The text before the first comma of `s` (all of it when there is none).
pub open spec fn before_comma(s: Seq<char>) -> Seq<char> {
    let i = find_char(s, ',');
    if i < 0 {
        s
    } else {
        s.subrange(0, i)
    }
}

/// The client's address: the peer address of the connection when known,
/// else the first address in `X-Forwarded-For`, else `X-Real-IP`, else
/// `127.0.0.1`. Header values are trimmed.
pub open spec fn client_ip_of(
    peer: Option<Seq<char>>,
    forwarded_for: Option<Seq<char>>,
    real_ip: Option<Seq<char>>,
) -> Seq<char> {
    match peer {
        Some(p) => p,
        None => match forwarded_for {
            Some(f) => trim(before_comma(f)),
            None => match real_ip {
                Some(r) => trim(r),
                None => "127.0.0.1"@,
            },
        },
    }
}

/// The contents of an optional string.
pub open spec fn opt_text(s: Option<String>) -> Option<Seq<char>> {
    match s {
        Some(v) => Some(v@),
        None => None,
    }
}

/// The characters of `s` before its first comma.
fn chars_before_comma(s: &[char]) -> (r: Vec<char>)
    ensures
        r@ == before_comma(s@),
{
    let mut r: Vec<char> = Vec::new();
    let mut i: usize = 0;
    while i < s.len() && s[i] != ','
        invariant
            i <= s@.len(),
            r@ == s@.subrange(0, i as int),
            forall|k: int| 0 <= k < i ==> s@[k] != ',',
        decreases s@.len() - i,
    {
        r.push(s[i]);
        proof {
            assert(s@.subrange(0, i + 1) =~= s@.subrange(0, i as int).push(s@[i as int]));
        }
        i = i + 1;
    }
    proof {
        lemma_find_char(s@, ',', i as int);
        if i == s@.len() {
            assert(s@.subrange(0, i as int) =~= s@);
        }
    }
    r
}

/// The client's address, from the connection's peer address and the
/// `X-Forwarded-For` and `X-Real-IP` headers.
pub fn resolve_client_ip(
    peer: Option<String>,
    forwarded_for: Option<String>,
    real_ip: Option<String>,
) -> (ip: String)
    ensures
        ip@ == client_ip_of(opt_text(peer), opt_text(forwarded_for), opt_text(real_ip)),
{
    match peer {
        Some(p) => p,
        None => match forwarded_for {
            Some(f) => {
                let cs = chars_of(f.as_str());
                let first = chars_before_comma(cs.as_slice());
                let t = trim_chars(first.as_slice());
                let mut r = String::new();
                push_chars(&mut r, t.as_slice());
                r
            },
            None => match real_ip {
                Some(x) => {
                    let cs = chars_of(x.as_str());
                    let t = trim_chars(cs.as_slice());
                    let mut r = String::new();
                    push_chars(&mut r, t.as_slice());
                    r
                },
                None => string_from("127.0.0.1"),
            },
        },
    }
}

/// How the client reaches the server, as a connection type and a route
/// description, decided by the first rule that matches:
/// loopback (the client is 127.0.0.1 or ::1, or the Host header names
/// localhost or 127.0.0.1); the Tailscale VPN (the client is in 100.x or
/// the Tailscale IPv6 range, or the Host is a .ts.net name or in 100.x);
/// the WLAN (the Host is the server's Wi-Fi address or the client says
/// `wifi`); the wired LAN (the Host is the router-side address or the
/// client says `ethernet`); the WLAN (the client has the Wi-Fi address);
/// the home LAN (the client is in a private range); else a remote
/// connection.
pub open spec fn connection_route(
    ip: Seq<char>,
    host: Seq<char>,
    net: Option<Seq<char>>,
) -> (Seq<char>, Seq<char>) {
    if ip == "127.0.0.1"@ || ip == "::1"@ || "localhost"@.is_prefix_of(host)
        || "127.0.0.1"@.is_prefix_of(host) {
        ("loopback"@, "Localhost Loopback"@)
    } else if "100."@.is_prefix_of(ip) || has_infix(host, ".ts.net"@) || "100."@.is_prefix_of(
        host,
    ) || "fd7a:115c:"@.is_prefix_of(ip) {
        ("vpn"@, "Tailscale Mesh VPN (tailscale0)"@)
    } else if "192.168.1.17"@.is_prefix_of(host) || net == Some("wifi"@) {
        ("wlan"@, "Wireless WLAN (wlp3s0)"@)
    } else if "192.168.1.1"@.is_prefix_of(host) || net == Some("ethernet"@) {
        ("lan"@, "Wired LAN (enp2s0)"@)
    } else if "192.168.1.17"@.is_prefix_of(ip) {
        ("wlan"@, "Wireless WLAN (wlp3s0)"@)
    } else if "192.168.1."@.is_prefix_of(ip) || "10."@.is_prefix_of(ip) || "172."@.is_prefix_of(
        ip,
    ) {
        ("lan"@, "Local Home LAN"@)
    } else {
        ("vpn"@, "Remote Connection"@)
    }
}

/// A client in a private range (its address begins with `10.`, `172.` or
/// `192.168.1.` but not `192.168.1.17`) whose Host header names neither
/// localhost, nor a Tailscale name or address, nor the server's LAN
/// addresses, and which says nothing of its network, is on the home LAN.
pub proof fn law_private_client_is_home_lan(ip: Seq<char>, host: Seq<char>)
    requires
        "10."@.is_prefix_of(ip) || "172."@.is_prefix_of(ip) || ("192.168.1."@.is_prefix_of(ip)
            && !"192.168.1.17"@.is_prefix_of(ip)),
        !"localhost"@.is_prefix_of(host),
        !"127.0.0.1"@.is_prefix_of(host),
        !has_infix(host, ".ts.net"@),
        !"100."@.is_prefix_of(host),
        !"192.168.1.1"@.is_prefix_of(host),
    ensures
        connection_route(ip, host, None) == ("lan"@, "Local Home LAN"@),
{
    reveal_strlit("10.");
    reveal_strlit("172.");
    reveal_strlit("192.168.1.");
    reveal_strlit("192.168.1.1");
    reveal_strlit("192.168.1.17");
    reveal_strlit("127.0.0.1");
    reveal_strlit("::1");
    reveal_strlit("100.");
    reveal_strlit("fd7a:115c:");
    assert(ip.len() >= 3);
    let c0 = ip[0];
    let c1 = ip[1];
    if "10."@.is_prefix_of(ip) {
        assert(ip[0] == "10."@[0] && ip[1] == "10."@[1] && ip[2] == "10."@[2]);
        assert(c0 == '1' && c1 == '0' && ip[2] == '.');
    } else if "172."@.is_prefix_of(ip) {
        assert(ip[0] == "172."@[0] && ip[1] == "172."@[1]);
        assert(c0 == '1' && c1 == '7');
    } else {
        assert(ip[0] == "192.168.1."@[0] && ip[1] == "192.168.1."@[1]);
        assert(c0 == '1' && c1 == '9');
    }
    assert(ip != "127.0.0.1"@) by {
        if ip == "127.0.0.1"@ {
            assert(ip[1] == "127.0.0.1"@[1]);
        }
    }
    assert(ip != "::1"@) by {
        if ip == "::1"@ {
            assert(ip[0] == "::1"@[0]);
        }
    }
    assert(!"100."@.is_prefix_of(ip)) by {
        if "100."@.is_prefix_of(ip) {
            assert(ip[1] == "100."@[1] && ip[2] == "100."@[2]);
        }
    }
    assert(!"fd7a:115c:"@.is_prefix_of(ip)) by {
        if "fd7a:115c:"@.is_prefix_of(ip) {
            assert(ip[0] == "fd7a:115c:"@[0]);
        }
    }
    assert(!"192.168.1.17"@.is_prefix_of(host)) by {
        if "192.168.1.17"@.is_prefix_of(host) {
            assert forall|k: int| 0 <= k < "192.168.1.1"@.len() implies "192.168.1.1"@[k] == host[k] by {
                assert("192.168.1.1"@[k] == "192.168.1.17"@[k]);
            }
            assert("192.168.1.1"@.is_prefix_of(host));
        }
    }
    assert(!"192.168.1.17"@.is_prefix_of(ip)) by {
        if "192.168.1.17"@.is_prefix_of(ip) {
            assert(ip[0] == "192.168.1.17"@[0] && ip[1] == "192.168.1.17"@[1]);
        }
    }
}

/// How the client reaches the server: the connection type and the route.
pub fn classify_connection(client_ip: &str, host: &str, client_net: Option<&str>) -> (r: (
    &'static str,
    &'static str,
))
    ensures
        (r.0@, r.1@) == connection_route(
            client_ip@,
            host@,
            match client_net {
                Some(n) => Some(n@),
                None => None,
            },
        ),
{
    let ip = chars_of(client_ip);
    let h = chars_of(host);
    let (wifi, ethernet) = match client_net {
        Some(n) => {
            let nc = chars_of(n);
            (is_text(nc.as_slice(), "wifi"), is_text(nc.as_slice(), "ethernet"))
        },
        None => (false, false),
    };
    let ts = chars_of(".ts.net");
    if is_text(ip.as_slice(), "127.0.0.1") || is_text(ip.as_slice(), "::1") || begins_with(
        h.as_slice(),
        "localhost",
    ) || begins_with(h.as_slice(), "127.0.0.1") {
        ("loopback", "Localhost Loopback")
    } else if begins_with(ip.as_slice(), "100.") || contains_chars(h.as_slice(), ts.as_slice())
        || begins_with(h.as_slice(), "100.") || begins_with(ip.as_slice(), "fd7a:115c:") {
        ("vpn", "Tailscale Mesh VPN (tailscale0)")
    } else if begins_with(h.as_slice(), "192.168.1.17") || wifi {
        ("wlan", "Wireless WLAN (wlp3s0)")
    } else if begins_with(h.as_slice(), "192.168.1.1") || ethernet {
        ("lan", "Wired LAN (enp2s0)")
    } else if begins_with(ip.as_slice(), "192.168.1.17") {
        ("wlan", "Wireless WLAN (wlp3s0)")
    } else if begins_with(ip.as_slice(), "192.168.1.") || begins_with(ip.as_slice(), "10.") || begins_with(
        ip.as_slice(),
        "172.",
    ) {
        ("lan", "Local Home LAN")
    } else {
        ("vpn", "Remote Connection")
    }
}

/// The answer to a ping at `server_time_ms`: status `ok`, the client's
/// address and how it reaches the server. `host` is the Host header, if any.
pub fn ping_response(
    server_time_ms: u128,
    peer: Option<String>,
    forwarded_for: Option<String>,
    real_ip: Option<String>,
    host: Option<String>,
    query: &PingQuery,
) -> (r: PingResponse)
    ensures
        r.status@ == "ok"@,
        r.server_time_ms == server_time_ms,
        r.client_ip@ == client_ip_of(opt_text(peer), opt_text(forwarded_for), opt_text(real_ip)),
        (r.connection_type@, r.route@) == connection_route(
            r.client_ip@,
            match host {
                Some(h) => h@,
                None => Seq::<char>::empty(),
            },
            opt_text(query.client_net),
        ),
{
    let client_ip = resolve_client_ip(peer, forwarded_for, real_ip);
    let host_text = match &host {
        Some(h) => h.clone(),
        None => String::new(),
    };
    let net: Option<&str> = match &query.client_net {
        Some(n) => Some(n.as_str()),
        None => None,
    };
    let (kind, route) = classify_connection(client_ip.as_str(), host_text.as_str(), net);
    PingResponse {
        status: "ok",
        server_time_ms,
        client_ip,
        connection_type: string_from(kind),
        route: string_from(route),
    }
}

/// What a power request is answered, and whether the action is carried out.
#[derive(Clone, Debug)]
pub struct PowerRequestOutcome {
    /// The HTTP status: 200 or 403.
    pub status_code: u16,
    pub response: SystemActionResponse,
    /// Whether the host action is to be scheduled.
    pub execute: bool,
}

/// The message of a refused power request.
pub open spec fn refusal_message(a: PowerAction) -> Seq<char> {
    match a {
        PowerAction::Shutdown => "Shutdown is disabled in server configuration"@,
        PowerAction::Reboot => "Reboot is disabled in server configuration"@,
    }
}

/// The message of an accepted power request.
pub open spec fn acceptance_message(a: PowerAction) -> Seq<char> {
    match a {
        PowerAction::Shutdown => "Server shutdown sequence initiated"@,
        PowerAction::Reboot => "Server reboot sequence initiated"@,
    }
}

/// Decides a request to shut down or reboot the host: refused with 403
/// when the configuration disables power actions, else accepted with 200
/// and the action scheduled.
pub fn power_request(server: &ServerConfig, action: PowerAction) -> (o: PowerRequestOutcome)
    ensures
        o.execute == server.enable_shutdown,
        o.response.success == server.enable_shutdown,
        o.status_code == if server.enable_shutdown {
            200u16
        } else {
            403u16
        },
        o.response.message@ == if server.enable_shutdown {
            acceptance_message(action)
        } else {
            refusal_message(action)
        },
{
    if !server.enable_shutdown {
        let message = match action {
            PowerAction::Shutdown => string_from("Shutdown is disabled in server configuration"),
            PowerAction::Reboot => string_from("Reboot is disabled in server configuration"),
        };
        PowerRequestOutcome {
            status_code: 403,
            response: SystemActionResponse { success: false, message },
            execute: false,
        }
    } else {
        let message = match action {
            PowerAction::Shutdown => string_from("Server shutdown sequence initiated"),
            PowerAction::Reboot => string_from("Server reboot sequence initiated"),
        };
        PowerRequestOutcome {
            status_code: 200,
            response: SystemActionResponse { success: true, message },
            execute: true,
        }
    }
}

/// The embedded asset a request path names: the path without leading `/`,
/// or `index.html` when nothing is left.
pub open spec fn asset_path_of(uri_path: Seq<char>) -> Seq<char> {
    let p = trim_leading(uri_path, '/');
    if p.len() == 0 {
        "index.html"@
    } else {
        p
    }
}

/// An asset path is never empty and never begins with `/`.
pub proof fn law_asset_path_is_relative(uri_path: Seq<char>)
    ensures
        asset_path_of(uri_path).len() > 0,
        asset_path_of(uri_path)[0] != '/',
{
    lemma_trim_leading_result(uri_path, '/');
    reveal_strlit("index.html");
}

/// The embedded asset a request path names.
pub fn asset_path(uri_path: &str) -> (p: String)
    ensures
        p@ == asset_path_of(uri_path@),
{
    let cs = chars_of(uri_path);
    let t = trim_leading_chars(cs.as_slice(), '/');
    if t.len() == 0 {
        string_from("index.html")
    } else {
        let mut p = String::new();
        push_chars(&mut p, t.as_slice());
        p
    }
}

/// The MIME type `mime_guess` gives a path by its extension.
pub uninterp spec fn mime_type_for(path: Seq<char>) -> Seq<char>;

/// Calls `mime_guess::from_path(path).first_or_octet_stream()`: the first
/// MIME type registered for the extension of `path`, or
/// `application/octet-stream`. What that type is, the contract leaves to
/// the name `mime_type_for`; it depends on `path` alone.
#[verifier::external_body]
fn guess_mime(path: &str) -> (m: String)
    ensures
        m@ == mime_type_for(path@),
{
    mime_guess::from_path(path).first_or_octet_stream().as_ref().to_string()
}

/// How a request for a static asset is answered.
#[derive(Clone, Debug)]
pub enum StaticReply {
    /// Serve the embedded file `path` with this content type.
    Serve { path: String, content_type: String },
    /// Nothing to serve: 404.
    NotFound,
}

/// Answers a request for the asset `path` (see `asset_path`): the asset
/// itself when it is embedded, typed by its extension; else the index page,
/// for client-side routing; else 404.
pub fn static_reply(path: &str, asset_found: bool, index_found: bool) -> (r: StaticReply)
    ensures
        asset_found ==> (r matches StaticReply::Serve { path: p, content_type: t } && p@ == path@
            && t@ == mime_type_for(path@)),
        !asset_found && index_found ==> (r matches StaticReply::Serve { path: p, content_type: t }
            && p@ == "index.html"@ && t@ == "text/html; charset=utf-8"@),
        !asset_found && !index_found ==> r is NotFound,
{
    if asset_found {
        StaticReply::Serve { path: string_from(path), content_type: guess_mime(path) }
    } else if index_found {
        StaticReply::Serve {
            path: string_from("index.html"),
            content_type: string_from("text/html; charset=utf-8"),
        }
    } else {
        StaticReply::NotFound
    }
}

/// The cache policy of static assets.
pub fn static_cache_control() -> (s: &'static str)
    ensures
        s@ == "no-cache, must-revalidate"@,
{
    "no-cache, must-revalidate"
}

/// The cache policy of ping answers.
pub fn ping_cache_control() -> (s: &'static str)
    ensures
        s@ == "no-store, no-cache, must-revalidate"@,
{
    "no-store, no-cache, must-revalidate"
}

} // verus!

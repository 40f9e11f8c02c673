//! The per-request dispatch: preflight, health, relay, or not-found,
//! resolved in one step from the method, the path and the headers.
//! The relay branch validates the destination against the allowlist
//! and either rejects with a finished response or hands back a send
//! directive for the connection layer to carry out.

use vstd::prelude::*;

use crate::allowlist::is_allowed_spec;
use crate::allowlist::ProxyConfig;
use crate::http::header_lookup;
use crate::http::header_value;
use crate::http::headers_view;
use crate::http::HttpResponse;
use crate::http::Method;
use crate::http::RequestHead;
use crate::respond::error_body;
use crate::respond::health_body;
use crate::respond::health_response;
use crate::respond::json_error_response;
use crate::respond::preflight_response;
use crate::respond::response_spec;
use crate::text::eq_str;
use crate::text::parse_u16;
use crate::text::parse_u16_spec;

verus! {

/// What one dispatch step resolves to: either a finished response, or
/// a directive to send the request body as one datagram to `host` and
/// `port` (the only case in which the body is read at all).
pub enum RouteAction {
    Respond(HttpResponse),
    Relay { host: String, port: u16 },
}

/// The destination host a request asks for: the `X-UDP-Host` header,
/// or the loopback address when the header is absent.
pub open spec fn relay_host_spec(hs: Seq<(Seq<char>, Seq<char>)>) -> Seq<char> {
    match header_lookup(hs, "x-udp-host"@) {
        Some(v) => v,
        None => "127.0.0.1"@,
    }
}

/// The destination port a request asks for: the `X-UDP-Port` header
/// parsed as an unsigned sixteen-bit integer, or the default port when
/// the header is absent or does not parse (a parse failure falls back
/// silently rather than erroring).
pub open spec fn relay_port_spec(hs: Seq<(Seq<char>, Seq<char>)>) -> u16 {
    match header_lookup(hs, "x-udp-port"@) {
        Some(v) => match parse_u16_spec(v) {
            Some(p) => p,
            None => 8087,
        },
        None => 8087,
    }
}

/// The message a blocked destination is rejected with.
pub open spec fn not_allowed_message() -> Seq<char> {
    "UDP destination not allowed. Configure ALLOWED_UDP_HOSTS environment variable."@
}

/// What a correct decision on a relay request looks like: a blocked
/// host is answered 403 with the not-allowed body and nothing is sent;
/// an explicit port of zero is answered 400; otherwise the decision is
/// a send directive for exactly the requested host and port.
pub open spec fn relay_decision_ok(
    patterns: Option<Seq<Seq<char>>>,
    hs: Seq<(Seq<char>, Seq<char>)>,
    r: RouteAction,
) -> bool {
    let host = relay_host_spec(hs);
    let port = relay_port_spec(hs);
    if !is_allowed_spec(patterns, host) {
        r matches RouteAction::Respond(p) && response_spec(
            p,
            403,
            true,
            error_body(not_allowed_message()),
        )
    } else if port < 1 {
        r matches RouteAction::Respond(p) && response_spec(
            p,
            400,
            true,
            error_body("Invalid UDP port number"@),
        )
    } else {
        r matches RouteAction::Relay { host: h, port: q } && h@ == host && q == port
    }
}

/// Resolves one request: preflight requests are answered 200 with an
/// empty body, a health probe with the fixed health body, a relay
/// request by `relay_decision_ok`, and everything else 404 — every
/// response carrying the CORS headers.
pub fn route(config: &ProxyConfig, req: &RequestHead) -> (r: RouteAction)
    ensures
        req.method is Options ==> (r matches RouteAction::Respond(p) && response_spec(
            p,
            200,
            false,
            Seq::<char>::empty(),
        )),
        req.method is Get && req.path@ == "/"@ ==> (r matches RouteAction::Respond(p)
            && response_spec(p, 200, true, health_body())),
        req.method is Post && req.path@ == "/cot"@ ==> relay_decision_ok(
            config@,
            headers_view(req.headers@),
            r,
        ),
        !(req.method is Options) && !(req.method is Get && req.path@ == "/"@) && !(req.method
            is Post && req.path@ == "/cot"@) ==> (r matches RouteAction::Respond(p)
            && response_spec(p, 404, true, error_body("Not found"@))),
{
    match req.method {
        Method::Options => RouteAction::Respond(preflight_response()),
        Method::Get => {
            if eq_str(req.path.as_str(), "/") {
                RouteAction::Respond(health_response())
            } else {
                RouteAction::Respond(json_error_response(404, "Not found"))
            }
        },
        Method::Post => {
            if eq_str(req.path.as_str(), "/cot") {
                relay_decide(config, req)
            } else {
                RouteAction::Respond(json_error_response(404, "Not found"))
            }
        },
        Method::Other => RouteAction::Respond(json_error_response(404, "Not found")),
    }
}

/// Decides a relay request: extracts the destination, checks it
/// against the allowlist, rejects a zero port, and otherwise directs
/// the caller to send.
fn relay_decide(config: &ProxyConfig, req: &RequestHead) -> (r: RouteAction)
    ensures
        relay_decision_ok(config@, headers_view(req.headers@), r),
{
    let host: String = match header_value(&req.headers, "x-udp-host") {
        Some(v) => v,
        None => String::from_str("127.0.0.1"),
    };
    let port: u16 = match header_value(&req.headers, "x-udp-port") {
        Some(v) => match parse_u16(v.as_str()) {
            Some(p) => p,
            None => 8087,
        },
        None => 8087,
    };
    proof {
        assert(host@ == relay_host_spec(headers_view(req.headers@)));
        assert(port == relay_port_spec(headers_view(req.headers@)));
    }
    if !config.is_allowed_host(host.as_str()) {
        RouteAction::Respond(
            json_error_response(
                403,
                "UDP destination not allowed. Configure ALLOWED_UDP_HOSTS environment variable.",
            ),
        )
    } else if port < 1 {
        RouteAction::Respond(json_error_response(400, "Invalid UDP port number"))
    } else {
        RouteAction::Relay { host, port }
    }
}

/// Identical relay requests are decided independently and identically:
/// the decision is a function of the configuration and the request
/// alone, so each of two equal admitted requests gets its own send
/// directive, to the same destination both times — nothing is cached
/// or deduplicated between requests.
pub proof fn lemma_relay_requests_independent(
    patterns: Option<Seq<Seq<char>>>,
    hs: Seq<(Seq<char>, Seq<char>)>,
    r1: RouteAction,
    r2: RouteAction,
)
    requires
        relay_decision_ok(patterns, hs, r1),
        relay_decision_ok(patterns, hs, r2),
        is_allowed_spec(patterns, relay_host_spec(hs)),
        relay_port_spec(hs) >= 1,
    ensures
        r1 matches RouteAction::Relay { host: h1, port: p1 } && (r2 matches RouteAction::Relay {
            host: h2,
            port: p2,
        } && h1@ == h2@ && p1 == p2),
{
}

} // verus!

//! Response shaping: the CORS header set that every response carries,
//! and the exact JSON bodies for success, error and health responses.

use vstd::prelude::*;

use crate::http::headers_view;
use crate::http::HttpResponse;
use crate::json::append_json_escaped;
use crate::json::json_escape;
use crate::text::append_u64;
use crate::text::dec_spec;

verus! {

/// The CORS headers attached to every response, in order.
pub open spec fn cors_headers_spec() -> Seq<(Seq<char>, Seq<char>)> {
    seq![
        ("Access-Control-Allow-Origin"@, "*"@),
        ("Access-Control-Allow-Methods"@, "POST, OPTIONS"@),
        ("Access-Control-Allow-Headers"@, "Content-Type, X-UDP-Host, X-UDP-Port"@),
    ]
}

/// The header that marks a JSON body.
pub open spec fn json_content_type() -> (Seq<char>, Seq<char>) {
    ("Content-Type"@, "application/json"@)
}

/// What every response the service produces looks like: the given
/// status, the CORS headers — followed by the JSON content type when
/// the body is JSON — and exactly the given body.
pub open spec fn response_spec(r: HttpResponse, status: u16, json: bool, body: Seq<char>) -> bool {
    &&& r.status == status
    &&& headers_view(r.headers@) == (if json {
        cors_headers_spec().push(json_content_type())
    } else {
        cors_headers_spec()
    })
    &&& r.body@ == body
}

/// The error body: `success` false and the escaped message.
pub open spec fn error_body(msg: Seq<char>) -> Seq<char> {
    "{\"success\":false,\"error\":\""@ + json_escape(msg) + "\"}"@
}

/// The success body: `success` true, the escaped destination, and the
/// number of bytes relayed.
pub open spec fn success_body(dest: Seq<char>, size: nat) -> Seq<char> {
    "{\"success\":true,\"destination\":\""@ + json_escape(dest) + "\",\"size\":"@ + dec_spec(size)
        + "}"@
}

/// The health body is one fixed JSON object.
pub open spec fn health_body() -> Seq<char> {
    "{\"status\":\"running\",\"service\":\"CoT UDP Proxy\",\"version\":\"1.0.0\"}"@
}

fn push_header(v: &mut Vec<(String, String)>, name: &str, value: &str)
    ensures
        headers_view(final(v)@) =~= headers_view(old(v)@).push((name@, value@)),
{
    let n = String::from_str(name);
    let w = String::from_str(value);
    v.push((n, w));
}

fn base_headers(json: bool) -> (r: Vec<(String, String)>)
    ensures
        headers_view(r@) == (if json {
            cors_headers_spec().push(json_content_type())
        } else {
            cors_headers_spec()
        }),
{
    let mut v: Vec<(String, String)> = Vec::new();
    proof {
        assert(headers_view(v@) =~= Seq::<(Seq<char>, Seq<char>)>::empty());
    }
    push_header(&mut v, "Access-Control-Allow-Origin", "*");
    push_header(&mut v, "Access-Control-Allow-Methods", "POST, OPTIONS");
    push_header(&mut v, "Access-Control-Allow-Headers", "Content-Type, X-UDP-Host, X-UDP-Port");
    proof {
        assert(headers_view(v@) =~= cors_headers_spec());
    }
    if json {
        push_header(&mut v, "Content-Type", "application/json");
        proof {
            assert(headers_view(v@) =~= cors_headers_spec().push(json_content_type()));
        }
    }
    v
}

/// The empty-bodied preflight answer.
pub fn preflight_response() -> (r: HttpResponse)
    ensures
        response_spec(r, 200, false, Seq::<char>::empty()),
{
    HttpResponse { status: 200, headers: base_headers(false), body: String::new() }
}

/// The health answer.
pub fn health_response() -> (r: HttpResponse)
    ensures
        response_spec(r, 200, true, health_body()),
{
    let body = String::from_str(
        "{\"status\":\"running\",\"service\":\"CoT UDP Proxy\",\"version\":\"1.0.0\"}",
    );
    HttpResponse { status: 200, headers: base_headers(true), body }
}

/// A JSON error answer with the given status and message.
pub fn json_error_response(status: u16, msg: &str) -> (r: HttpResponse)
    ensures
        response_spec(r, status, true, error_body(msg@)),
{
    let mut body = String::from_str("{\"success\":false,\"error\":\"");
    append_json_escaped(&mut body, msg);
    body.append("\"}");
    proof {
        assert(body@ =~= error_body(msg@));
    }
    HttpResponse { status, headers: base_headers(true), body }
}

/// The success answer for a relay of `size` bytes to `dest`.
pub fn success_response(dest: &str, size: usize) -> (r: HttpResponse)
    ensures
        response_spec(r, 200, true, success_body(dest@, size as nat)),
{
    let mut body = String::from_str("{\"success\":true,\"destination\":\"");
    append_json_escaped(&mut body, dest);
    body.append("\",\"size\":");
    append_u64(&mut body, size as u64);
    body.append("}");
    proof {
        assert(body@ =~= success_body(dest@, size as nat));
    }
    HttpResponse { status: 200, headers: base_headers(true), body }
}

/// The `host:port` form of a relay destination.
pub fn destination_string(host: &str, port: u16) -> (r: String)
    ensures
        r@ == host@ + seq![':'] + dec_spec(port as nat),
{
    let mut d = host.to_owned();
    proof {
        reveal_strlit(":");
        assert(":"@ =~= seq![':']);
    }
    d.append(":");
    append_u64(&mut d, port as u64);
    proof {
        assert(d@ =~= host@ + seq![':'] + dec_spec(port as nat));
    }
    d
}

/// The answer when the request body could not be read.
pub fn body_read_error_response(detail: &str) -> (r: HttpResponse)
    ensures
        response_spec(r, 500, true, error_body("Error reading body: "@ + detail@)),
{
    let mut msg = String::from_str("Error reading body: ");
    msg.append(detail);
    json_error_response(500, msg.as_str())
}

/// The answer when no outbound socket could be acquired.
pub fn socket_error_response(detail: &str) -> (r: HttpResponse)
    ensures
        response_spec(r, 500, true, error_body("Error creating UDP socket: "@ + detail@)),
{
    let mut msg = String::from_str("Error creating UDP socket: ");
    msg.append(detail);
    json_error_response(500, msg.as_str())
}

/// The answer when the datagram send itself failed.
pub fn send_error_response(detail: &str) -> (r: HttpResponse)
    ensures
        response_spec(r, 500, true, error_body("UDP send error: "@ + detail@)),
{
    let mut msg = String::from_str("UDP send error: ");
    msg.append(detail);
    json_error_response(500, msg.as_str())
}

} // verus!

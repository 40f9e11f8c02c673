use cot_udp_proxy::respond::body_read_error_response;
use cot_udp_proxy::respond::destination_string;
use cot_udp_proxy::respond::health_response;
use cot_udp_proxy::respond::json_error_response;
use cot_udp_proxy::respond::preflight_response;
use cot_udp_proxy::respond::send_error_response;
use cot_udp_proxy::respond::socket_error_response;
use cot_udp_proxy::respond::success_response;

#[test]
fn success_body_is_exact_json() {
    let resp = success_response("239.2.3.1:8087", 42);
    assert_eq!(resp.status, 200);
    assert_eq!(
        resp.body,
        "{\"success\":true,\"destination\":\"239.2.3.1:8087\",\"size\":42}"
    );
}

#[test]
fn success_body_for_empty_payload() {
    let resp = success_response("127.0.0.1:8087", 0);
    assert_eq!(
        resp.body,
        "{\"success\":true,\"destination\":\"127.0.0.1:8087\",\"size\":0}"
    );
}

#[test]
fn json_responses_carry_content_type_after_cors() {
    let resp = health_response();
    let names: Vec<&str> = resp.headers.iter().map(|h| h.0.as_str()).collect();
    assert_eq!(
        names,
        vec![
            "Access-Control-Allow-Origin",
            "Access-Control-Allow-Methods",
            "Access-Control-Allow-Headers",
            "Content-Type",
        ]
    );
    assert_eq!(resp.headers[3].1, "application/json");
}

#[test]
fn preflight_carries_cors_and_no_content_type() {
    let resp = preflight_response();
    assert_eq!(resp.status, 200);
    assert_eq!(resp.body, "");
    let names: Vec<&str> = resp.headers.iter().map(|h| h.0.as_str()).collect();
    assert_eq!(
        names,
        vec![
            "Access-Control-Allow-Origin",
            "Access-Control-Allow-Methods",
            "Access-Control-Allow-Headers",
        ]
    );
}

#[test]
fn error_message_is_json_escaped() {
    let resp = json_error_response(500, "a\"b\\c\nd\tcontrol:\u{1}");
    assert_eq!(resp.status, 500);
    assert_eq!(
        resp.body,
        "{\"success\":false,\"error\":\"a\\\"b\\\\c\\nd\\tcontrol:\\u0001\"}"
    );
}

#[test]
fn io_error_responses_carry_their_prefixes() {
    let resp = body_read_error_response("unexpected end of file");
    assert_eq!(resp.status, 500);
    assert_eq!(
        resp.body,
        "{\"success\":false,\"error\":\"Error reading body: unexpected end of file\"}"
    );
    let resp = socket_error_response("address in use");
    assert_eq!(resp.status, 500);
    assert_eq!(
        resp.body,
        "{\"success\":false,\"error\":\"Error creating UDP socket: address in use\"}"
    );
    let resp = send_error_response("network unreachable");
    assert_eq!(resp.status, 500);
    assert_eq!(
        resp.body,
        "{\"success\":false,\"error\":\"UDP send error: network unreachable\"}"
    );
}

#[test]
fn destination_string_joins_host_and_port() {
    assert_eq!(destination_string("127.0.0.1", 8087), "127.0.0.1:8087");
    assert_eq!(destination_string("example.com", 1), "example.com:1");
    assert_eq!(destination_string("", 65535), ":65535");
}

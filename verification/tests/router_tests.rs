use cot_udp_proxy::allowlist::ProxyConfig;
use cot_udp_proxy::http::Method;
use cot_udp_proxy::http::RequestHead;
use cot_udp_proxy::respond::destination_string;
use cot_udp_proxy::respond::success_response;
use cot_udp_proxy::router::route;
use cot_udp_proxy::router::RouteAction;

fn request(method: Method, path: &str, headers: &[(&str, &str)]) -> RequestHead {
    RequestHead {
        method,
        path: path.to_string(),
        headers: headers.iter().map(|(n, v)| (n.to_string(), v.to_string())).collect(),
    }
}

#[test]
fn post_cot_without_headers_relays_to_defaults() {
    let config = ProxyConfig::new(None);
    let req = request(Method::Post, "/cot", &[]);
    match route(&config, &req) {
        RouteAction::Relay { host, port } => {
            assert_eq!(host, "127.0.0.1");
            assert_eq!(port, 8087);
            let dest = destination_string(&host, port);
            assert_eq!(dest, "127.0.0.1:8087");
            let resp = success_response(&dest, 5);
            assert_eq!(resp.status, 200);
            assert_eq!(
                resp.body,
                "{\"success\":true,\"destination\":\"127.0.0.1:8087\",\"size\":5}"
            );
        }
        RouteAction::Respond(_) => panic!("expected a relay directive"),
    }
}

#[test]
fn blocked_destination_gets_403_and_no_relay() {
    let config = ProxyConfig::new(Some(vec!["10.0.0.0/24".to_string()]));
    let req = request(Method::Post, "/cot", &[("X-UDP-Host", "8.8.8.8")]);
    match route(&config, &req) {
        RouteAction::Respond(resp) => {
            assert_eq!(resp.status, 403);
            assert_eq!(
                resp.body,
                "{\"success\":false,\"error\":\"UDP destination not allowed. \
                 Configure ALLOWED_UDP_HOSTS environment variable.\"}"
            );
        }
        RouteAction::Relay { .. } => panic!("a blocked destination must not be relayed"),
    }
}

#[test]
fn allowed_destination_header_is_relayed() {
    let config = ProxyConfig::new(Some(vec!["10.0.0.0/24".to_string()]));
    let req = request(
        Method::Post,
        "/cot",
        &[("X-UDP-Host", "10.0.0.9"), ("X-UDP-Port", "9000")],
    );
    match route(&config, &req) {
        RouteAction::Relay { host, port } => {
            assert_eq!(host, "10.0.0.9");
            assert_eq!(port, 9000);
        }
        RouteAction::Respond(_) => panic!("expected a relay directive"),
    }
}

#[test]
fn destination_headers_are_case_insensitive() {
    let config = ProxyConfig::new(None);
    let req = request(
        Method::Post,
        "/cot",
        &[("x-udp-host", "127.0.0.2"), ("X-UDP-PORT", "1234")],
    );
    match route(&config, &req) {
        RouteAction::Relay { host, port } => {
            assert_eq!(host, "127.0.0.2");
            assert_eq!(port, 1234);
        }
        RouteAction::Respond(_) => panic!("expected a relay directive"),
    }
}

#[test]
fn unparseable_port_falls_back_to_default() {
    let config = ProxyConfig::new(None);
    for bad in ["99999", "12ab", "", "-1", "80 "] {
        let req = request(Method::Post, "/cot", &[("X-UDP-Port", bad)]);
        match route(&config, &req) {
            RouteAction::Relay { port, .. } => assert_eq!(port, 8087),
            RouteAction::Respond(_) => panic!("expected a relay directive"),
        }
    }
}

#[test]
fn explicit_port_zero_is_rejected_with_400() {
    let config = ProxyConfig::new(None);
    let req = request(Method::Post, "/cot", &[("X-UDP-Port", "0")]);
    match route(&config, &req) {
        RouteAction::Respond(resp) => {
            assert_eq!(resp.status, 400);
            assert_eq!(
                resp.body,
                "{\"success\":false,\"error\":\"Invalid UDP port number\"}"
            );
        }
        RouteAction::Relay { .. } => panic!("a zero port must be rejected"),
    }
}

#[test]
fn options_preflight_gets_200_empty_body_with_cors() {
    let config = ProxyConfig::new(None);
    let req = request(Method::Options, "/cot", &[]);
    match route(&config, &req) {
        RouteAction::Respond(resp) => {
            assert_eq!(resp.status, 200);
            assert_eq!(resp.body, "");
            assert!(resp
                .headers
                .contains(&("Access-Control-Allow-Origin".to_string(), "*".to_string())));
            assert!(resp.headers.contains(&(
                "Access-Control-Allow-Methods".to_string(),
                "POST, OPTIONS".to_string()
            )));
            assert!(resp.headers.contains(&(
                "Access-Control-Allow-Headers".to_string(),
                "Content-Type, X-UDP-Host, X-UDP-Port".to_string()
            )));
        }
        RouteAction::Relay { .. } => panic!("preflight must not relay"),
    }
}

#[test]
fn health_probe_reports_running() {
    let config = ProxyConfig::new(None);
    let req = request(Method::Get, "/", &[]);
    match route(&config, &req) {
        RouteAction::Respond(resp) => {
            assert_eq!(resp.status, 200);
            assert_eq!(
                resp.body,
                "{\"status\":\"running\",\"service\":\"CoT UDP Proxy\",\"version\":\"1.0.0\"}"
            );
            assert!(resp.body.contains("\"status\":\"running\""));
        }
        RouteAction::Relay { .. } => panic!("a health probe must not relay"),
    }
}

#[test]
fn unknown_route_gets_404() {
    let config = ProxyConfig::new(None);
    for (method, path) in [
        (Method::Get, "/nonexistent"),
        (Method::Post, "/"),
        (Method::Get, "/cot"),
        (Method::Other, "/cot"),
    ] {
        let req = request(method, path, &[]);
        match route(&config, &req) {
            RouteAction::Respond(resp) => {
                assert_eq!(resp.status, 404);
                assert_eq!(resp.body, "{\"success\":false,\"error\":\"Not found\"}");
            }
            RouteAction::Relay { .. } => panic!("an unknown route must not relay"),
        }
    }
}

#[test]
fn identical_posts_each_get_their_own_datagram() {
    let config = ProxyConfig::new(None);
    let mut sent: Vec<(String, u16, Vec<u8>)> = Vec::new();
    let payload = b"hello".to_vec();
    for _ in 0..2 {
        let req = request(Method::Post, "/cot", &[]);
        match route(&config, &req) {
            RouteAction::Relay { host, port } => {
                sent.push((host.clone(), port, payload.clone()));
                let resp = success_response(&destination_string(&host, port), payload.len());
                assert_eq!(resp.status, 200);
            }
            RouteAction::Respond(_) => panic!("expected a relay directive"),
        }
    }
    assert_eq!(sent.len(), 2);
    assert_eq!(sent[0], sent[1]);
}

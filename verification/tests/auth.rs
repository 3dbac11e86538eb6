use alma_onebot_bridge::auth::{is_http_command_authorized, is_ws_authorized, RemoteAddr};
use alma_onebot_bridge::server::{
    check_announced_length, check_body, header_string, parse_route_id, query_map,
};
use alma_onebot_bridge::text::table::TextMap;

fn empty() -> TextMap<String> {
    TextMap::new()
}

fn with(key: &str, value: &str) -> TextMap<String> {
    let mut query: TextMap<String> = TextMap::new();
    query.insert(key, value.to_string());
    query
}

#[test]
fn ws_auth_allows_when_token_not_configured_or_blank() {
    assert!(is_ws_authorized(None, None, &empty()));
    assert!(is_ws_authorized(Some("   "), None, &empty()));
}

#[test]
fn ws_auth_accepts_bearer_and_query_tokens() {
    let query = with("access_token", "secret");

    assert!(is_ws_authorized(
        Some("secret"),
        Some("Bearer secret"),
        &empty()
    ));
    assert!(is_ws_authorized(Some("secret"), None, &query));
}

#[test]
fn ws_auth_rejects_invalid_token() {
    let query = with("access_token", "wrong");

    assert!(!is_ws_authorized(
        Some("secret"),
        Some("Bearer wrong"),
        &query
    ));
    assert!(!is_ws_authorized(Some("secret"), None, &empty()));
}

#[test]
fn http_command_auth_allows_loopback_without_token() {
    let remote = RemoteAddr::V4(127, 0, 0, 1);
    assert!(is_http_command_authorized(
        None,
        None,
        &empty(),
        Some(remote)
    ));
}

#[test]
fn http_command_auth_requires_token_for_remote_when_not_loopback() {
    let remote = RemoteAddr::V4(192, 168, 1, 10);
    assert!(!is_http_command_authorized(
        None,
        None,
        &empty(),
        Some(remote)
    ));
    assert!(is_http_command_authorized(
        Some("secret"),
        Some("Bearer secret"),
        &empty(),
        Some(remote)
    ));
}

#[test]
fn tokens_come_in_several_forms() {
    for header in ["Bearer secret", "bearer secret", "Token secret", "token  secret ", "secret"] {
        assert!(is_ws_authorized(Some(" secret "), Some(header), &empty()), "{header}");
    }
    assert!(!is_ws_authorized(Some("secret"), Some("Basic secret"), &empty()));
    assert!(is_ws_authorized(Some("secret"), Some("Basic x"), &with("token", "secret")));
    assert!(!is_ws_authorized(Some("secret"), Some("x"), &with("token", "secret")));
}

#[test]
fn loopback_is_known_in_both_families() {
    assert!(RemoteAddr::V4(127, 5, 6, 7).is_loopback());
    assert!(RemoteAddr::V6(1).is_loopback());
    assert!(!RemoteAddr::V6(2).is_loopback());
    assert!(!is_http_command_authorized(Some(""), Some(""), &empty(), None));
}

#[test]
fn queries_are_read_with_their_escapes() {
    let query = query_map("access_token=a%20b+c&x=1&x=2");
    assert_eq!(query.get("access_token").map(|s| s.as_str()), Some("a b c"));
    assert_eq!(query.get("x").map(|s| s.as_str()), Some("2"));
    assert!(query.get("y").is_none());
}

#[test]
fn blank_headers_are_none() {
    assert_eq!(header_string(Some("  x ")).as_deref(), Some("x"));
    assert_eq!(header_string(Some("  ")), None);
    assert_eq!(header_string(None), None);
}

#[test]
fn route_ids_are_numbers() {
    assert_eq!(parse_route_id(Some("-5")), Some(-5));
    assert_eq!(parse_route_id(Some("+5")), Some(5));
    assert_eq!(parse_route_id(Some("5x")), None);
    assert_eq!(parse_route_id(Some("9223372036854775808")), None);
    assert_eq!(parse_route_id(None), None);
}

#[test]
fn long_bodies_are_refused() {
    assert!(check_announced_length(Some("65536")).is_ok());
    assert!(check_announced_length(Some("65537")).is_err());
    assert!(check_announced_length(Some("many")).is_ok());
    assert!(check_announced_length(None).is_ok());
    assert!(check_body(&"x".repeat(65_536)).is_ok());
    match check_body(&"x".repeat(65_537)) {
        Ok(_) => panic!("the body is too long"),
        Err(response) => {
            assert_eq!(response.status, 413);
            assert_eq!(response.body.str_at("error"), Some("request body too large"));
        }
    }
}

use fe2o3_steel::request::{head_end, parse_request_head};
use fe2o3_steel::session::SESSION_COOKIE_NAME;
use fe2o3_steel::web::{local_refusal_status, LocalAction};

#[test]
fn the_head_ends_at_the_first_blank_line() {
    assert_eq!(head_end(b"GET / HTTP/1.1\r\nHost: a\r\n\r\nbody\r\n\r\n"), Some(23));
    assert_eq!(head_end(b"GET / HTTP/1.1\r\nHost: a\r\n"), None);
    assert_eq!(head_end(b"\r\n\r"), None);
    assert_eq!(head_end(b"\r\n\r\n"), Some(0));
}

#[test]
fn the_request_line_gives_the_method_and_the_path() {
    let h = parse_request_head(b"POST /admin/login?next=%2F HTTP/1.1\r\nHost: localhost");
    assert_eq!(h.method, "POST");
    assert_eq!(h.path, "/admin/login");
    assert_eq!(h.content_length, 0);
    assert!(h.cookies.is_empty());
    let bare = parse_request_head(b"GET");
    assert_eq!(bare.method, "GET");
    assert_eq!(bare.path, "");
}

#[test]
fn the_last_content_length_counts_whatever_its_case() {
    let h = parse_request_head(b"POST /admin HTTP/1.1\r\ncontent-LENGTH: 12\r\nX: y\r\n Content-Length :  42 ");
    assert_eq!(h.content_length, 42);
    let odd = parse_request_head(b"POST /admin HTTP/1.1\r\nContent-Length: twelve");
    assert_eq!(odd.content_length, 0);
    let plus = parse_request_head(b"POST /admin HTTP/1.1\r\nContent-Length: +7");
    assert_eq!(plus.content_length, 7);
}

#[test]
fn the_session_cookie_is_found_among_the_others() {
    let h = parse_request_head(
        b"GET /admin HTTP/1.1\r\nCookie: theme=dark; steel_admin_sess=v1.abc==; x\r\nCookie: steel_admin_sess=later",
    );
    assert_eq!(
        h.cookies,
        vec![
            ("theme".to_string(), "dark".to_string()),
            ("steel_admin_sess".to_string(), "v1.abc==".to_string()),
            ("x".to_string(), String::new()),
        ]
    );
    assert_eq!(h.cookie(SESSION_COOKIE_NAME), Some("v1.abc==".to_string()));
    assert_eq!(h.cookie("missing"), None);
    let none = parse_request_head(b"GET /admin HTTP/1.1\r\nHost: x");
    assert_eq!(none.cookie(SESSION_COOKIE_NAME), None);
}

#[test]
fn refusals_of_the_loopback_listener_carry_their_status() {
    assert_eq!(local_refusal_status(&LocalAction::NotFound), Some(404));
    assert_eq!(local_refusal_status(&LocalAction::MethodNotAllowed), Some(405));
    assert_eq!(local_refusal_status(&LocalAction::DatabaseNotAllowed), Some(405));
    assert_eq!(local_refusal_status(&LocalAction::DashboardGet), None);
}

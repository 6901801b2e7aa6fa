use fe2o3_steel::admins::{
    add_audit_detail, add_flash, admin_add_request_at, admin_remove_target, parse_scopes, parse_u64,
    remove_flash, Enrolment, Removal,
};
use fe2o3_steel::assets::{html_escape, is_current, nav_entries, render_layout, render_login_layout, render_nav};
use fe2o3_steel::form::{extract_form_field, hex_nibble, read_cookie, url_decode, url_decode_bytes};
use fe2o3_steel::handler::{
    action_label, admit_principal, build_session_cookie, chip_class_for_status, html_response,
    json_escape, redirect_to_login, render_flash, render_login_form, route_get, route_post,
    security_action, status_description, text_response, Flash, GetRoute, PostRoute, SecurityAction,
};
use fe2o3_steel::principal::AdminPrincipal;
use fe2o3_steel::session::SessionError;

fn principal(scopes: &[&str]) -> AdminPrincipal {
    AdminPrincipal {
        name: "alice".to_string(),
        scopes: scopes.iter().map(|s| s.to_string()).collect(),
        expires_at: 10,
    }
}

#[test]
fn dashboard_paths_route_exactly() {
    assert_eq!(route_get("/admin"), GetRoute::Home);
    assert_eq!(route_get("/admin/login"), GetRoute::LoginForm);
    assert_eq!(route_get("/admin/assets/oxanium.ttf"), GetRoute::FontOxanium);
    assert_eq!(route_get("/admin/traffic.json"), GetRoute::TrafficJson);
    assert_eq!(route_get("/admin/challenge"), GetRoute::Challenge);
    assert_eq!(route_get("/admin/"), GetRoute::NotFound);
    assert_eq!(route_get("/admin/traffic/"), GetRoute::NotFound);
    assert_eq!(route_post("/admin/login"), PostRoute::Login);
    assert_eq!(route_post("/admin/signed-login"), PostRoute::SignedLogin);
    assert_eq!(route_post("/admin/admins"), PostRoute::Admins);
    assert_eq!(route_post("/admin"), PostRoute::NotFound);
}

#[test]
fn only_a_viewer_is_admitted() {
    assert!(admit_principal(Ok(principal(&["dashboard.view"]))).is_some());
    assert!(admit_principal(Ok(principal(&["*"]))).is_some());
    assert!(admit_principal(Ok(principal(&["admin"]))).is_none());
    assert!(admit_principal(Err(SessionError::WrongVersion)).is_none());
}

#[test]
fn status_chips_follow_the_class() {
    assert_eq!(chip_class_for_status(204), "chip-ok");
    assert_eq!(chip_class_for_status(301), "chip-redirect");
    assert_eq!(chip_class_for_status(404), "chip-client");
    assert_eq!(chip_class_for_status(503), "chip-server");
    assert_eq!(chip_class_for_status(101), "");
    assert_eq!(status_description(418), "client error");
    assert_eq!(status_description(600), "informational");
}

#[test]
fn security_actions_are_labelled() {
    assert_eq!(security_action("blacklist"), Some(SecurityAction::Blacklist));
    assert_eq!(security_action("Blacklist"), None);
    assert_eq!(action_label("whitelist"), "Whitelisted");
    assert_eq!(action_label("unblock"), "Reset");
    assert_eq!(action_label("other"), "Applied");
}

#[test]
fn json_strings_are_escaped() {
    assert_eq!(json_escape("a\"b\\c\nd\te\r"), "a\\\"b\\\\c\\nd\\te\\r");
    assert_eq!(json_escape("\u{1}x"), "\\u0001x");
    assert_eq!(json_escape("\u{1f}"), "\\u001f");
    assert_eq!(json_escape("é"), "é");
}

#[test]
fn html_is_escaped() {
    assert_eq!(html_escape("<a href=\"x\">Tom & Jerry's</a>"), "&lt;a href=&quot;x&quot;&gt;Tom &amp; Jerry&#39;s&lt;/a&gt;");
    assert_eq!(html_escape("plain"), "plain");
}

#[test]
fn the_nav_marks_the_current_page() {
    assert!(is_current("/admin", "/admin"));
    assert!(!is_current("/admin/traffic", "/admin"));
    assert!(is_current("/admin/ozone?prefix=user:", "/admin/ozone"));
    assert!(is_current("/admin/ozone/x", "/admin/ozone"));
    assert!(!is_current("/admin/ozonex", "/admin/ozone"));
    assert_eq!(nav_entries().len(), 5);
    let nav = render_nav("/admin/traffic");
    assert!(nav.starts_with("<nav class=\"sidebar\">\n<div class=\"group\">Dashboard</div>\n"));
    assert!(nav.contains("<a href=\"/admin/traffic\" class=\"current\">Traffic</a>\n"));
    assert!(nav.contains("<a href=\"/admin\">Home</a>\n"));
    assert!(nav.ends_with("</nav>\n"));
    assert_eq!(nav.matches("class=\"group\"").count(), 3);
}

#[test]
fn the_layout_escapes_the_user() {
    let mut p = principal(&["dashboard.view"]);
    p.name = "<eve>".to_string();
    let html = render_layout("Home & away", "/admin", &p, "<p>body</p>", "body{}");
    assert!(html.contains("<title>Home &amp; away - Steel admin</title>"));
    assert!(html.contains("<style>body{}</style>"));
    assert!(html.contains("Signed in as <strong>&lt;eve&gt;</strong>"));
    assert!(html.contains("<main class=\"content\">\n<p>body</p></main>"));
    let login = render_login_layout("Sign in", "<form/>", "");
    assert!(login.contains("<h1>Hematite <span class=\"accent\">Steel</span></h1>\n<form/></div>"));
}

#[test]
fn the_login_form_says_when_steel_is_sealed() {
    let sealed = render_login_form(true, Some("Invalid <credentials>."), "");
    assert_eq!(sealed.status, 200);
    let body = String::from_utf8(sealed.body.clone()).expect("utf8");
    assert!(body.contains("<strong>Steel is sealed.</strong>"));
    assert!(body.contains("<p class=\"notice error\">Invalid &lt;credentials&gt;.</p>"));
    assert!(body.contains("<button type=\"submit\">Sign in and unseal</button>"));
    assert!(body.contains("<title>Sign in and unseal - Steel admin</title>"));
    let open = render_login_form(false, None, "");
    let body = String::from_utf8(open.body.clone()).expect("utf8");
    assert!(!body.contains("sealed."));
    assert!(body.contains("<button type=\"submit\">Sign in</button>"));
    assert_eq!(open.field("content-type").as_deref(), Some("text/html; charset=utf-8"));
}

#[test]
fn responses_have_their_shapes() {
    let r = redirect_to_login();
    assert_eq!(r.status, 303);
    assert_eq!(r.field("Location").as_deref(), Some("/admin/login"));
    let t = text_response(404, "Dashboard route not found.");
    assert_eq!(t.body, b"Dashboard route not found.".to_vec());
    let h = html_response("<p/>".to_string());
    assert_eq!(h.body, b"<p/>".to_vec());
}

#[test]
fn the_session_cookie_is_confined() {
    let c = build_session_cookie("v1.abc".to_string(), false);
    assert_eq!(c.key, "steel_admin_sess");
    assert_eq!(c.path, "/admin");
    assert!(c.http_only && c.secure && c.same_site_strict);
    assert_eq!(c.max_age, None);
    assert_eq!(build_session_cookie(String::new(), true).max_age, Some(0));
}

#[test]
fn flashes_render_as_notices() {
    assert_eq!(render_flash(None), "");
    let ok = Flash { ok: true, message: "Added admin 'bob'.".to_string() };
    assert_eq!(render_flash(Some(&ok)), "<p class=\"notice \">Added admin &#39;bob&#39;.</p>\n");
    let err = Flash { ok: false, message: "x".to_string() };
    assert_eq!(render_flash(Some(&err)), "<p class=\"notice error\">x</p>\n");
}

#[test]
fn form_values_are_decoded() {
    assert_eq!(url_decode("a+b%41%2f"), "a bA/");
    assert_eq!(url_decode("%4"), "%4");
    assert_eq!(url_decode("%zz"), "%zz");
    assert_eq!(url_decode("100%"), "100%");
    assert_eq!(url_decode("%41"), "A");
    assert_eq!(url_decode_bytes(b"%ff"), vec![0xffu8]);
    assert_eq!(url_decode("%ff"), "\u{fffd}");
    assert_eq!(hex_nibble(b'F'), Some(15));
    assert_eq!(hex_nibble(b'g'), None);
}

#[test]
fn form_fields_are_found_by_decoded_key() {
    let body = b"passphrase=s%20cret+x&other=1&passphrase=second";
    assert_eq!(extract_form_field(body, "passphrase").as_deref(), Some("s cret x"));
    assert_eq!(extract_form_field(body, "missing"), None);
    assert_eq!(extract_form_field(b"flag&k=v", "flag").as_deref(), Some(""));
    assert_eq!(extract_form_field(b"a%3Db=c", "a=b").as_deref(), Some("c"));
    assert_eq!(extract_form_field(&[0xff, 0x3d], "x"), None);
}

#[test]
fn cookies_are_found_by_exact_key() {
    let jar = vec![
        ("other".to_string(), "1".to_string()),
        ("steel_admin_sess".to_string(), "v1.abc".to_string()),
        ("steel_admin_sess".to_string(), "v1.def".to_string()),
    ];
    assert_eq!(read_cookie(&jar, "steel_admin_sess").as_deref(), Some("v1.abc"));
    assert_eq!(read_cookie(&jar, "STEEL_ADMIN_SESS"), None);
}

#[test]
fn an_add_needs_a_name_and_a_password() {
    match admin_add_request_at(b"name=&password=x", 100) {
        Err(f) => {
            assert!(!f.ok);
            assert_eq!(f.message, "Name and password are required.");
        },
        Ok(_) => panic!("accepted without a name"),
    }
    let a = match admin_add_request_at(b"name=bob&password=pw&scopes=admin,+dashboard.view,,&expires_in=60", 100) {
        Ok(a) => a,
        Err(f) => panic!("{}", f.message),
    };
    assert_eq!(a.name, "bob");
    assert_eq!(a.scopes, vec!["admin".to_string(), "dashboard.view".to_string()]);
    assert_eq!(a.expires_at, 160);
    let never = admin_add_request_at(b"name=bob&password=pw&expires_in=soon", 100).ok().expect("ok");
    assert_eq!(never.expires_at, 0);
    let capped = admin_add_request_at(b"name=b&password=p&expires_in=10", u64::MAX - 1).ok().expect("ok");
    assert_eq!(capped.expires_at, u64::MAX);
}

#[test]
fn numbers_parse_as_u64_does() {
    assert_eq!(parse_u64("42"), Some(42));
    assert_eq!(parse_u64("+7"), Some(7));
    assert_eq!(parse_u64("-7"), None);
    assert_eq!(parse_u64(""), None);
    assert_eq!(parse_u64("+"), None);
    assert_eq!(parse_u64("18446744073709551615"), Some(u64::MAX));
    assert_eq!(parse_u64("18446744073709551616"), None);
    assert_eq!(parse_u64(" 1"), None);
    assert_eq!(parse_scopes(" a , ,b"), vec!["a".to_string(), "b".to_string()]);
}

#[test]
fn add_and_remove_are_answered() {
    assert_eq!(add_flash("bob", &Enrolment::Done).message, "Added admin 'bob'.");
    assert!(add_flash("bob", &Enrolment::Done).ok);
    assert_eq!(add_flash("bob", &Enrolment::Refused("exists".to_string())).message, "Failed to enrol 'bob': exists");
    assert!(!add_flash("bob", &Enrolment::Sealed).ok);
    assert_eq!(remove_flash("bob", &Removal::Done).message, "Removed admin 'bob'.");
    assert_eq!(
        remove_flash("bob", &Removal::SaveFailed("disk".to_string())).message,
        "Admin removed in memory but the wallet could not be saved to disk: disk"
    );
    let a = admin_add_request_at(b"name=bob&password=pw&scopes=a,b&expires_in=5", 10).ok().expect("ok");
    assert_eq!(add_audit_detail(&a, &Enrolment::Done).as_deref(), Some("target=bob scopes=a,b expires_at=15"));
    assert_eq!(add_audit_detail(&a, &Enrolment::LockPoisoned), None);
    assert!(admin_remove_target(b"action=remove").is_err());
    assert_eq!(admin_remove_target(b"name=carol").ok().as_deref(), Some("carol"));
}

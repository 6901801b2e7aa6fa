use fe2o3_steel::web::{
    is_admin_path, local_action, local_record, local_refusal_text, proxy_headers, route_get,
    route_post, upstream_of, webhook_headers, ApiRoute, GetTarget, LocalAction, Method, PostTarget,
    WebhookRoute,
};

fn api(path: &str, handler: bool, upstream: bool) -> ApiRoute {
    ApiRoute {
        path: path.to_string(),
        handler: if handler { Some("h".to_string()) } else { None },
        upstream_host: if upstream { Some("up.example".to_string()) } else { None },
        upstream_port: None,
        upstream_tls: true,
        upstream_path: None,
        headers: vec![("Authorization".to_string(), "Bearer op".to_string())],
    }
}

fn hook(path: &str, upstream: bool) -> WebhookRoute {
    WebhookRoute {
        path: path.to_string(),
        handler: None,
        upstream_host: if upstream { Some("hooks.example".to_string()) } else { None },
        upstream_port: Some(8443),
        upstream_tls: false,
        upstream_path: Some("/in".to_string()),
    }
}

fn h(n: &str, v: &str) -> (String, String) {
    (n.to_string(), v.to_string())
}

#[test]
fn the_dashboard_owns_its_subtree_before_anything_else() {
    let routes = vec![api("/admin/x", true, false)];
    assert_eq!(route_get("/admin/x", true, true, true, true, &routes), GetTarget::Dashboard);
    assert_eq!(route_get("/admin/database/k", true, false, false, false, &routes), GetTarget::Database);
    assert_eq!(route_get("/admin", false, false, false, false, &routes), GetTarget::NotFound);
    assert_eq!(route_get("/administrator", true, false, false, false, &routes), GetTarget::Static);
    assert!(!is_admin_path("/adminx") && is_admin_path("/admin/"));
}

#[test]
fn a_get_goes_to_the_console_the_prose_an_api_or_a_file() {
    let routes = vec![api("/api/a", true, true), api("/api/b", false, true), api("/api/c", false, false)];
    assert_eq!(route_get("/manage", true, true, true, false, &routes), GetTarget::Console);
    assert_eq!(route_get("/manage", true, true, false, false, &routes), GetTarget::Static);
    assert_eq!(route_get("/blog", true, false, true, true, &routes), GetTarget::Publish);
    assert_eq!(route_get("/api/a", true, false, false, false, &routes), GetTarget::ApiHandler(0));
    assert_eq!(route_get("/api/b", true, false, false, false, &routes), GetTarget::ApiProxy(1));
    assert_eq!(route_get("/api/c", true, false, false, false, &routes), GetTarget::Static);
}

#[test]
fn a_post_goes_to_a_webhook_before_an_api() {
    let hooks = vec![hook("/hook", true), hook("/local-hook", false)];
    let routes = vec![api("/hook", true, false), api("/api", false, true)];
    assert_eq!(route_post("/hook", true, &hooks, &routes), PostTarget::WebhookUpstream(0));
    assert_eq!(route_post("/local-hook", true, &hooks, &routes), PostTarget::WebhookHandler(1));
    assert_eq!(route_post("/api", true, &hooks, &routes), PostTarget::ApiProxy(1));
    assert_eq!(route_post("/nothing", true, &hooks, &routes), PostTarget::NoRoute);
    assert_eq!(route_post("/admin/login", false, &hooks, &routes), PostTarget::NotFound);
}

#[test]
fn an_upstream_defaults_its_port_and_path() {
    let u = upstream_of(&Some("up".to_string()), None, true, &None).expect("upstream");
    assert_eq!((u.port, u.path.as_str()), (443, "/"));
    let u = upstream_of(&Some("up".to_string()), None, false, &Some("/x".to_string())).expect("upstream");
    assert_eq!((u.port, u.path.as_str()), (80, "/x"));
    assert_eq!(upstream_of(&Some("up".to_string()), Some(8080), true, &None).expect("u").port, 8080);
    assert!(upstream_of(&None, None, true, &None).is_none());
}

#[test]
fn the_operators_headers_win_over_the_clients() {
    let route = vec![h("authorization", "Bearer op")];
    let client = vec![
        h("Host", "x"),
        h("Authorization", "Bearer client"),
        h("Accept", "text/html"),
        h("accept", "second"),
        h("User-Agent", "ua"),
        h("Cookie", "c=1"),
    ];
    let out = proxy_headers(&route, &client, Some("application/json"));
    assert_eq!(
        out,
        vec![
            h("authorization", "Bearer op"),
            h("Accept", "text/html"),
            h("User-Agent", "ua"),
            h("Content-Type", "application/json"),
        ]
    );
    let out = proxy_headers(&vec![], &vec![h("content-type", "text/plain")], Some("application/json"));
    assert_eq!(out, vec![h("Content-Type", "text/plain")]);
}

#[test]
fn a_webhook_keeps_its_signature_headers() {
    let fields = vec![
        h("Host", "x"),
        h("Stripe-Signature", "t=1,v1=abc"),
        h("content-type", "application/json"),
        h("X-Request-Id", "r1"),
        h("Idempotency-Key", "k"),
        h("X-Other", "no"),
    ];
    assert_eq!(
        webhook_headers(&fields),
        vec![
            h("Content-Type", "application/json"),
            h("Stripe-Signature", "t=1,v1=abc"),
            h("X-Request-Id", "r1"),
            h("Idempotency-Key", "k"),
        ]
    );
}

#[test]
fn the_loopback_listener_serves_the_dashboard_only() {
    assert_eq!(local_action(Method::Get, "/admin/database"), LocalAction::DatabaseGet);
    assert_eq!(local_action(Method::Post, "/admin/database/x"), LocalAction::DatabaseNotAllowed);
    assert_eq!(local_action(Method::Post, "/admin/login"), LocalAction::DashboardPost);
    assert_eq!(local_action(Method::Other, "/admin"), LocalAction::MethodNotAllowed);
    assert_eq!(local_action(Method::Get, "/"), LocalAction::NotFound);
    assert_eq!(local_refusal_text(&LocalAction::NotFound), Some("The localhost listener serves /admin only."));
    assert_eq!(local_refusal_text(&LocalAction::DashboardGet), None);
    let r = local_record(1, "GET".to_string(), "/admin".to_string(), 200, "127.0.0.1:9".to_string(), 10, 5);
    assert_eq!(r.vhost, "_admin_local");
    assert_eq!(r.bytes, Some(10));
}

//! How a vhost dispatches a request: which subtree or route claims its
//! path, where a proxied request goes, and which headers ride along.

use vstd::prelude::*;
use crate::cache::{fields_view, is_named};
use crate::text::{
    concat2, contains, eq_ignore_ascii_case, has_infix, has_prefix, starts_with, str_eq,
    str_eq_ignore_ascii_case, to_owned_str,
};

verus! {

// ---------------------------------------------------------------------------
// Routes
// ---------------------------------------------------------------------------

/// An API route of a vhost: an in-process handler, or an upstream the
/// request is proxied to.
pub struct ApiRoute {
    pub path: String,
    pub handler: Option<String>,
    pub upstream_host: Option<String>,
    pub upstream_port: Option<u16>,
    pub upstream_tls: bool,
    pub upstream_path: Option<String>,
    /// Headers the operator declared for the upstream, in order.
    pub headers: Vec<(String, String)>,
}

/// A webhook route of a vhost: an in-process handler, or an upstream the
/// raw payload is forwarded to.
pub struct WebhookRoute {
    pub path: String,
    pub handler: Option<String>,
    pub upstream_host: Option<String>,
    pub upstream_port: Option<u16>,
    pub upstream_tls: bool,
    pub upstream_path: Option<String>,
}

/// The dashboard owns `/admin` and everything under it.
pub open spec fn is_admin_path_spec(path: Seq<char>) -> bool {
    path == "/admin"@ || has_prefix(path, "/admin/"@)
}

/// The database browser owns `/admin/database` and everything under it.
pub open spec fn is_database_path_spec(path: Seq<char>) -> bool {
    path == "/admin/database"@ || has_prefix(path, "/admin/database/"@)
}

/// Whether the dashboard owns `path`.
pub fn is_admin_path(path: &str) -> (r: bool)
    ensures
        r == is_admin_path_spec(path@),
{
    str_eq(path, "/admin") || starts_with(path, "/admin/")
}

/// Whether the database browser owns `path`.
pub fn is_database_path(path: &str) -> (r: bool)
    ensures
        r == is_database_path_spec(path@),
{
    str_eq(path, "/admin/database") || starts_with(path, "/admin/database/")
}

/// The index of the first route whose path is `path`.
pub open spec fn first_api_route(routes: Seq<ApiRoute>, path: Seq<char>) -> Option<int> {
    if exists|i: int| 0 <= i < routes.len() && routes[i].path@ == path {
        Some(
            choose|i: int|
                0 <= i < routes.len() && routes[i].path@ == path && forall|j: int|
                    0 <= j < i ==> routes[j].path@ != path,
        )
    } else {
        None
    }
}

/// The index of the first webhook route whose path is `path`.
pub open spec fn first_webhook_route(routes: Seq<WebhookRoute>, path: Seq<char>) -> Option<int> {
    if exists|i: int| 0 <= i < routes.len() && routes[i].path@ == path {
        Some(
            choose|i: int|
                0 <= i < routes.len() && routes[i].path@ == path && forall|j: int|
                    0 <= j < i ==> routes[j].path@ != path,
        )
    } else {
        None
    }
}

/// Find the API route for a path: the first that names it.
pub fn find_api_route(routes: &Vec<ApiRoute>, path: &str) -> (r: Option<usize>)
    ensures
        match r {
            Some(i) => i < routes@.len() && first_api_route(routes@, path@) == Some(i as int),
            None => first_api_route(routes@, path@) is None,
        },
{
    let mut i: usize = 0;
    while i < routes.len()
        invariant
            i <= routes.len(),
            forall|j: int| 0 <= j < i ==> routes@[j].path@ != path@,
        decreases routes.len() - i,
    {
        if str_eq(routes[i].path.as_str(), path) {
            proof {
                let k = first_api_route(routes@, path@)->0;
                assert(routes@[i as int].path@ == path@);
                if k < i {
                }
                if k > i {
                }
            }
            return Some(i);
        }
        i += 1;
    }
    None
}

/// Find the webhook route for a path: the first that names it.
pub fn find_webhook_route(routes: &Vec<WebhookRoute>, path: &str) -> (r: Option<usize>)
    ensures
        match r {
            Some(i) => i < routes@.len() && first_webhook_route(routes@, path@) == Some(i as int),
            None => first_webhook_route(routes@, path@) is None,
        },
{
    let mut i: usize = 0;
    while i < routes.len()
        invariant
            i <= routes.len(),
            forall|j: int| 0 <= j < i ==> routes@[j].path@ != path@,
        decreases routes.len() - i,
    {
        if str_eq(routes[i].path.as_str(), path) {
            proof {
                let k = first_webhook_route(routes@, path@)->0;
                assert(routes@[i as int].path@ == path@);
                if k < i {
                }
                if k > i {
                }
            }
            return Some(i);
        }
        i += 1;
    }
    None
}

/// Who answers a `GET`.
#[derive(Debug, PartialEq, Eq, Structural)]
pub enum GetTarget {
    /// The database browser, with the dashboard's state.
    Database,
    /// The dashboard.
    Dashboard,
    /// A dashboard path on a vhost with no dashboard: answered as if the
    /// path did not exist, so its existence does not leak.
    NotFound,
    /// The site console.
    Console,
    /// The published prose.
    Publish,
    /// The in-process handler of API route `i`.
    ApiHandler(usize),
    /// The upstream of API route `i`.
    ApiProxy(usize),
    /// A file from the public directory or a static route.
    Static,
}

/// Who answers a `GET` of `path`. The dashboard is dispatched first, so
/// app routes cannot shadow it; then the console, when the site publishes
/// or has admins and the console owns the path; then the published prose
/// where it owns the path; then an API route that names the path and is a
/// handler or a proxy; and files last.
pub open spec fn get_target_spec(
    path: Seq<char>,
    dashboard: bool,
    console_owns: bool,
    console_enabled: bool,
    publish_owns: bool,
    routes: Seq<ApiRoute>,
) -> GetTarget {
    if is_database_path_spec(path) {
        if dashboard {
            GetTarget::Database
        } else {
            GetTarget::NotFound
        }
    } else if is_admin_path_spec(path) {
        if dashboard {
            GetTarget::Dashboard
        } else {
            GetTarget::NotFound
        }
    } else if console_enabled && console_owns {
        GetTarget::Console
    } else if publish_owns {
        GetTarget::Publish
    } else {
        match first_api_route(routes, path) {
            Some(i) => if routes[i].handler is Some {
                GetTarget::ApiHandler(i as usize)
            } else if routes[i].upstream_host is Some {
                GetTarget::ApiProxy(i as usize)
            } else {
                GetTarget::Static
            },
            None => GetTarget::Static,
        }
    }
}

/// Decide who answers a `GET` of `path` on a vhost. `dashboard` says the
/// vhost has the dashboard; `console_enabled` that it publishes or has site
/// admins, and `console_owns` that the console claims the path;
/// `publish_owns` that the published prose claims it.
pub fn route_get(
    path: &str,
    dashboard: bool,
    console_owns: bool,
    console_enabled: bool,
    publish_owns: bool,
    routes: &Vec<ApiRoute>,
) -> (r: GetTarget)
    ensures
        r == get_target_spec(path@, dashboard, console_owns, console_enabled, publish_owns, routes@),
{
    if is_database_path(path) {
        if dashboard {
            return GetTarget::Database;
        }
        return GetTarget::NotFound;
    }
    if is_admin_path(path) {
        if dashboard {
            return GetTarget::Dashboard;
        }
        return GetTarget::NotFound;
    }
    if console_enabled && console_owns {
        return GetTarget::Console;
    }
    if publish_owns {
        return GetTarget::Publish;
    }
    match find_api_route(routes, path) {
        Some(i) => {
            if routes[i].handler.is_some() {
                GetTarget::ApiHandler(i)
            } else if routes[i].upstream_host.is_some() {
                GetTarget::ApiProxy(i)
            } else {
                GetTarget::Static
            }
        },
        None => GetTarget::Static,
    }
}

/// Who answers a `POST` the published prose and the console did not take.
#[derive(Debug, PartialEq, Eq, Structural)]
pub enum PostTarget {
    Dashboard,
    NotFound,
    /// Webhook route `i`, forwarded to its upstream.
    WebhookUpstream(usize),
    /// Webhook route `i`, to its in-process handler.
    WebhookHandler(usize),
    ApiHandler(usize),
    ApiProxy(usize),
    /// No route names the path.
    NoRoute,
}

/// Who answers such a `POST` of `path`: the dashboard subtree first, then a
/// webhook route (forwarded when it has an upstream), then an API route (a
/// handler when it names one, a proxy otherwise).
pub open spec fn post_target_spec(
    path: Seq<char>,
    dashboard: bool,
    hooks: Seq<WebhookRoute>,
    routes: Seq<ApiRoute>,
) -> PostTarget {
    if is_admin_path_spec(path) {
        if dashboard {
            PostTarget::Dashboard
        } else {
            PostTarget::NotFound
        }
    } else {
        match first_webhook_route(hooks, path) {
            Some(w) => if hooks[w].upstream_host is Some {
                PostTarget::WebhookUpstream(w as usize)
            } else {
                PostTarget::WebhookHandler(w as usize)
            },
            None => match first_api_route(routes, path) {
                Some(i) => if routes[i].handler is Some {
                    PostTarget::ApiHandler(i as usize)
                } else {
                    PostTarget::ApiProxy(i as usize)
                },
                None => PostTarget::NoRoute,
            },
        }
    }
}

/// Decide who answers a `POST` of `path`, once the published prose and the
/// console have passed on it.
pub fn route_post(
    path: &str,
    dashboard: bool,
    hooks: &Vec<WebhookRoute>,
    routes: &Vec<ApiRoute>,
) -> (r: PostTarget)
    ensures
        r == post_target_spec(path@, dashboard, hooks@, routes@),
{
    if is_admin_path(path) {
        if dashboard {
            return PostTarget::Dashboard;
        }
        return PostTarget::NotFound;
    }
    match find_webhook_route(hooks, path) {
        Some(w) => {
            if hooks[w].upstream_host.is_some() {
                PostTarget::WebhookUpstream(w)
            } else {
                PostTarget::WebhookHandler(w)
            }
        },
        None => match find_api_route(routes, path) {
            Some(i) => {
                if routes[i].handler.is_some() {
                    PostTarget::ApiHandler(i)
                } else {
                    PostTarget::ApiProxy(i)
                }
            },
            None => PostTarget::NoRoute,
        },
    }
}

/// A `POST` under `/admin` goes to the dashboard when it serves this vhost
/// and is not found otherwise; outside `/admin`, the first webhook route
/// naming the path takes it (forwarded when it has an upstream, to its
/// handler when not); and a path that no route of either kind names has no
/// route.
pub proof fn lemma_post_dispatch_order(
    path: Seq<char>,
    dashboard: bool,
    hooks: Seq<WebhookRoute>,
    routes: Seq<ApiRoute>,
    w: int,
)
    ensures
        is_admin_path_spec(path) ==> post_target_spec(path, dashboard, hooks, routes) == (if dashboard {
            PostTarget::Dashboard
        } else {
            PostTarget::NotFound
        }),
        !is_admin_path_spec(path) && 0 <= w < hooks.len() && hooks[w].path@ == path && (forall|j: int|
            0 <= j < w ==> hooks[j].path@ != path) ==> post_target_spec(
            path,
            dashboard,
            hooks,
            routes,
        ) == (if hooks[w].upstream_host is Some {
            PostTarget::WebhookUpstream(w as usize)
        } else {
            PostTarget::WebhookHandler(w as usize)
        }),
        !is_admin_path_spec(path) && (forall|j: int| 0 <= j < hooks.len() ==> hooks[j].path@ != path)
            && (forall|j: int| 0 <= j < routes.len() ==> routes[j].path@ != path)
            ==> post_target_spec(path, dashboard, hooks, routes) == PostTarget::NoRoute,
{
    if !is_admin_path_spec(path) && 0 <= w < hooks.len() && hooks[w].path@ == path && (forall|j: int|
        0 <= j < w ==> hooks[j].path@ != path) {
        let k = first_webhook_route(hooks, path)->0;
        assert(first_webhook_route(hooks, path) is Some);
        assert(k == w) by {
            if k < w {
            }
            if k > w {
            }
        }
    }
}

/// A `POST` outside `/admin` that no webhook route names goes to the first
/// API route naming its path: to that route's in-process handler when it
/// has one, and through its proxy only when it has none.
pub proof fn lemma_post_goes_to_its_api_route(
    path: Seq<char>,
    dashboard: bool,
    hooks: Seq<WebhookRoute>,
    routes: Seq<ApiRoute>,
    i: int,
)
    requires
        !is_admin_path_spec(path),
        forall|w: int| 0 <= w < hooks.len() ==> hooks[w].path@ != path,
        0 <= i < routes.len(),
        routes[i].path@ == path,
        forall|j: int| 0 <= j < i ==> routes[j].path@ != path,
    ensures
        routes[i].handler is Some ==> post_target_spec(path, dashboard, hooks, routes)
            == PostTarget::ApiHandler(i as usize),
        routes[i].handler is None ==> post_target_spec(path, dashboard, hooks, routes)
            == PostTarget::ApiProxy(i as usize),
{
    let k = first_api_route(routes, path)->0;
    assert(first_api_route(routes, path) is Some);
    assert(k == i) by {
        if k < i {
        }
        if k > i {
        }
    }
    assert(first_webhook_route(hooks, path) is None);
}

// ---------------------------------------------------------------------------
// Upstreams
// ---------------------------------------------------------------------------

/// Where a proxied request goes.
pub struct Upstream {
    pub host: String,
    pub port: u16,
    pub path: String,
    pub tls: bool,
}

/// The upstream of a route: its host, its port or the scheme's default
/// (443 over TLS, 80 otherwise), and its path or `/`. None without a host.
pub fn upstream_of(
    host: &Option<String>,
    port: Option<u16>,
    tls: bool,
    path: &Option<String>,
) -> (r: Option<Upstream>)
    ensures
        match host {
            None => r is None,
            Some(h) => r matches Some(u) && u.host@ == h@ && u.tls == tls && u.port == match port {
                Some(p) => p,
                None => if tls {
                    443u16
                } else {
                    80u16
                },
            } && u.path@ == match path {
                Some(p) => p@,
                None => "/"@,
            },
        },
{
    match host {
        None => None,
        Some(h) => {
            let port = match port {
                Some(p) => p,
                None => if tls {
                    443
                } else {
                    80
                },
            };
            let path = match path {
                Some(p) => p.clone(),
                None => to_owned_str("/"),
            };
            Some(Upstream { host: h.clone(), port, path, tls })
        },
    }
}

// ---------------------------------------------------------------------------
// Forwarded headers
// ---------------------------------------------------------------------------

/// The client headers an API proxy passes on, in order.
pub open spec fn proxy_propagated() -> Seq<Seq<char>> {
    seq![
        "Accept"@,
        "Accept-Language"@,
        "Accept-Encoding"@,
        "Content-Type"@,
        "User-Agent"@,
        "Authorization"@,
        "Origin"@,
        "Referer"@,
    ]
}

/// The value of the first field named `name`, ignoring case.
pub open spec fn first_value(fields: Seq<(Seq<char>, Seq<char>)>, name: Seq<char>) -> Option<
    Seq<char>,
>
    decreases fields.len(),
{
    if fields.len() == 0 {
        None
    } else if is_named(fields[0], name) {
        Some(fields[0].1)
    } else {
        first_value(fields.drop_first(), name)
    }
}

/// Whether some header of `out` is named `name`, ignoring case.
pub open spec fn has_header(out: Seq<(Seq<char>, Seq<char>)>, name: Seq<char>) -> bool {
    exists|i: int| 0 <= i < out.len() && is_named(#[trigger] out[i], name)
}

/// Adds each propagated header the client sent, unless one of that name is
/// already there.
pub open spec fn propagate(
    out: Seq<(Seq<char>, Seq<char>)>,
    names: Seq<Seq<char>>,
    client: Seq<(Seq<char>, Seq<char>)>,
) -> Seq<(Seq<char>, Seq<char>)>
    decreases names.len(),
{
    if names.len() == 0 {
        out
    } else {
        let before = propagate(out, names.drop_last(), client);
        let n = names.last();
        if has_header(before, n) {
            before
        } else {
            match first_value(client, n) {
                Some(v) => before.push((n, v)),
                None => before,
            }
        }
    }
}

/// The headers an API proxy sends upstream: the route's own first, since
/// the operator's declared headers are authoritative; then the propagated
/// client headers the route does not set; then the content type the request
/// was dispatched with, if no header names one yet.
pub open spec fn proxy_headers_spec(
    route: Seq<(Seq<char>, Seq<char>)>,
    client: Seq<(Seq<char>, Seq<char>)>,
    content_type: Option<Seq<char>>,
) -> Seq<(Seq<char>, Seq<char>)> {
    let p = propagate(route, proxy_propagated(), client);
    match content_type {
        Some(ct) => if has_header(p, "Content-Type"@) {
            p
        } else {
            p.push(("Content-Type"@, ct))
        },
        None => p,
    }
}

fn header_present(out: &Vec<(String, String)>, name: &str) -> (r: bool)
    ensures
        r == has_header(fields_view(out@), name@),
{
    let ghost ov = fields_view(out@);
    let mut i: usize = 0;
    while i < out.len()
        invariant
            i <= out.len(),
            ov == fields_view(out@),
            forall|k: int| 0 <= k < i ==> !is_named(#[trigger] ov[k], name@),
        decreases out.len() - i,
    {
        if str_eq_ignore_ascii_case(out[i].0.as_str(), name) {
            assert(is_named(ov[i as int], name@));
            return true;
        }
        i += 1;
    }
    false
}

fn first_value_exec(fields: &Vec<(String, String)>, name: &str) -> (r: Option<String>)
    ensures
        match r {
            Some(v) => first_value(fields_view(fields@), name@) == Some(v@),
            None => first_value(fields_view(fields@), name@) is None,
        },
{
    let ghost fv = fields_view(fields@);
    assert(fv.subrange(0, fv.len() as int) == fv);
    let mut i: usize = 0;
    while i < fields.len()
        invariant
            i <= fields.len(),
            fv == fields_view(fields@),
            first_value(fv.subrange(i as int, fv.len() as int), name@) == first_value(fv, name@),
        decreases fields.len() - i,
    {
        let ghost rest = fv.subrange(i as int, fv.len() as int);
        assert(rest[0] == fv[i as int]);
        if str_eq_ignore_ascii_case(fields[i].0.as_str(), name) {
            return Some(fields[i].1.clone());
        }
        assert(rest.drop_first() == fv.subrange(i + 1, fv.len() as int));
        i += 1;
    }
    None
}

fn propagate_one(out: &mut Vec<(String, String)>, name: &str, client: &Vec<(String, String)>)
    ensures
        fields_view(final(out)@) == (if has_header(fields_view(old(out)@), name@) {
            fields_view(old(out)@)
        } else {
            match first_value(fields_view(client@), name@) {
                Some(v) => fields_view(old(out)@).push((name@, v)),
                None => fields_view(old(out)@),
            }
        }),
{
    if header_present(out, name) {
        return;
    }
    match first_value_exec(client, name) {
        Some(v) => {
            let ghost before = fields_view(out@);
            let ghost vv = v@;
            out.push((to_owned_str(name), v));
            assert(fields_view(out@) =~= before.push((name@, vv)));
        },
        None => {},
    }
}

/// The headers an API proxy sends upstream, from the route's declared
/// headers, the client's request headers, and the content type the request
/// was dispatched with, if any.
pub fn proxy_headers(
    route: &Vec<(String, String)>,
    client: &Vec<(String, String)>,
    content_type: Option<&str>,
) -> (r: Vec<(String, String)>)
    ensures
        fields_view(r@) == proxy_headers_spec(
            fields_view(route@),
            fields_view(client@),
            match content_type {
                Some(c) => Some(c@),
                None => None,
            },
        ),
{
    let mut out: Vec<(String, String)> = Vec::new();
    let mut i: usize = 0;
    while i < route.len()
        invariant
            i <= route.len(),
            fields_view(out@) == fields_view(route@).take(i as int),
        decreases route.len() - i,
    {
        let ghost before = fields_view(out@);
        out.push((route[i].0.clone(), route[i].1.clone()));
        assert(fields_view(out@) =~= before.push(fields_view(route@)[i as int]));
        assert(fields_view(route@).take(i + 1) == fields_view(route@).take(i as int).push(
            fields_view(route@)[i as int],
        ));
        i += 1;
    }
    assert(fields_view(route@).take(route.len() as int) == fields_view(route@));
    let ghost names = proxy_propagated();
    let ghost rv = fields_view(route@);
    let ghost cv = fields_view(client@);
    propagate_one(&mut out, "Accept", client);
    assert(fields_view(out@) == propagate(rv, names.take(1), cv)) by {
        reveal_with_fuel(propagate, 2);
        assert(names.take(1).drop_last() =~= Seq::<Seq<char>>::empty());
    }
    propagate_one(&mut out, "Accept-Language", client);
    assert(fields_view(out@) == propagate(rv, names.take(2), cv)) by {
        assert(names.take(2).drop_last() == names.take(1));
    }
    propagate_one(&mut out, "Accept-Encoding", client);
    assert(fields_view(out@) == propagate(rv, names.take(3), cv)) by {
        assert(names.take(3).drop_last() == names.take(2));
    }
    propagate_one(&mut out, "Content-Type", client);
    assert(fields_view(out@) == propagate(rv, names.take(4), cv)) by {
        assert(names.take(4).drop_last() == names.take(3));
    }
    propagate_one(&mut out, "User-Agent", client);
    assert(fields_view(out@) == propagate(rv, names.take(5), cv)) by {
        assert(names.take(5).drop_last() == names.take(4));
    }
    propagate_one(&mut out, "Authorization", client);
    assert(fields_view(out@) == propagate(rv, names.take(6), cv)) by {
        assert(names.take(6).drop_last() == names.take(5));
    }
    propagate_one(&mut out, "Origin", client);
    assert(fields_view(out@) == propagate(rv, names.take(7), cv)) by {
        assert(names.take(7).drop_last() == names.take(6));
    }
    propagate_one(&mut out, "Referer", client);
    assert(fields_view(out@) == propagate(rv, names, cv)) by {
        assert(names.take(8) == names);
        assert(names.take(8).drop_last() == names.take(7));
    }
    match content_type {
        Some(ct) => {
            if !header_present(&out, "Content-Type") {
                let ghost before = fields_view(out@);
                out.push((to_owned_str("Content-Type"), to_owned_str(ct)));
                assert(fields_view(out@) =~= before.push(("Content-Type"@, ct@)));
            }
        },
        None => {},
    }
    out
}

/// The operator's headers win: whatever the route declares reaches the
/// upstream first, unchanged, and no client header of the same name is
/// added after it.
pub proof fn lemma_route_headers_win(
    route: Seq<(Seq<char>, Seq<char>)>,
    client: Seq<(Seq<char>, Seq<char>)>,
    names: Seq<Seq<char>>,
    n: Seq<char>,
)
    requires
        has_header(route, n),
    ensures
        propagate(route, names, client).len() >= route.len(),
        propagate(route, names, client).subrange(0, route.len() as int) == route,
        forall|i: int|
            route.len() <= i < propagate(route, names, client).len() ==> !is_named(
                #[trigger] propagate(route, names, client)[i],
                n,
            ),
    decreases names.len(),
{
    if names.len() > 0 {
        lemma_route_headers_win(route, client, names.drop_last(), n);
        let before = propagate(route, names.drop_last(), client);
        let m = names.last();
        assert(before.subrange(0, route.len() as int) == route);
        if !has_header(before, m) {
            match first_value(client, m) {
                Some(v) => {
                    let after = before.push((m, v));
                    assert(after.subrange(0, route.len() as int) == before.subrange(
                        0,
                        route.len() as int,
                    ));
                    assert forall|i: int| route.len() <= i < after.len() implies !is_named(
                        #[trigger] after[i],
                        n,
                    ) by {
                        if i < before.len() {
                            assert(after[i] == before[i]);
                        } else {
                            let j = choose|j: int| 0 <= j < route.len() && is_named(
                                #[trigger] route[j],
                                n,
                            );
                            assert(before[j] == route[j]);
                            if is_named(after[i], n) {
                                assert(eq_ignore_ascii_case(m, n));
                                assert(is_named(before[j], m));
                            }
                        }
                    }
                },
                None => {},
            }
        }
    } else {
        assert(route.subrange(0, route.len() as int) == route);
    }
}

/// Whether a header is one a webhook provider signs with or keys on: a
/// name that, lowered, holds `signature` or `idempotency`, or is
/// `x-request-id`.
pub open spec fn signature_like(lowered: Seq<char>) -> bool {
    has_infix(lowered, "signature"@) || has_infix(lowered, "idempotency"@) || lowered
        == "x-request-id"@
}

/// The extra headers a forwarded webhook keeps, in the request's order:
/// every signature-like one.
pub open spec fn signature_headers(fields: Seq<(Seq<char>, Seq<char>)>) -> Seq<
    (Seq<char>, Seq<char>),
>
    decreases fields.len(),
{
    if fields.len() == 0 {
        seq![]
    } else {
        let rest = signature_headers(fields.drop_last());
        if signature_like(crate::tls::lowercase(fields.last().0)) {
            rest.push(fields.last())
        } else {
            rest
        }
    }
}

/// The headers a forwarded webhook carries: the content type and the user
/// agent when sent, then every signature-like header, so signature
/// verification upstream sees what the provider sent.
pub open spec fn webhook_headers_spec(fields: Seq<(Seq<char>, Seq<char>)>) -> Seq<
    (Seq<char>, Seq<char>),
> {
    let ct = match first_value(fields, "Content-Type"@) {
        Some(v) => seq![("Content-Type"@, v)],
        None => seq![],
    };
    let ua = match first_value(fields, "User-Agent"@) {
        Some(v) => seq![("User-Agent"@, v)],
        None => seq![],
    };
    ct + ua + signature_headers(fields)
}

/// The headers to forward a webhook with, from the request's headers.
pub fn webhook_headers(fields: &Vec<(String, String)>) -> (r: Vec<(String, String)>)
    ensures
        fields_view(r@) == webhook_headers_spec(fields_view(fields@)),
{
    let ghost fv = fields_view(fields@);
    let mut out: Vec<(String, String)> = Vec::new();
    let ghost e = fields_view(out@);
    assert(e =~= Seq::<(Seq<char>, Seq<char>)>::empty());
    match first_value_exec(fields, "Content-Type") {
        Some(v) => out.push((to_owned_str("Content-Type"), v)),
        None => {},
    }
    match first_value_exec(fields, "User-Agent") {
        Some(v) => out.push((to_owned_str("User-Agent"), v)),
        None => {},
    }
    let ghost head = fields_view(out@);
    assert(head =~= (match first_value(fv, "Content-Type"@) {
        Some(v) => seq![("Content-Type"@, v)],
        None => seq![],
    }) + (match first_value(fv, "User-Agent"@) {
        Some(v) => seq![("User-Agent"@, v)],
        None => seq![],
    }));
    let mut i: usize = 0;
    while i < fields.len()
        invariant
            i <= fields.len(),
            fv == fields_view(fields@),
            fields_view(out@) == head + signature_headers(fv.take(i as int)),
        decreases fields.len() - i,
    {
        let lowered = crate::tls::to_lowercase(fields[i].0.as_str());
        let l = lowered.as_str();
        let keep = contains(l, "signature") || contains(l, "idempotency") || str_eq(
            l,
            "x-request-id",
        );
        assert(fv.take(i + 1).drop_last() == fv.take(i as int));
        assert(fv.take(i + 1).last() == fv[i as int]);
        if keep {
            let ghost before = fields_view(out@);
            out.push((fields[i].0.clone(), fields[i].1.clone()));
            assert(fields_view(out@) =~= before.push(fv[i as int]));
        }
        i += 1;
    }
    assert(fv.take(fields.len() as int) == fv);
    out
}

// ---------------------------------------------------------------------------
// The loopback dashboard listener
// ---------------------------------------------------------------------------

/// The request methods the loopback listener tells apart.
#[derive(Debug, PartialEq, Eq, Structural, Clone, Copy)]
pub enum Method {
    Get,
    Post,
    Other,
}

/// What the loopback listener does with a request: it serves the dashboard
/// and nothing else, the database browser by `GET` alone.
#[derive(Debug, PartialEq, Eq, Structural)]
pub enum LocalAction {
    DatabaseGet,
    DashboardGet,
    DashboardPost,
    /// 405: the database browser takes `GET` alone.
    DatabaseNotAllowed,
    /// 405: the dashboard takes `GET` and `POST`.
    MethodNotAllowed,
    /// 404: the listener serves `/admin` only.
    NotFound,
}

/// The loopback listener's dispatch.
pub open spec fn local_action_spec(method: Method, path: Seq<char>) -> LocalAction {
    if !is_admin_path_spec(path) {
        LocalAction::NotFound
    } else if is_database_path_spec(path) {
        if method == Method::Get {
            LocalAction::DatabaseGet
        } else {
            LocalAction::DatabaseNotAllowed
        }
    } else {
        match method {
            Method::Get => LocalAction::DashboardGet,
            Method::Post => LocalAction::DashboardPost,
            Method::Other => LocalAction::MethodNotAllowed,
        }
    }
}

/// Decide what the loopback listener does with a request.
pub fn local_action(method: Method, path: &str) -> (r: LocalAction)
    ensures
        r == local_action_spec(method, path@),
{
    if !is_admin_path(path) {
        return LocalAction::NotFound;
    }
    if is_database_path(path) {
        if method == Method::Get {
            return LocalAction::DatabaseGet;
        }
        return LocalAction::DatabaseNotAllowed;
    }
    match method {
        Method::Get => LocalAction::DashboardGet,
        Method::Post => LocalAction::DashboardPost,
        Method::Other => LocalAction::MethodNotAllowed,
    }
}

/// The text a refusal of the loopback listener is answered with.
pub fn local_refusal_text(a: &LocalAction) -> (r: Option<&'static str>)
    ensures
        *a == LocalAction::DatabaseNotAllowed ==> r == Some("Only GET is supported on the ozone route."),
        *a == LocalAction::MethodNotAllowed ==> r == Some("Only GET and POST are supported."),
        *a == LocalAction::NotFound ==> r == Some("The localhost listener serves /admin only."),
        (*a == LocalAction::DatabaseGet || *a == LocalAction::DashboardGet || *a
            == LocalAction::DashboardPost) ==> r is None,
{
    match a {
        LocalAction::DatabaseNotAllowed => Some("Only GET is supported on the ozone route."),
        LocalAction::MethodNotAllowed => Some("Only GET and POST are supported."),
        LocalAction::NotFound => Some("The localhost listener serves /admin only."),
        _ => None,
    }
}

/// The status a refusal of the loopback listener is answered with: 404 for
/// a path outside `/admin`, 405 for a method the route does not take.
pub fn local_refusal_status(a: &LocalAction) -> (r: Option<u16>)
    ensures
        *a == LocalAction::NotFound ==> r == Some(404u16),
        (*a == LocalAction::DatabaseNotAllowed || *a == LocalAction::MethodNotAllowed) ==> r
            == Some(405u16),
        (*a == LocalAction::DatabaseGet || *a == LocalAction::DashboardGet || *a
            == LocalAction::DashboardPost) ==> r is None,
{
    match a {
        LocalAction::NotFound => Some(404),
        LocalAction::DatabaseNotAllowed => Some(405),
        LocalAction::MethodNotAllowed => Some(405),
        _ => None,
    }
}

/// The vhost the loopback listener's traffic is recorded under, so the
/// dashboard can tell it from public traffic.
pub const LOCAL_VHOST: &'static str = "_admin_local";

/// The traffic record of one loopback request.
pub fn local_record(
    when_ns: u64,
    method: String,
    path: String,
    status: u16,
    peer: String,
    body_len: u64,
    duration_us: u64,
) -> (r: crate::traffic::RequestRecord)
    ensures
        r@.when_ns == when_ns,
        r@.vhost == LOCAL_VHOST@,
        r@.method == method@,
        r@.path == path@,
        r@.status == status,
        r@.peer == peer@,
        r@.bytes == Some(body_len),
        r@.duration_us == duration_us,
{
    crate::traffic::RequestRecord {
        when_ns,
        vhost: to_owned_str(LOCAL_VHOST),
        method,
        path,
        status,
        peer,
        bytes: Some(body_len),
        duration_us,
    }
}

} // verus!

//! The admin dashboard's request handling: which view a `/admin/*` path is,
//! who may see it, and the pages and feeds it answers with.
//!
//! Reading the wallet, the session cipher and the guard is the caller's;
//! everything decided from what they report is here.

use vstd::prelude::*;
use vstd::utf8::*;
use crate::alert::{join, join_spec};
use crate::assets::{
    html_escape, html_escape_spec, layout_spec, login_layout_spec, render_layout, render_login_layout,
};
use crate::cache::{Response, ResponseView, fields_view};
use crate::principal::{may_view_dashboard, strings_view, AdminPrincipal, PrincipalView};
use crate::session::{SessionError, SESSION_COOKIE_NAME};
use crate::text::{decimal, hex_lower, push_char, push_decimal, push_hex, str_eq, to_owned_str, zero_pad};

verus! {

broadcast use {encode_utf8_valid_utf8, encode_utf8_decode_utf8};

// ---------------------------------------------------------------------------
// Routes
// ---------------------------------------------------------------------------

/// Dashboard root: the authenticated landing page.
pub const PATH_ROOT: &'static str = "/admin";
/// Login form (GET) and login submission (POST).
pub const PATH_LOGIN: &'static str = "/admin/login";
/// Logout (GET): clears the session cookie and redirects to login.
pub const PATH_LOGOUT: &'static str = "/admin/logout";
/// Traffic view (GET).
pub const PATH_TRAFFIC: &'static str = "/admin/traffic";
/// JSON feed of the host sampler's history for the overview strip.
pub const PATH_HOST_JSON: &'static str = "/admin/host.json";
/// JSON feed of the traffic view.
pub const PATH_TRAFFIC_JSON: &'static str = "/admin/traffic.json";
/// Security view (GET) and guard actions (POST).
pub const PATH_SECURITY: &'static str = "/admin/security";
/// Admin management view (GET) and its add and remove forms (POST).
pub const PATH_ADMINS: &'static str = "/admin/admins";
/// The dashboard's heading font, served without a session.
pub const PATH_ASSET_OXANIUM: &'static str = "/admin/assets/oxanium.ttf";
/// Signed-login challenge (GET).
pub const PATH_CHALLENGE: &'static str = "/admin/challenge";
/// Signed-login submission (POST).
pub const PATH_SIGNED_LOGIN: &'static str = "/admin/signed-login";

/// The view a dashboard `GET` is for.
#[derive(Debug, PartialEq, Eq, Structural)]
pub enum GetRoute {
    FontOxanium,
    LoginForm,
    Logout,
    Home,
    Traffic,
    HostJson,
    TrafficJson,
    Security,
    Admins,
    Challenge,
    NotFound,
}

/// The view of a dashboard `GET` path, by exact match.
pub open spec fn get_route_of(path: Seq<char>) -> GetRoute {
    if path == PATH_ASSET_OXANIUM@ {
        GetRoute::FontOxanium
    } else if path == PATH_LOGIN@ {
        GetRoute::LoginForm
    } else if path == PATH_LOGOUT@ {
        GetRoute::Logout
    } else if path == PATH_ROOT@ {
        GetRoute::Home
    } else if path == PATH_TRAFFIC@ {
        GetRoute::Traffic
    } else if path == PATH_HOST_JSON@ {
        GetRoute::HostJson
    } else if path == PATH_TRAFFIC_JSON@ {
        GetRoute::TrafficJson
    } else if path == PATH_SECURITY@ {
        GetRoute::Security
    } else if path == PATH_ADMINS@ {
        GetRoute::Admins
    } else if path == PATH_CHALLENGE@ {
        GetRoute::Challenge
    } else {
        GetRoute::NotFound
    }
}

/// Dispatch a `GET` against a `/admin/*` path.
pub fn route_get(path: &str) -> (r: GetRoute)
    ensures
        r == get_route_of(path@),
{
    if str_eq(path, PATH_ASSET_OXANIUM) {
        GetRoute::FontOxanium
    } else if str_eq(path, PATH_LOGIN) {
        GetRoute::LoginForm
    } else if str_eq(path, PATH_LOGOUT) {
        GetRoute::Logout
    } else if str_eq(path, PATH_ROOT) {
        GetRoute::Home
    } else if str_eq(path, PATH_TRAFFIC) {
        GetRoute::Traffic
    } else if str_eq(path, PATH_HOST_JSON) {
        GetRoute::HostJson
    } else if str_eq(path, PATH_TRAFFIC_JSON) {
        GetRoute::TrafficJson
    } else if str_eq(path, PATH_SECURITY) {
        GetRoute::Security
    } else if str_eq(path, PATH_ADMINS) {
        GetRoute::Admins
    } else if str_eq(path, PATH_CHALLENGE) {
        GetRoute::Challenge
    } else {
        GetRoute::NotFound
    }
}

/// The action a dashboard `POST` is for.
#[derive(Debug, PartialEq, Eq, Structural)]
pub enum PostRoute {
    Login,
    SignedLogin,
    Security,
    Admins,
    NotFound,
}

/// The action of a dashboard `POST` path, by exact match.
pub open spec fn post_route_of(path: Seq<char>) -> PostRoute {
    if path == PATH_LOGIN@ {
        PostRoute::Login
    } else if path == PATH_SIGNED_LOGIN@ {
        PostRoute::SignedLogin
    } else if path == PATH_SECURITY@ {
        PostRoute::Security
    } else if path == PATH_ADMINS@ {
        PostRoute::Admins
    } else {
        PostRoute::NotFound
    }
}

/// Dispatch a `POST` against a `/admin/*` path.
pub fn route_post(path: &str) -> (r: PostRoute)
    ensures
        r == post_route_of(path@),
{
    if str_eq(path, PATH_LOGIN) {
        PostRoute::Login
    } else if str_eq(path, PATH_SIGNED_LOGIN) {
        PostRoute::SignedLogin
    } else if str_eq(path, PATH_SECURITY) {
        PostRoute::Security
    } else if str_eq(path, PATH_ADMINS) {
        PostRoute::Admins
    } else {
        PostRoute::NotFound
    }
}

// ---------------------------------------------------------------------------
// Who may see what
// ---------------------------------------------------------------------------

/// The auth gate every authenticated view shares: a session that decoded
/// and has not expired, whose principal may see the dashboard. Any failure
/// -- tampered, expired, unknown version, no dashboard scope -- is `None`,
/// and the caller sends the visitor to sign in.
pub fn admit_principal(decoded: Result<AdminPrincipal, SessionError>) -> (r: Option<
    AdminPrincipal,
>)
    ensures
        match decoded {
            Ok(p) => if may_view_dashboard(p@.scopes) {
                r matches Some(q) && q@ == p@
            } else {
                r is None
            },
            Err(_) => r is None,
        },
{
    match decoded {
        Ok(p) => {
            if p.can_view_dashboard() {
                Some(p)
            } else {
                None
            }
        },
        Err(_) => None,
    }
}

// ---------------------------------------------------------------------------
// Responses
// ---------------------------------------------------------------------------

/// Status of a successful page.
pub const STATUS_OK: u16 = 200;
/// Status of a redirect after a form or to the login page.
pub const STATUS_SEE_OTHER: u16 = 303;
/// Status of a feed asked for without a session.
pub const STATUS_UNAUTHORIZED: u16 = 401;
/// Status of a path the dashboard does not have.
pub const STATUS_NOT_FOUND: u16 = 404;

/// A `200 OK` carrying an HTML page.
pub open spec fn html_response_spec(body: Seq<char>) -> ResponseView {
    ResponseView {
        status: STATUS_OK,
        fields: seq![("Content-Type"@, "text/html; charset=utf-8"@)],
        body: encode_utf8(body),
    }
}

/// Build a `200 OK` response with a UTF-8 HTML body.
pub fn html_response(body: String) -> (r: Response)
    ensures
        r@ == html_response_spec(body@),
{
    let bytes = vstd::slice::slice_to_vec(body.as_str().as_bytes());
    let r = Response::new(STATUS_OK).with_field(
        to_owned_str("Content-Type"),
        to_owned_str("text/html; charset=utf-8"),
    ).with_body(bytes);
    assert(r@.fields =~= html_response_spec(body@).fields);
    r
}

/// A `303` to `location`.
pub open spec fn redirect_spec(location: Seq<char>) -> ResponseView {
    ResponseView { status: STATUS_SEE_OTHER, fields: seq![("Location"@, location)], body: seq![] }
}

/// Build a `303` redirect to the login form, for any authenticated route
/// hit without a valid session.
pub fn redirect_to_login() -> (r: Response)
    ensures
        r@ == redirect_spec(PATH_LOGIN@),
{
    let r = Response::new(STATUS_SEE_OTHER).with_field(
        to_owned_str("Location"),
        to_owned_str(PATH_LOGIN),
    );
    assert(r@.fields =~= redirect_spec(PATH_LOGIN@).fields);
    r
}

/// A plain-text response.
pub open spec fn text_response_spec(status: u16, text: Seq<char>) -> ResponseView {
    ResponseView {
        status,
        fields: seq![("Content-Type"@, "text/plain; charset=utf-8"@)],
        body: encode_utf8(text),
    }
}

/// Build a plain-text response, as for a route that is not there.
pub fn text_response(status: u16, text: &str) -> (r: Response)
    ensures
        r@ == text_response_spec(status, text@),
{
    let bytes = vstd::slice::slice_to_vec(text.as_bytes());
    let r = Response::new(status).with_field(
        to_owned_str("Content-Type"),
        to_owned_str("text/plain; charset=utf-8"),
    ).with_body(bytes);
    assert(r@.fields =~= text_response_spec(status, text@).fields);
    r
}

/// Attributes of the session cookie the dashboard sets.
pub struct SessionCookie {
    pub key: String,
    pub value: String,
    pub path: String,
    pub http_only: bool,
    pub secure: bool,
    pub same_site_strict: bool,
    pub max_age: Option<u64>,
}

/// Build the `Set-Cookie` for the session: under the session cookie name,
/// confined to `/admin`, `HttpOnly`, `Secure` and `SameSite=Strict` so page
/// script cannot read it and cross-site requests cannot present it. With
/// `clear`, it carries `Max-Age=0`, which evicts the browser's copy.
pub fn build_session_cookie(cookie_value: String, clear: bool) -> (r: SessionCookie)
    ensures
        r.key@ == SESSION_COOKIE_NAME@,
        r.value@ == cookie_value@,
        r.path@ == PATH_ROOT@,
        r.http_only && r.secure && r.same_site_strict,
        r.max_age == if clear {
            Some(0u64)
        } else {
            None::<u64>
        },
{
    SessionCookie {
        key: to_owned_str(SESSION_COOKIE_NAME),
        value: cookie_value,
        path: to_owned_str(PATH_ROOT),
        http_only: true,
        secure: true,
        same_site_strict: true,
        max_age: if clear {
            Some(0)
        } else {
            None
        },
    }
}

// ---------------------------------------------------------------------------
// Login form
// ---------------------------------------------------------------------------

/// The notice shown on the login form while Steel is sealed.
pub open spec fn sealed_notice() -> Seq<char> {
    "<p class=\"notice warn\"><strong>Steel is sealed.</strong> The websites are serving, but the databases are shut: no master key is loaded. Signing in with an admin passphrase unseals them.</p>\n"@
}

/// What signing in does: unseal as well, when sealed.
pub open spec fn sign_in_action(sealed: bool) -> Seq<char> {
    if sealed {
        "Sign in and unseal"@
    } else {
        "Sign in"@
    }
}

/// The body of the login card.
pub open spec fn login_body_spec(sealed: bool, error_msg: Option<Seq<char>>) -> Seq<char> {
    (if sealed {
        sealed_notice()
    } else {
        seq![]
    }) + (match error_msg {
        Some(m) => "<p class=\"notice error\">"@ + html_escape_spec(m) + "</p>"@,
        None => seq![],
    })
        + "<form class=\"steel-form\" method=\"POST\" action=\"/admin/login\">\n<label for=\"passphrase\">Wallet passphrase</label>\n<input type=\"password\" id=\"passphrase\" name=\"passphrase\" autofocus required>\n<button type=\"submit\">"@
        + sign_in_action(sealed) + "</button>\n</form>\n"@
}

/// Build the login page. `error_msg`, when present, is shown above the
/// form; when Steel is sealed the form says so, and says that signing in
/// will unseal it. `css` is the stylesheet inlined into the page.
pub fn render_login_form(sealed: bool, error_msg: Option<&str>, css: &str) -> (r: Response)
    ensures
        r@ == html_response_spec(
            login_layout_spec(
                sign_in_action(sealed),
                login_body_spec(
                    sealed,
                    match error_msg {
                        Some(m) => Some(m@),
                        None => None,
                    },
                ),
                css@,
            ),
        ),
{
    let mut body = String::new();
    if sealed {
        body.append(
            "<p class=\"notice warn\"><strong>Steel is sealed.</strong> The websites are serving, but the databases are shut: no master key is loaded. Signing in with an admin passphrase unseals them.</p>\n",
        );
    }
    match error_msg {
        Some(m) => {
            body.append("<p class=\"notice error\">");
            let e = html_escape(m);
            body.append(e.as_str());
            body.append("</p>");
        },
        None => {},
    }
    body.append(
        "<form class=\"steel-form\" method=\"POST\" action=\"/admin/login\">\n<label for=\"passphrase\">Wallet passphrase</label>\n<input type=\"password\" id=\"passphrase\" name=\"passphrase\" autofocus required>\n<button type=\"submit\">",
    );
    let action = if sealed {
        "Sign in and unseal"
    } else {
        "Sign in"
    };
    body.append(action);
    body.append("</button>\n</form>\n");
    assert(action@ == sign_in_action(sealed));
    assert(body@ =~= login_body_spec(
        sealed,
        match error_msg {
            Some(m) => Some(m@),
            None => None,
        },
    ));
    let html = render_login_layout(action, body.as_str(), css);
    html_response(html)
}

// ---------------------------------------------------------------------------
// Labels
// ---------------------------------------------------------------------------

/// The CSS class of a status chip, by HTTP status class.
pub open spec fn chip_class_spec(status: u16) -> Seq<char> {
    if 200 <= status && status <= 299 {
        "chip-ok"@
    } else if 300 <= status && status <= 399 {
        "chip-redirect"@
    } else if 400 <= status && status <= 499 {
        "chip-client"@
    } else if 500 <= status && status <= 599 {
        "chip-server"@
    } else {
        ""@
    }
}

/// Pick a CSS class for a status chip based on the HTTP class.
pub fn chip_class_for_status(status: u16) -> (r: &'static str)
    ensures
        r@ == chip_class_spec(status),
{
    if 200 <= status && status <= 299 {
        "chip-ok"
    } else if 300 <= status && status <= 399 {
        "chip-redirect"
    } else if 400 <= status && status <= 499 {
        "chip-client"
    } else if 500 <= status && status <= 599 {
        "chip-server"
    } else {
        ""
    }
}

/// A word or two for a status class.
pub open spec fn status_description_spec(status: u16) -> Seq<char> {
    if 200 <= status && status <= 299 {
        "success"@
    } else if 300 <= status && status <= 399 {
        "redirect"@
    } else if 400 <= status && status <= 499 {
        "client error"@
    } else if 500 <= status && status <= 599 {
        "server error"@
    } else {
        "informational"@
    }
}

/// Human-readable description for a status code class.
pub fn status_description(status: u16) -> (r: &'static str)
    ensures
        r@ == status_description_spec(status),
{
    if 200 <= status && status <= 299 {
        "success"
    } else if 300 <= status && status <= 399 {
        "redirect"
    } else if 400 <= status && status <= 499 {
        "client error"
    } else if 500 <= status && status <= 599 {
        "server error"
    } else {
        "informational"
    }
}

/// A guard action the security view offers.
#[derive(Debug, PartialEq, Eq, Structural, Clone, Copy)]
pub enum SecurityAction {
    Whitelist,
    Blacklist,
    Unblock,
}

/// The guard action a form's `action` field names, if any.
pub open spec fn security_action_spec(raw: Seq<char>) -> Option<SecurityAction> {
    if raw == "whitelist"@ {
        Some(SecurityAction::Whitelist)
    } else if raw == "blacklist"@ {
        Some(SecurityAction::Blacklist)
    } else if raw == "unblock"@ {
        Some(SecurityAction::Unblock)
    } else {
        None
    }
}

/// Read the security form's `action` field.
pub fn security_action(raw: &str) -> (r: Option<SecurityAction>)
    ensures
        r == security_action_spec(raw@),
{
    if str_eq(raw, "whitelist") {
        Some(SecurityAction::Whitelist)
    } else if str_eq(raw, "blacklist") {
        Some(SecurityAction::Blacklist)
    } else if str_eq(raw, "unblock") {
        Some(SecurityAction::Unblock)
    } else {
        None
    }
}

/// The past-tense label of a security action in the flash banner.
pub open spec fn action_label_spec(raw: Seq<char>) -> Seq<char> {
    match security_action_spec(raw) {
        Some(SecurityAction::Whitelist) => "Whitelisted"@,
        Some(SecurityAction::Blacklist) => "Blacklisted"@,
        Some(SecurityAction::Unblock) => "Reset"@,
        None => "Applied"@,
    }
}

/// Past-tense label used in the security flash banner so each successful
/// action reads as a sentence.
pub fn action_label(action_raw: &str) -> (r: &'static str)
    ensures
        r@ == action_label_spec(action_raw@),
{
    match security_action(action_raw) {
        Some(SecurityAction::Whitelist) => "Whitelisted",
        Some(SecurityAction::Blacklist) => "Blacklisted",
        Some(SecurityAction::Unblock) => "Reset",
        None => "Applied",
    }
}

// ---------------------------------------------------------------------------
// Flash banners
// ---------------------------------------------------------------------------

/// The outcome of a mutation from a form, threaded back into the page it
/// was posted from as a notice above the form.
pub struct Flash {
    /// `true` for a plain notice, `false` for an error.
    pub ok: bool,
    pub message: String,
}

/// The banner for a flash, if any.
pub open spec fn flash_html_spec(flash: Option<(bool, Seq<char>)>) -> Seq<char> {
    match flash {
        None => seq![],
        Some((ok, m)) => "<p class=\"notice "@ + (if ok {
            seq![]
        } else {
            "error"@
        }) + "\">"@ + html_escape_spec(m) + "</p>\n"@,
    }
}

/// Render the flash banner above a form, if there is one.
pub fn render_flash(flash: Option<&Flash>) -> (r: String)
    ensures
        r@ == flash_html_spec(
            match flash {
                Some(f) => Some((f.ok, f.message@)),
                None => None,
            },
        ),
{
    match flash {
        None => String::new(),
        Some(f) => {
            let mut s = to_owned_str("<p class=\"notice ");
            if !f.ok {
                s.append("error");
            }
            s.append("\">");
            let m = html_escape(f.message.as_str());
            s.append(m.as_str());
            s.append("</p>\n");
            s
        },
    }
}

// ---------------------------------------------------------------------------
// JSON
// ---------------------------------------------------------------------------

/// One character escaped for a JSON string literal: quote, backslash and
/// the three common controls by their short escapes, any other control
/// character as `\u` and four hex digits, everything else as itself.
pub open spec fn json_escape_char(c: char) -> Seq<char> {
    if c == '"' {
        seq!['\\', '"']
    } else if c == '\\' {
        seq!['\\', '\\']
    } else if c == '\n' {
        seq!['\\', 'n']
    } else if c == '\r' {
        seq!['\\', 'r']
    } else if c == '\t' {
        seq!['\\', 't']
    } else if (c as u32) < 0x20 {
        seq!['\\', 'u'] + zero_pad(hex_lower((c as u32) as nat), 4)
    } else {
        seq![c]
    }
}

/// `s` escaped for a JSON string literal, character by character.
pub open spec fn json_escape_spec(s: Seq<char>) -> Seq<char>
    decreases s.len(),
{
    if s.len() == 0 {
        seq![]
    } else {
        json_escape_spec(s.drop_last()) + json_escape_char(s.last())
    }
}

/// Escape a string for inclusion inside a JSON string literal.
pub fn json_escape(s: &str) -> (r: String)
    ensures
        r@ == json_escape_spec(s@),
{
    let cs = crate::text::chars_of(s);
    let mut out = String::new();
    let mut i: usize = 0;
    while i < cs.len()
        invariant
            i <= cs.len(),
            out@ == json_escape_spec(cs@.take(i as int)),
        decreases cs.len() - i,
    {
        let c = cs[i];
        let ghost before = out@;
        if c == '"' {
            push_char(&mut out, '\\');
            push_char(&mut out, '"');
        } else if c == '\\' {
            push_char(&mut out, '\\');
            push_char(&mut out, '\\');
        } else if c == '\n' {
            push_char(&mut out, '\\');
            push_char(&mut out, 'n');
        } else if c == '\r' {
            push_char(&mut out, '\\');
            push_char(&mut out, 'r');
        } else if c == '\t' {
            push_char(&mut out, '\\');
            push_char(&mut out, 't');
        } else if (c as u32) < 0x20 {
            let u: u32 = c as u32;
            push_char(&mut out, '\\');
            push_char(&mut out, 'u');
            crate::text::push_hex_padded(&mut out, u as u64, 4);
        } else {
            push_char(&mut out, c);
        }
        assert(out@ == before + json_escape_char(c));
        assert(cs@.take(i + 1).drop_last() == cs@.take(i as int));
        assert(cs@.take(i + 1).last() == c);
        i += 1;
    }
    assert(cs@.take(cs.len() as int) == cs@);
    out
}

// ---------------------------------------------------------------------------
// The overview
// ---------------------------------------------------------------------------

/// The four host resource cards of the overview; the page script fills
/// them from the host feed.
pub const HOST_SPARKLINE_STRIP: &'static str = "<h2>Host resources</h2>\n<p class=\"meta\">Last hour, sampled every 5 s. Waiting on the first full pair of samples before charts draw.</p>\n<div class=\"spark-row\">\n<div class=\"spark-card\"><div class=\"spark-header\"><span class=\"spark-label\">CPU busy</span><span class=\"spark-value\" id=\"spark-cpu-val\">&mdash;</span></div><div class=\"spark-plot\" id=\"spark-cpu\"></div></div>\n<div class=\"spark-card\"><div class=\"spark-header\"><span class=\"spark-label\">Memory used</span><span class=\"spark-value\" id=\"spark-mem-val\">&mdash;</span></div><div class=\"spark-plot\" id=\"spark-mem\"></div></div>\n<div class=\"spark-card\"><div class=\"spark-header\"><span class=\"spark-label\">Disk I/O</span><span class=\"spark-value\" id=\"spark-disk-val\">&mdash;</span></div><div class=\"spark-plot\" id=\"spark-disk\"></div></div>\n<div class=\"spark-card\"><div class=\"spark-header\"><span class=\"spark-label\">Network</span><span class=\"spark-value\" id=\"spark-net-val\">&mdash;</span></div><div class=\"spark-plot\" id=\"spark-net\"></div></div>\n</div>\n";

/// The links to the live views.
pub const LIVE_VIEWS: &'static str = "<h2>Live views</h2>\n<ul>\n<li><a href=\"/admin/traffic\">Traffic</a> &mdash; recent requests across every vhost on this host.</li>\n<li><a href=\"/admin/database\">Database</a> &mdash; browse keys and fetch values from this vhost's ozone database.</li>\n<li><a href=\"/admin/security\">Security</a> &mdash; address guard state and per-IP controls.</li>\n<li><a href=\"/admin/admins\">Admins</a> &mdash; manage wallet admin entries (requires <code>admin</code> scope).</li>\n</ul>\n";

/// The body of the overview for an admin named `name` with `scopes`.
pub open spec fn home_body_spec(name: Seq<char>, scopes: Seq<Seq<char>>) -> Seq<char> {
    "<h1>Overview</h1>\n<p>Welcome, <strong>"@ + html_escape_spec(name)
        + "</strong>.</p>\n<p class=\"meta\">Scopes: <code>"@ + html_escape_spec(join_spec(scopes, " "@))
        + "</code></p>\n"@ + HOST_SPARKLINE_STRIP@ + LIVE_VIEWS@
}

/// The overview page: who is signed in with which scopes, the host
/// resource cards and the links to the live views.
pub fn render_home(principal: &AdminPrincipal, css: &str) -> (r: Response)
    ensures
        r@ == html_response_spec(
            layout_spec(
                "Overview"@,
                PATH_ROOT@,
                principal@.name,
                home_body_spec(principal@.name, principal@.scopes),
                css@,
            ),
        ),
{
    let mut body = to_owned_str("<h1>Overview</h1>\n<p>Welcome, <strong>");
    let n = html_escape(principal.name.as_str());
    body.append(n.as_str());
    body.append("</strong>.</p>\n<p class=\"meta\">Scopes: <code>");
    let j = join(&principal.scopes, " ");
    let sc = html_escape(j.as_str());
    body.append(sc.as_str());
    body.append("</code></p>\n");
    body.append(HOST_SPARKLINE_STRIP);
    body.append(LIVE_VIEWS);
    let html = render_layout("Overview", PATH_ROOT, principal, body.as_str(), css);
    html_response(html)
}

} // verus!

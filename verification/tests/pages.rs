use fe2o3_steel::admins::{
    admins_post_action, render_admin_forbidden, render_admins, render_admins_error, AdminsPost,
};
use fe2o3_steel::cli::AdminRow;
use fe2o3_steel::handler::{render_home, Flash, SecurityAction};
use fe2o3_steel::ozone::{
    parse_query, render_error_page, render_list_page, render_no_db_page, DetailOutcome, DetailView,
};
use fe2o3_steel::principal::AdminPrincipal;
use fe2o3_steel::security::{
    applied_flash, order_entries, plan_security_action, render_security, render_security_error,
    security_form,
    GuardCounts, GuardEntry,
};
use fe2o3_steel::traffic::{RequestRecord, TrafficRecorder};
use fe2o3_steel::traffic_view::{render_traffic, render_traffic_json};

fn who(scopes: &[&str]) -> AdminPrincipal {
    AdminPrincipal {
        name: "ops".to_string(),
        scopes: scopes.iter().map(|s| s.to_string()).collect(),
        expires_at: 0,
    }
}

fn body(r: &fe2o3_steel::cache::Response) -> String {
    String::from_utf8(r.body.clone()).unwrap()
}

fn entry(ip: &str, state: &str, total: u64) -> GuardEntry {
    GuardEntry { ip: ip.to_string(), state: state.to_string(), total_reqs: total, throttle_cnt: 0 }
}

#[test]
fn attacks_rise_to_the_top_of_the_guard_view() {
    let out = order_entries(vec![
        entry("10.0.0.1", "monitor", 5),
        entry("10.0.0.2", "whitelist", 900),
        entry("10.0.0.3", "blacklist", 3),
        entry("10.0.0.4", "throttle", 40),
        entry("10.0.0.5", "blacklist", 70),
        entry("10.0.0.6", "monitor", 50),
        entry("10.0.0.7", "odd", 1),
    ]);
    let ips: Vec<&str> = out.iter().map(|e| e.ip.as_str()).collect();
    assert_eq!(
        ips,
        vec!["10.0.0.5", "10.0.0.3", "10.0.0.4", "10.0.0.6", "10.0.0.1", "10.0.0.2", "10.0.0.7"]
    );
}

#[test]
fn ties_in_the_guard_view_keep_the_snapshot_order() {
    let out = order_entries(vec![
        entry("a", "monitor", 5),
        entry("b", "monitor", 5),
        entry("c", "monitor", 5),
    ]);
    let ips: Vec<&str> = out.iter().map(|e| e.ip.as_str()).collect();
    assert_eq!(ips, vec!["a", "b", "c"]);
    assert!(order_entries(Vec::new()).is_empty());
}

#[test]
fn the_security_page_offers_controls_only_to_guard_admins() {
    let counts = GuardCounts { total: 2, monitor: 1, throttle: 0, blacklist: 1, whitelist: 0 };
    let entries = vec![entry("198.51.100.1", "monitor", 9), entry("<x>", "blacklist", 2)];
    let admin = render_security(&who(&["dashboard.admin"]), None, &counts, entries, "");
    let page = body(&admin);
    assert_eq!(admin.status, 200);
    assert!(page.contains("<div class=\"chip-label\">Blacklisted</div><div class=\"chip-value\">1</div>"));
    assert!(page.contains("Total observed: <strong>2</strong>. Snapshot cap: 256. Showing 2 rows."));
    assert!(page.find("&lt;x&gt;").unwrap() < page.find("198.51.100.1").unwrap());
    assert!(page.contains("value=\"unblock\">Reset</button>"));
    assert!(page.contains("<h2>Block a specific address</h2>"));

    let counts = GuardCounts { total: 0, monitor: 0, throttle: 0, blacklist: 0, whitelist: 0 };
    let viewer = body(&render_security(&who(&["dashboard.view"]), None, &counts, Vec::new(), ""));
    assert!(viewer.contains("<p class=\"notice empty\">No addresses observed yet.</p>"));
    assert!(!viewer.contains("Block a specific address"));

    let counts = GuardCounts { total: 1, monitor: 1, throttle: 0, blacklist: 0, whitelist: 0 };
    let one = body(&render_security(&who(&["dashboard.view"]), None, &counts, vec![entry("192.0.2.9", "monitor", 1)], ""));
    assert!(one.contains("<td><em>view only</em></td>"));

    let err = body(&render_security_error(&who(&["dashboard.view"]), "Address guard is unavailable.", ""));
    assert!(err.contains("<h1>Security</h1>\n<p class=\"notice error\">Address guard is unavailable.</p>\n"));
}

#[test]
fn guard_forms_are_checked_before_the_guard_is_touched() {
    let bad = plan_security_action("blacklist", "not-an-ip", None).err().unwrap();
    assert!(!bad.ok);
    assert_eq!(bad.message, "Not a valid IP address: 'not-an-ip'.");
    let unknown = plan_security_action("explode", "::1", Some("::1".to_string())).err().unwrap();
    assert_eq!(unknown.message, "Unknown security action 'explode'.");
    let ok = plan_security_action("unblock", "::0001", Some("::1".to_string())).ok().unwrap();
    assert_eq!(ok.0, SecurityAction::Unblock);
    assert_eq!(ok.1, "::1");
}

#[test]
fn guard_results_read_as_sentences() {
    let done = applied_flash("whitelist", "192.0.2.1", Ok(()));
    assert!(done.ok);
    assert_eq!(done.message, "Whitelisted 192.0.2.1.");
    let failed = applied_flash("blacklist", "192.0.2.1", Err("full".to_string()));
    assert!(!failed.ok);
    assert_eq!(failed.message, "Failed to blacklist 192.0.2.1: full");
}

#[test]
fn admin_management_needs_the_admin_scope() {
    let rows = vec![
        AdminRow { name: "root".to_string(), expires_at: 0, scopes: vec!["*".to_string()] },
        AdminRow { name: "<b>".to_string(), expires_at: 1_700_000_000, scopes: Vec::new() },
    ];
    let flash = Flash { ok: true, message: "Added admin 'x'.".to_string() };
    let page = body(&render_admins(&who(&["admin", "dashboard.view"]), &rows, Some(&flash), ""));
    assert!(page.contains("<p class=\"notice \">Added admin &#39;x&#39;.</p>"));
    assert!(page.contains("Wallet currently holds <strong>2</strong> admin entries."));
    assert!(page.contains("<tr><td><strong>root</strong></td><td>never</td><td><code>*</code></td>"));
    assert!(page.contains("<td>unix 1700000000</td><td><code><em>(none)</em></code></td>"));
    assert!(page.contains("confirm('Remove admin &lt;b&gt;?');"));
    assert!(page.contains("<button type=\"submit\">Add admin</button>"));

    let forbidden = body(&render_admins(&who(&["dashboard.view"]), &rows, None, ""));
    assert!(forbidden.contains("does not hold the <code>admin</code> scope"));
    assert!(!forbidden.contains("root"));
    assert_eq!(forbidden, body(&render_admin_forbidden(&who(&["dashboard.view"]), "")));

    let err = body(&render_admins_error(&who(&["admin"]), "Wallet lock is poisoned.", ""));
    assert!(err.contains("<p class=\"notice error\">Wallet lock is poisoned.</p>"));
}

#[test]
fn the_overview_greets_the_admin_by_name() {
    let page = body(&render_home(&who(&["dashboard.view", "a&b"]), ""));
    assert!(page.contains("<p>Welcome, <strong>ops</strong>.</p>"));
    assert!(page.contains("Scopes: <code>dashboard.view a&amp;b</code>"));
    assert!(page.contains("<span class=\"spark-label\">Disk I/O</span>"));
    assert!(page.contains("<a href=\"/admin/security\">Security</a>"));
}

fn rec(status: u16, path: &str) -> RequestRecord {
    RequestRecord {
        when_ns: 1,
        vhost: "example.org".to_string(),
        method: "GET".to_string(),
        path: path.to_string(),
        status,
        peer: "192.0.2.1".to_string(),
        bytes: None,
        duration_us: 250,
    }
}

#[test]
fn the_traffic_page_shows_chips_chart_and_recent_requests() {
    let mut t = TrafficRecorder::new(10);
    t.record(rec(404, "/missing"));
    t.sample_at(100);
    t.record(rec(200, "/a\"b"));
    t.record(rec(200, "/"));
    t.sample_at(105);
    let counters = t.counters_snapshot();
    let history = t.history_snapshot();
    let recent = t.recent(50);
    let durs = vec!["250 \u{b5}s".to_string(); recent.len()];
    let page = body(&render_traffic(&who(&["dashboard.view"]), &counters, "0.40", &history, &recent, &durs, "", ""));
    assert!(page.contains("<div class=\"chip-label\">Total</div><div class=\"chip-value\">3</div>"));
    assert!(page.contains("<div class=\"chip-value\">0.40</div>"));
    let ok = page.find("HTTP 200").unwrap();
    let missing = page.find("HTTP 404").unwrap();
    assert!(ok < missing, "status chips in ascending order");
    assert!(page.contains("{\"t\":[105],\"series\":[{\"label\":\"HTTP 200\",\"values\":[2]},{\"label\":\"HTTP 404\",\"values\":[0]}]}"));
    assert!(page.contains("<td class=\"path\"><code>/a&quot;b</code></td>"));
    assert!(page.contains("<td class=\"num\">250 \u{b5}s</td>"));

    let json = body(&render_traffic_json(&counters, "0.4", &history, &recent, &durs));
    assert!(json.starts_with("{\"counters\":{\"total\":3,\"rate\":0.4,\"by_status\":[{\"code\":200,\"count\":2},{\"code\":404,\"count\":1}]},\"chart\":"));
    assert!(json.contains("\"path\":\"/a\\\"b\""));
    assert!(json.ends_with("\"status\":404,\"duration\":\"250 \u{b5}s\"}]}"));

    let empty = TrafficRecorder::new(10);
    let page = body(&render_traffic(&who(&["dashboard.view"]), &empty.counters_snapshot(), "0.00", &Vec::new(), &Vec::new(), &Vec::new(), "", ""));
    assert!(page.contains("No requests recorded yet."));
    assert!(page.contains("{\"t\": [], \"series\": []}"));
}

#[test]
fn the_database_pages_carry_the_query_back() {
    let q = parse_query("prefix=user%3A&limit=2&key=user%3A1");
    let keys = vec!["user:1".to_string(), "user:2".to_string()];
    let detail = DetailView { key: "user:1".to_string(), outcome: DetailOutcome::Missing };
    let page = body(&render_list_page(&who(&["dashboard.view"]), &q, &keys, Some(&detail), "[logo]", ""));
    assert!(page.contains("<h1><span class=\"heading-logo\">[logo]</span>Database</h1>\n<p class=\"meta\">Showing 2 entries (cap 2).</p>"));
    assert!(page.contains("name=\"prefix\" value=\"user:\""));
    assert!(page.contains("name=\"limit\" value=\"2\" min=\"1\" max=\"5000\""));
    assert!(page.contains("Key not present in the database."));

    let none = body(&render_list_page(&who(&["dashboard.view"]), &parse_query(""), &Vec::new(), None, "", ""));
    assert!(none.contains("Showing 0 entries (cap 500)."));
    assert!(none.contains("Pick a key from the list"));

    let nodb = body(&render_no_db_page(&who(&["dashboard.view"]), "", ""));
    assert!(nodb.contains("does not have an ozone database configured"));
    let err = body(&render_error_page(&who(&["dashboard.view"]), "Scan failed; check the server log.", "", ""));
    assert!(err.contains("<p class=\"notice error\">Scan failed; check the server log.</p>"));
}

#[test]
fn forms_name_their_action() {
    assert_eq!(admins_post_action(b"action=add&name=x"), AdminsPost::Add);
    assert_eq!(admins_post_action(b"name=x&action=remove"), AdminsPost::Remove);
    assert_eq!(admins_post_action(b"action=promote"), AdminsPost::Unknown);
    assert_eq!(admins_post_action(b"name=x"), AdminsPost::Unknown);
    assert_eq!(security_form(b"action=blacklist&ip=192.0.2.1"), ("blacklist".to_string(), "192.0.2.1".to_string()));
    assert_eq!(security_form(b"ip=%3A%3A1"), (String::new(), "::1".to_string()));
}

use fe2o3_steel::ozone::{
    parse_query, render_detail_panel, render_detail_placeholder, render_key_table, url_encode,
    DetailOutcome, DEFAULT_LIST_LIMIT, MAX_LIST_LIMIT,
};
use fe2o3_steel::form::url_decode;

#[test]
fn a_query_names_prefix_limit_and_key() {
    let q = parse_query("prefix=user%3A&limit=20&key=user%3Aalice&other=1");
    assert_eq!(q.prefix.as_deref(), Some("user:"));
    assert_eq!(q.limit, 20);
    assert_eq!(q.detail.as_deref(), Some("user:alice"));
    let d = parse_query("");
    assert_eq!((d.prefix, d.limit, d.detail), (None, DEFAULT_LIST_LIMIT, None));
    assert_eq!(parse_query("limit=999999999").limit, MAX_LIST_LIMIT);
    assert_eq!(parse_query("limit=ten").limit, DEFAULT_LIST_LIMIT);
    assert_eq!(parse_query("limit=3&limit=x").limit, 3);
    assert_eq!(parse_query("prefix=").prefix, None);
}

#[test]
fn keys_survive_the_link_they_are_put_in() {
    for k in ["user:alice", "a b&c=d", "ünï", "100%", "+", "~._-"] {
        let enc = url_encode(k);
        assert!(!enc.contains('+') && !enc.contains('&') && !enc.contains(' '));
        assert_eq!(url_decode(&enc), k);
    }
    assert_eq!(url_encode("a b/é"), "a%20b%2F%C3%A9");
}

#[test]
fn the_key_table_links_each_key() {
    assert_eq!(render_key_table(&vec![], "p", 5, ""), "<p class=\"notice empty\">No keys match this filter.</p>");
    let t = render_key_table(&vec!["k1".to_string(), "a<b".to_string()], "u:", 50, "k1");
    assert!(t.contains("<tr class=\"selected\"><td><a href=\"/admin/database?prefix=u%3A&amp;limit=50&amp;key=k1\"><code>k1</code></a></td></tr>\n"));
    assert!(t.contains("<tr><td><a href=\"/admin/database?prefix=u%3A&amp;limit=50&amp;key=a%3Cb\"><code>a&lt;b</code></a></td></tr>\n"));
    assert!(t.starts_with("<table class=\"steel-table\">"));
}

#[test]
fn the_detail_panel_shows_what_the_fetch_found() {
    let found = DetailOutcome::Found { value_jdat: "{\"a\":1}".to_string(), meta_time: 12, meta_user: "u".to_string() };
    let p = render_detail_panel("k", &found);
    assert!(p.contains("<span class=\"val\">12</span>"));
    assert!(p.contains("<pre class=\"val\">{&quot;a&quot;:1}</pre>"));
    assert!(render_detail_panel("k", &DetailOutcome::Missing).contains("Key not present in the database."));
    assert!(render_detail_panel("k", &DetailOutcome::Error("x".to_string())).contains("<p class=\"notice error\">x</p>"));
    assert!(render_detail_placeholder().starts_with("<h3>Selected key</h3>"));
}

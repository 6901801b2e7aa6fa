//! The database browser of the dashboard: reading its query string,
//! encoding keys into links, and the key table and detail panel.
//!
//! Scanning and fetching from the database are the caller's; this module
//! decides what is asked for and renders what came back.

use vstd::prelude::*;
use vstd::utf8::*;
use crate::admins::{parse_u64, parse_u64_spec};
use crate::assets::{html_escape, html_escape_spec, layout_spec, render_layout};
use crate::cache::Response;
use crate::handler::{html_response, html_response_spec};
use crate::principal::AdminPrincipal;
use crate::form::{key_of, url_decode, url_decode_spec, value_of, form_decode, nibble};
use crate::principal::strings_view;
use crate::text::{chars_of, decimal, push_char, push_decimal, split_chars, split_spec, str_eq, string_from_chars, to_owned_str};

verus! {

broadcast use {encode_utf8_valid_utf8, encode_utf8_decode_utf8};

/// Keys listed by a request that names no limit.
pub const DEFAULT_LIST_LIMIT: usize = 500;
/// The most keys a request may ask for, so no query materialises the
/// whole database at once.
pub const MAX_LIST_LIMIT: usize = 5000;

// ---------------------------------------------------------------------------
// The query
// ---------------------------------------------------------------------------

/// What a list request asks for.
pub struct ListQuery {
    /// Only keys beginning with this, when given.
    pub prefix: Option<String>,
    /// At most this many keys.
    pub limit: usize,
    /// The key whose value the detail panel shows, when given.
    pub detail: Option<String>,
}

/// The parameters as read so far.
pub type QueryState = (Option<Seq<char>>, nat, Option<Seq<char>>);

/// What one `key=value` pair of the query does to what was read before it:
/// `prefix` and `key` take their decoded value unless it is empty, `limit`
/// takes its number, capped, unless it is not one; other keys do nothing.
pub open spec fn apply_pair(st: QueryState, pair: Seq<char>) -> QueryState {
    let k = key_of(pair);
    let v = value_of(pair);
    if k == "prefix"@ {
        if form_decode(v).len() == 0 {
            st
        } else {
            (Some(form_decode(v)), st.1, st.2)
        }
    } else if k == "limit"@ {
        match parse_u64_spec(v) {
            Some(n) => if n <= usize::MAX {
                (st.0, if n < MAX_LIST_LIMIT {
                    n as nat
                } else {
                    MAX_LIST_LIMIT as nat
                }, st.2)
            } else {
                st
            },
            None => st,
        }
    } else if k == "key"@ {
        if form_decode(v).len() == 0 {
            st
        } else {
            (st.0, st.1, Some(form_decode(v)))
        }
    } else {
        st
    }
}

/// Every pair applied in order.
pub open spec fn apply_pairs(st: QueryState, pairs: Seq<Seq<char>>) -> QueryState
    decreases pairs.len(),
{
    if pairs.len() == 0 {
        st
    } else {
        apply_pair(apply_pairs(st, pairs.drop_last()), pairs.last())
    }
}

/// The parameters of a query string; an empty one asks for the defaults.
pub open spec fn parse_query_spec(query: Seq<char>) -> QueryState {
    let start: QueryState = (None, DEFAULT_LIST_LIMIT as nat, None);
    if query.len() == 0 {
        start
    } else {
        apply_pairs(start, split_spec(query, '&'))
    }
}

/// The parameters a query holds.
pub open spec fn query_view(q: ListQuery) -> QueryState {
    (
        match q.prefix {
            Some(p) => Some(p@),
            None => None,
        },
        q.limit as nat,
        match q.detail {
            Some(d) => Some(d@),
            None => None,
        },
    )
}

/// Parse the query string of a list request: `prefix`, `limit` and `key`;
/// unknown keys are ignored and a malformed limit leaves the one before.
pub fn parse_query(query: &str) -> (r: ListQuery)
    ensures
        query_view(r) == parse_query_spec(query@),
{
    let mut q = ListQuery { prefix: None, limit: DEFAULT_LIST_LIMIT, detail: None };
    if query.is_empty() {
        return q;
    }
    let cs = chars_of(query);
    let pairs = split_chars(&cs, '&');
    let ghost ps = split_spec(query@, '&');
    let ghost start: QueryState = (None, DEFAULT_LIST_LIMIT as nat, None);
    let mut i: usize = 0;
    while i < pairs.len()
        invariant
            i <= pairs.len(),
            pairs@.len() == ps.len(),
            forall|k: int| 0 <= k < pairs@.len() ==> (#[trigger] pairs@[k])@ == ps[k],
            query_view(q) == apply_pairs(start, ps.take(i as int)),
        decreases pairs.len() - i,
    {
        let (k, v) = crate::form::split_pair(&pairs[i]);
        let ks = string_from_chars(&k);
        let vs = string_from_chars(&v);
        assert(ps.take(i + 1).drop_last() == ps.take(i as int));
        assert(ps.take(i + 1).last() == ps[i as int]);
        if str_eq(ks.as_str(), "prefix") {
            let d = url_decode(vs.as_str());
            if !d.as_str().is_empty() {
                q.prefix = Some(d);
            }
        } else if str_eq(ks.as_str(), "limit") {
            match parse_u64(vs.as_str()) {
                Some(n) => {
                    if n <= usize::MAX as u64 {
                        let n: usize = n as usize;
                        q.limit = if n < MAX_LIST_LIMIT {
                            n
                        } else {
                            MAX_LIST_LIMIT
                        };
                    }
                },
                None => {},
            }
        } else if str_eq(ks.as_str(), "key") {
            let d = url_decode(vs.as_str());
            if !d.as_str().is_empty() {
                q.detail = Some(d);
            }
        }
        i += 1;
    }
    assert(ps.take(pairs.len() as int) == ps);
    q
}

// ---------------------------------------------------------------------------
// Encoding keys into links
// ---------------------------------------------------------------------------

/// A byte RFC 3986 lets a query carry as itself.
pub open spec fn unreserved(b: u8) -> bool {
    (65 <= b && b <= 90) || (97 <= b && b <= 122) || (48 <= b && b <= 57) || b == 45 || b == 95
        || b == 46 || b == 126
}

/// The upper-case hex digit of a value below sixteen, as a byte.
pub open spec fn hex_upper(d: nat) -> u8 {
    if d < 10 {
        (d + 48) as u8
    } else {
        (d - 10 + 65) as u8
    }
}

/// One byte as it stands in a query: itself when unreserved, else `%` and
/// two upper-case hex digits.
pub open spec fn encode_byte(b: u8) -> Seq<u8> {
    if unreserved(b) {
        seq![b]
    } else {
        seq![37u8, hex_upper((b / 16) as nat), hex_upper((b % 16) as nat)]
    }
}

/// The bytes percent-encoded, front to back.
pub open spec fn url_encode_spec(b: Seq<u8>) -> Seq<u8>
    decreases b.len(),
{
    if b.len() == 0 {
        seq![]
    } else {
        encode_byte(b[0]) + url_encode_spec(b.drop_first())
    }
}

/// The characters of a run of ASCII bytes.
pub open spec fn ascii_chars(b: Seq<u8>) -> Seq<char> {
    Seq::new(b.len(), |i: int| b[i] as char)
}

fn hex_upper_of(d: u8) -> (c: char)
    requires
        d < 16,
    ensures
        c == hex_upper(d as nat) as char,
{
    if d < 10 {
        (d + 48) as char
    } else {
        (d - 10 + 65) as char
    }
}

proof fn lemma_encode_split(b: Seq<u8>, i: int)
    requires
        0 <= i < b.len(),
    ensures
        url_encode_spec(b.subrange(i, b.len() as int)) == encode_byte(b[i]) + url_encode_spec(
            b.subrange(i + 1, b.len() as int),
        ),
{
    let t = b.subrange(i, b.len() as int);
    assert(t[0] == b[i]);
    assert(t.drop_first() == b.subrange(i + 1, b.len() as int));
}

/// Percent-encode a string for a query parameter: every byte of its UTF-8
/// that is not an unreserved ASCII character is escaped.
pub fn url_encode(s: &str) -> (r: String)
    ensures
        r@ == ascii_chars(url_encode_spec(encode_utf8(s@))),
{
    let b = s.as_bytes();
    let ghost bv = b@;
    let mut out = String::new();
    let mut i: usize = 0;
    assert(bv.subrange(0, bv.len() as int) == bv);
    while i < b.len()
        invariant
            i <= b.len(),
            bv == b@,
            out@ + ascii_chars(url_encode_spec(bv.subrange(i as int, bv.len() as int)))
                == ascii_chars(url_encode_spec(bv)),
        decreases b.len() - i,
    {
        let c = b[i];
        let ghost before = out@;
        proof {
            lemma_encode_split(bv, i as int);
        }
        let ghost rest = url_encode_spec(bv.subrange(i + 1, bv.len() as int));
        if (65 <= c && c <= 90) || (97 <= c && c <= 122) || (48 <= c && c <= 57) || c == 45 || c
            == 95 || c == 46 || c == 126 {
            push_char(&mut out, c as char);
            assert(ascii_chars(encode_byte(c) + rest) =~= seq![c as char] + ascii_chars(rest));
        } else {
            push_char(&mut out, '%');
            push_char(&mut out, hex_upper_of(c / 16));
            push_char(&mut out, hex_upper_of(c % 16));
            assert(ascii_chars(encode_byte(c) + rest) =~= seq![
                '%',
                hex_upper((c / 16) as nat) as char,
                hex_upper((c % 16) as nat) as char,
            ] + ascii_chars(rest));
        }
        assert(out@ + ascii_chars(rest) == before + ascii_chars(encode_byte(c) + rest));
        i += 1;
    }
    assert(bv.subrange(i as int, bv.len() as int) == Seq::<u8>::empty());
    assert(ascii_chars(url_encode_spec(Seq::<u8>::empty())) =~= Seq::<char>::empty());
    out
}

proof fn lemma_nibble_of_hex_upper(d: nat)
    requires
        d < 16,
    ensures
        nibble(hex_upper(d)) == Some(d as u8),
{
}

/// Decoding what was encoded gives back the very bytes: a key put into a
/// Every byte of a percent-encoding is an unreserved character or `%`.
proof fn lemma_encoding_is_safe(b: Seq<u8>)
    ensures
        forall|i: int|
            0 <= i < url_encode_spec(b).len() ==> unreserved(#[trigger] url_encode_spec(b)[i])
                || url_encode_spec(b)[i] == 37,
    decreases b.len(),
{
    if b.len() > 0 {
        lemma_encoding_is_safe(b.drop_first());
        let x = b[0];
        let e = encode_byte(x);
        let rest = url_encode_spec(b.drop_first());
        assert(url_encode_spec(b) == e + rest);
        assert(x / 16 < 16 && x % 16 < 16) by (nonlinear_arith);
        assert forall|i: int| 0 <= i < e.len() implies unreserved(#[trigger] e[i]) || e[i] == 37 by {}
        assert forall|i: int|
            0 <= i < url_encode_spec(b).len() implies unreserved(#[trigger] url_encode_spec(b)[i])
                || url_encode_spec(b)[i] == 37 by {
            if i >= e.len() {
                assert(url_encode_spec(b)[i] == rest[i - e.len()]);
            } else {
                assert(url_encode_spec(b)[i] == e[i]);
            }
        }
    }
}

/// Decoding the text `url_encode` writes gives back the string it was
/// given, and that text holds only unreserved characters and `%`.
pub proof fn lemma_url_roundtrip(s: Seq<char>)
    ensures
        url_decode_spec(encode_utf8(ascii_chars(url_encode_spec(encode_utf8(s))))) == encode_utf8(s),
        valid_utf8(encode_utf8(s)),
        decode_utf8(encode_utf8(s)) == s,
        forall|i: int|
            0 <= i < ascii_chars(url_encode_spec(encode_utf8(s))).len() ==> {
                let c = #[trigger] ascii_chars(url_encode_spec(encode_utf8(s)))[i];
                ('A' <= c <= 'Z') || ('a' <= c <= 'z') || ('0' <= c <= '9') || c == '-' || c == '_'
                    || c == '.' || c == '~' || c == '%'
            },
{
    let e = url_encode_spec(encode_utf8(s));
    let c = ascii_chars(e);
    lemma_encoding_is_safe(encode_utf8(s));
    assert(is_ascii_chars(c)) by {
        assert forall|i: int| 0 <= i < c.len() implies '\0' <= #[trigger] c[i] <= '\u{7f}' by {
            assert(unreserved(e[i]) || e[i] == 37);
        }
    }
    is_ascii_chars_encode_utf8(c);
    assert(encode_utf8(c) =~= e) by {
        assert forall|i: int| 0 <= i < e.len() implies encode_utf8(c)[i] == e[i] by {
            assert(c[i] as u8 == encode_utf8(c)[i]);
            assert(unreserved(e[i]) || e[i] == 37);
        }
    }
    lemma_decode_undoes_encode(encode_utf8(s));
    assert forall|i: int| 0 <= i < c.len() implies {
        let ch = #[trigger] c[i];
        ('A' <= ch <= 'Z') || ('a' <= ch <= 'z') || ('0' <= ch <= '9') || ch == '-' || ch == '_'
            || ch == '.' || ch == '~' || ch == '%'
    } by {
        assert(unreserved(e[i]) || e[i] == 37);
    }
}

/// link comes out of the query it was put into unchanged.
pub proof fn lemma_decode_undoes_encode(b: Seq<u8>)
    ensures
        url_decode_spec(url_encode_spec(b)) == b,
    decreases b.len(),
{
    if b.len() > 0 {
        lemma_decode_undoes_encode(b.drop_first());
        let x = b[0];
        let rest = url_encode_spec(b.drop_first());
        let e = encode_byte(x) + rest;
        assert(url_encode_spec(b) == e);
        if unreserved(x) {
            assert(e[0] == x);
            assert(e.drop_first() == rest);
        } else {
            let hi = (x / 16) as nat;
            let lo = (x % 16) as nat;
            lemma_nibble_of_hex_upper(hi);
            lemma_nibble_of_hex_upper(lo);
            assert(e[0] == 37u8);
            assert(e[1] == hex_upper(hi));
            assert(e[2] == hex_upper(lo));
            assert(e.subrange(3, e.len() as int) == rest);
            assert((hi * 16 + lo) as u8 == x);
        }
        assert(seq![x] + b.drop_first() == b);
    }
}

// ---------------------------------------------------------------------------
// Rendering
// ---------------------------------------------------------------------------

/// The link of a key in the table: the list view again, with the same
/// prefix and limit and the key selected.
pub open spec fn key_href(prefix: Seq<char>, limit: nat, key: Seq<char>) -> Seq<char> {
    "/admin/database?prefix="@ + ascii_chars(url_encode_spec(encode_utf8(prefix))) + "&amp;limit="@
        + decimal(limit) + "&amp;key="@ + ascii_chars(url_encode_spec(encode_utf8(key)))
}

/// One row of the key table.
pub open spec fn key_row(prefix: Seq<char>, limit: nat, selected: Seq<char>, key: Seq<char>) -> Seq<
    char,
> {
    "<tr"@ + (if key == selected {
        " class=\"selected\""@
    } else {
        seq![]
    }) + "><td><a href=\""@ + key_href(prefix, limit, key) + "\"><code>"@ + html_escape_spec(key)
        + "</code></a></td></tr>\n"@
}

/// The rows of the key table, in order.
pub open spec fn key_rows(prefix: Seq<char>, limit: nat, selected: Seq<char>, keys: Seq<Seq<char>>) -> Seq<
    char,
>
    decreases keys.len(),
{
    if keys.len() == 0 {
        seq![]
    } else {
        key_rows(prefix, limit, selected, keys.drop_last()) + key_row(
            prefix,
            limit,
            selected,
            keys.last(),
        )
    }
}

/// The key table, or a notice when no key matches.
pub open spec fn key_table_spec(
    keys: Seq<Seq<char>>,
    prefix: Seq<char>,
    limit: nat,
    selected: Seq<char>,
) -> Seq<char> {
    if keys.len() == 0 {
        "<p class=\"notice empty\">No keys match this filter.</p>"@
    } else {
        "<table class=\"steel-table\">\n<thead><tr><th>Key</th></tr></thead>\n<tbody>\n"@ + key_rows(
            prefix,
            limit,
            selected,
            keys,
        ) + "</tbody>\n</table>\n"@
    }
}

fn push_key_row(
    rows: &mut String,
    prefix_raw: &str,
    prefix_enc: &String,
    limit_val: usize,
    selected_key: &str,
    k: &str,
)
    requires
        prefix_enc@ == ascii_chars(url_encode_spec(encode_utf8(prefix_raw@))),
    ensures
        final(rows)@ == old(rows)@ + key_row(prefix_raw@, limit_val as nat, selected_key@, k@),
{
    let ghost before = rows@;
    rows.append("<tr");
    if str_eq(k, selected_key) {
        rows.append(" class=\"selected\"");
    }
    rows.append("><td><a href=\"");
    rows.append("/admin/database?prefix=");
    rows.append(prefix_enc.as_str());
    rows.append("&amp;limit=");
    push_decimal(rows, limit_val as u64);
    rows.append("&amp;key=");
    let ke = url_encode(k);
    rows.append(ke.as_str());
    rows.append("\"><code>");
    let esc = html_escape(k);
    rows.append(esc.as_str());
    rows.append("</code></a></td></tr>\n");
    assert(rows@ =~= before + key_row(prefix_raw@, limit_val as nat, selected_key@, k@));
}

/// Render the key list: each row links back to the list view carrying the
/// selected key, and the selected one is marked.
pub fn render_key_table(keys: &Vec<String>, prefix_raw: &str, limit_val: usize, selected_key: &str) -> (r:
    String)
    ensures
        r@ == key_table_spec(strings_view(keys@), prefix_raw@, limit_val as nat, selected_key@),
{
    if keys.len() == 0 {
        return to_owned_str("<p class=\"notice empty\">No keys match this filter.</p>");
    }
    let ghost kv = strings_view(keys@);
    let prefix_enc = url_encode(prefix_raw);
    let mut rows = String::new();
    let mut i: usize = 0;
    while i < keys.len()
        invariant
            i <= keys.len(),
            kv == strings_view(keys@),
            prefix_enc@ == ascii_chars(url_encode_spec(encode_utf8(prefix_raw@))),
            rows@ == key_rows(prefix_raw@, limit_val as nat, selected_key@, kv.take(i as int)),
        decreases keys.len() - i,
    {
        let k = keys[i].as_str();
        push_key_row(&mut rows, prefix_raw, &prefix_enc, limit_val, selected_key, k);
        assert(kv.take(i + 1).drop_last() == kv.take(i as int));
        assert(kv.take(i + 1).last() == k@);
        i += 1;
    }
    assert(kv.take(keys.len() as int) == kv);
    let mut out = to_owned_str(
        "<table class=\"steel-table\">\n<thead><tr><th>Key</th></tr></thead>\n<tbody>\n",
    );
    out.append(rows.as_str());
    out.append("</tbody>\n</table>\n");
    out
}

/// What fetching the selected key came to.
pub enum DetailOutcome {
    /// Its value, as JDAT text, and its metadata.
    Found { value_jdat: String, meta_time: u64, meta_user: String },
    /// No such key.
    Missing,
    /// The fetch failed; a short message for the operator.
    Error(String),
}

/// The detail panel for the selected key.
pub open spec fn detail_spec(key: Seq<char>, o: DetailOutcome) -> Seq<char> {
    let head = "<h3>Selected key</h3>\n<div class=\"field\"><span class=\"lbl\">Key</span><span class=\"val\"><code>"@
        + html_escape_spec(key) + "</code></span></div>\n"@;
    match o {
        DetailOutcome::Found { value_jdat, meta_time, meta_user } => head
            + "<div class=\"field\"><span class=\"lbl\">Modified (unix s)</span><span class=\"val\">"@
            + decimal(meta_time as nat)
            + "</span></div>\n<div class=\"field\"><span class=\"lbl\">Meta user</span><span class=\"val\">"@
            + html_escape_spec(meta_user@)
            + "</span></div>\n<div class=\"field\"><span class=\"lbl\">Value (JDAT)</span><pre class=\"val\">"@
            + html_escape_spec(value_jdat@) + "</pre></div>\n"@,
        DetailOutcome::Missing => head
            + "<p class=\"notice empty\">Key not present in the database.</p>\n"@,
        DetailOutcome::Error(msg) => head + "<p class=\"notice error\">"@ + html_escape_spec(msg@)
            + "</p>\n"@,
    }
}

/// Render the detail panel for a selected key.
pub fn render_detail_panel(key: &str, o: &DetailOutcome) -> (r: String)
    ensures
        r@ == detail_spec(key@, *o),
{
    let mut out = to_owned_str(
        "<h3>Selected key</h3>\n<div class=\"field\"><span class=\"lbl\">Key</span><span class=\"val\"><code>",
    );
    let k = html_escape(key);
    out.append(k.as_str());
    out.append("</code></span></div>\n");
    match o {
        DetailOutcome::Found { value_jdat, meta_time, meta_user } => {
            out.append(
                "<div class=\"field\"><span class=\"lbl\">Modified (unix s)</span><span class=\"val\">",
            );
            push_decimal(&mut out, *meta_time);
            out.append(
                "</span></div>\n<div class=\"field\"><span class=\"lbl\">Meta user</span><span class=\"val\">",
            );
            let u = html_escape(meta_user.as_str());
            out.append(u.as_str());
            out.append(
                "</span></div>\n<div class=\"field\"><span class=\"lbl\">Value (JDAT)</span><pre class=\"val\">",
            );
            let v = html_escape(value_jdat.as_str());
            out.append(v.as_str());
            out.append("</pre></div>\n");
        },
        DetailOutcome::Missing => {
            out.append("<p class=\"notice empty\">Key not present in the database.</p>\n");
        },
        DetailOutcome::Error(msg) => {
            out.append("<p class=\"notice error\">");
            let m = html_escape(msg.as_str());
            out.append(m.as_str());
            out.append("</p>\n");
        },
    }
    out
}

/// Render the placeholder shown before a key is selected.
pub fn render_detail_placeholder() -> (r: String)
    ensures
        r@ == "<h3>Selected key</h3>\n<p class=\"notice empty\">Pick a key from the list to see its value and metadata.</p>\n"@,
{
    to_owned_str(
        "<h3>Selected key</h3>\n<p class=\"notice empty\">Pick a key from the list to see its value and metadata.</p>\n",
    )
}

// ---------------------------------------------------------------------------
// The pages
// ---------------------------------------------------------------------------

/// The path of the database browser.
pub const PATH_DATABASE: &'static str = "/admin/database";

/// The selected key and what fetching it came to.
pub struct DetailView {
    pub key: String,
    pub outcome: DetailOutcome,
}

/// The search form, holding the prefix and limit asked for.
pub open spec fn list_form_spec(prefix: Seq<char>, limit: nat) -> Seq<char> {
    "<form class=\"steel-form\" method=\"GET\" action=\"/admin/database\">\n<div class=\"row\">\n<div>\n<label for=\"prefix\">Prefix</label>\n<input type=\"text\" id=\"prefix\" name=\"prefix\" value=\""@
        + html_escape_spec(prefix)
        + "\" placeholder=\"e.g. user:\">\n</div>\n<div>\n<label for=\"limit\">Limit</label>\n<input type=\"number\" id=\"limit\" name=\"limit\" value=\""@
        + decimal(limit) + "\" min=\"1\" max=\""@ + decimal(MAX_LIST_LIMIT as nat)
        + "\">\n</div>\n</div>\n<button type=\"submit\">Search</button>\n</form>\n"@
}

/// The head of every database page: the logo and the title.
pub open spec fn db_heading_spec(logo: Seq<char>) -> Seq<char> {
    "<h1><span class=\"heading-logo\">"@ + logo + "</span>Database</h1>\n"@
}

/// The body of the list page.
pub open spec fn list_body_spec(
    logo: Seq<char>,
    q: QueryState,
    keys: Seq<Seq<char>>,
    detail: Option<(Seq<char>, DetailOutcome)>,
) -> Seq<char> {
    let prefix = match q.0 {
        Some(p) => p,
        None => seq![],
    };
    let selected = match detail {
        Some(d) => d.0,
        None => seq![],
    };
    db_heading_spec(logo) + "<p class=\"meta\">Showing "@ + decimal(keys.len()) + " entries (cap "@
        + decimal(q.1) + ").</p>\n"@ + list_form_spec(prefix, q.1)
        + "<div class=\"ozone-split\">\n<div class=\"ozone-list\">"@ + key_table_spec(
        keys,
        prefix,
        q.1,
        selected,
    ) + "</div>\n<aside class=\"ozone-detail\">"@ + (match detail {
        Some(d) => detail_spec(d.0, d.1),
        None => "<h3>Selected key</h3>\n<p class=\"notice empty\">Pick a key from the list to see its value and metadata.</p>\n"@,
    }) + "</aside>\n</div>\n"@
}

/// The selected key and its outcome, as the specs see them.
pub open spec fn detail_view(detail: Option<&DetailView>) -> Option<(Seq<char>, DetailOutcome)> {
    match detail {
        Some(d) => Some((d.key@, d.outcome)),
        None => None,
    }
}

/// The database list page: the search form filled with the request's
/// prefix and limit, the keys the scan returned, and the selected key's
/// panel. `logo` is the markup of the database logo.
#[verifier::spinoff_prover]
#[verifier::rlimit(40)]
pub fn render_list_page(
    principal: &AdminPrincipal,
    parsed: &ListQuery,
    keys: &Vec<String>,
    detail: Option<&DetailView>,
    logo: &str,
    css: &str,
) -> (r: Response)
    ensures
        r@ == html_response_spec(
            layout_spec(
                "Database"@,
                PATH_DATABASE@,
                principal@.name,
                list_body_spec(logo@, query_view(*parsed), strings_view(keys@), detail_view(detail)),
                css@,
            ),
        ),
{
    let prefix_raw = match &parsed.prefix {
        Some(p) => p.clone(),
        None => String::new(),
    };
    let selected = match detail {
        Some(d) => d.key.clone(),
        None => String::new(),
    };
    let mut body = to_owned_str("<h1><span class=\"heading-logo\">");
    body.append(logo);
    body.append("</span>Database</h1>\n");
    body.append("<p class=\"meta\">Showing ");
    push_decimal(&mut body, keys.len() as u64);
    body.append(" entries (cap ");
    push_decimal(&mut body, parsed.limit as u64);
    body.append(").</p>\n");
    body.append(
        "<form class=\"steel-form\" method=\"GET\" action=\"/admin/database\">\n<div class=\"row\">\n<div>\n<label for=\"prefix\">Prefix</label>\n<input type=\"text\" id=\"prefix\" name=\"prefix\" value=\"",
    );
    let pe = html_escape(prefix_raw.as_str());
    body.append(pe.as_str());
    body.append(
        "\" placeholder=\"e.g. user:\">\n</div>\n<div>\n<label for=\"limit\">Limit</label>\n<input type=\"number\" id=\"limit\" name=\"limit\" value=\"",
    );
    push_decimal(&mut body, parsed.limit as u64);
    body.append("\" min=\"1\" max=\"");
    push_decimal(&mut body, MAX_LIST_LIMIT as u64);
    body.append("\">\n</div>\n</div>\n<button type=\"submit\">Search</button>\n</form>\n");
    body.append("<div class=\"ozone-split\">\n<div class=\"ozone-list\">");
    let table = render_key_table(keys, prefix_raw.as_str(), parsed.limit, selected.as_str());
    body.append(table.as_str());
    body.append("</div>\n<aside class=\"ozone-detail\">");
    let panel = match detail {
        Some(d) => render_detail_panel(d.key.as_str(), &d.outcome),
        None => render_detail_placeholder(),
    };
    body.append(panel.as_str());
    body.append("</aside>\n</div>\n");
    assert(body@ =~= list_body_spec(logo@, query_view(*parsed), strings_view(keys@), detail_view(detail)));
    let html = render_layout("Database", PATH_DATABASE, principal, body.as_str(), css);
    html_response(html)
}

/// The body of the page for a vhost without a database.
pub open spec fn no_db_body_spec(logo: Seq<char>) -> Seq<char> {
    db_heading_spec(logo)
        + "<p class=\"notice empty\">This vhost does not have an ozone database configured. Pure-redirect vhosts and static-only vhosts do not store anything in ozone, so there is nothing to browse here.</p>\n"@
}

/// The database page of a vhost that has no database.
pub fn render_no_db_page(principal: &AdminPrincipal, logo: &str, css: &str) -> (r: Response)
    ensures
        r@ == html_response_spec(
            layout_spec("Database"@, PATH_DATABASE@, principal@.name, no_db_body_spec(logo@), css@),
        ),
{
    let mut body = to_owned_str("<h1><span class=\"heading-logo\">");
    body.append(logo);
    body.append("</span>Database</h1>\n");
    body.append(
        "<p class=\"notice empty\">This vhost does not have an ozone database configured. Pure-redirect vhosts and static-only vhosts do not store anything in ozone, so there is nothing to browse here.</p>\n",
    );
    let html = render_layout("Database", PATH_DATABASE, principal, body.as_str(), css);
    html_response(html)
}

/// The database page when the scan failed: `message`, escaped; the cause
/// stays in the server log.
pub fn render_error_page(principal: &AdminPrincipal, message: &str, logo: &str, css: &str) -> (r:
    Response)
    ensures
        r@ == html_response_spec(
            layout_spec(
                "Database"@,
                PATH_DATABASE@,
                principal@.name,
                db_heading_spec(logo@) + "<p class=\"notice error\">"@ + html_escape_spec(message@)
                    + "</p>\n"@,
                css@,
            ),
        ),
{
    let mut body = to_owned_str("<h1><span class=\"heading-logo\">");
    body.append(logo);
    body.append("</span>Database</h1>\n");
    body.append("<p class=\"notice error\">");
    let m = html_escape(message);
    body.append(m.as_str());
    body.append("</p>\n");
    let html = render_layout("Database", PATH_DATABASE, principal, body.as_str(), css);
    html_response(html)
}

} // verus!

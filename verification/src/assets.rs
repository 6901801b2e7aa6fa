//! HTML layout helpers for the admin dashboard: escaping, the sidebar, and
//! the page shells every dashboard response is wrapped in.
//!
//! The stylesheet is inlined into every page inside a `<style>` tag; it is
//! handed in by the caller, which ships it with the binary.

use vstd::prelude::*;
use crate::principal::AdminPrincipal;
use crate::text::{chars_of, push_char, str_eq, starts_with, concat2, has_prefix};

verus! {

// ---------------------------------------------------------------------------
// Escaping
// ---------------------------------------------------------------------------

/// The escaped form of one character: the five that can break out of a
/// text node into markup become entities, every other stands for itself.
pub open spec fn escape_char(c: char) -> Seq<char> {
    if c == '&' {
        "&amp;"@
    } else if c == '<' {
        "&lt;"@
    } else if c == '>' {
        "&gt;"@
    } else if c == '"' {
        "&quot;"@
    } else if c == '\'' {
        "&#39;"@
    } else {
        seq![c]
    }
}

/// `s` escaped character by character.
pub open spec fn html_escape_spec(s: Seq<char>) -> Seq<char>
    decreases s.len(),
{
    if s.len() == 0 {
        seq![]
    } else {
        html_escape_spec(s.drop_last()) + escape_char(s.last())
    }
}

/// A character that would open or close markup or an attribute value.
pub open spec fn is_markup_char(c: char) -> bool {
    c == '<' || c == '>' || c == '"' || c == '\''
}

/// Escape a string for safe inclusion in an HTML text node or attribute
/// value: `&`, `<`, `>`, `"` and `'` become entities.
pub fn html_escape(s: &str) -> (r: String)
    ensures
        r@ == html_escape_spec(s@),
{
    let cs = chars_of(s);
    let mut out = String::new();
    let mut i: usize = 0;
    while i < cs.len()
        invariant
            i <= cs.len(),
            out@ == html_escape_spec(cs@.take(i as int)),
        decreases cs.len() - i,
    {
        let c = cs[i];
        if c == '&' {
            out.append("&amp;");
        } else if c == '<' {
            out.append("&lt;");
        } else if c == '>' {
            out.append("&gt;");
        } else if c == '"' {
            out.append("&quot;");
        } else if c == '\'' {
            out.append("&#39;");
        } else {
            push_char(&mut out, c);
            assert(seq![c] + Seq::<char>::empty() == seq![c]);
        }
        assert(cs@.take(i + 1).drop_last() == cs@.take(i as int));
        assert(cs@.take(i + 1).last() == c);
        i += 1;
    }
    assert(cs@.take(cs.len() as int) == cs@);
    out
}

/// No escaped text holds a character that opens or closes markup or an
/// attribute value, whatever text went in.
pub proof fn lemma_escaped_text_has_no_markup(s: Seq<char>)
    ensures
        forall|k: int|
            0 <= k < html_escape_spec(s).len() ==> !is_markup_char(
                #[trigger] html_escape_spec(s)[k],
            ),
    decreases s.len(),
{
    reveal_strlit("&amp;");
    reveal_strlit("&lt;");
    reveal_strlit("&gt;");
    reveal_strlit("&quot;");
    reveal_strlit("&#39;");
    if s.len() > 0 {
        lemma_escaped_text_has_no_markup(s.drop_last());
        let a = html_escape_spec(s.drop_last());
        let b = escape_char(s.last());
        assert forall|k: int| 0 <= k < (a + b).len() implies !is_markup_char(
            #[trigger] (a + b)[k],
        ) by {
            if k >= a.len() {
                assert((a + b)[k] == b[k - a.len()]);
            } else {
                assert((a + b)[k] == a[k]);
            }
        }
    }
}

/// Text holding none of the five special characters is left as it is.
pub proof fn lemma_plain_text_is_unchanged(s: Seq<char>)
    requires
        forall|k: int|
            0 <= k < s.len() ==> !is_markup_char(#[trigger] s[k]) && s[k] != '&',
    ensures
        html_escape_spec(s) == s,
    decreases s.len(),
{
    if s.len() > 0 {
        let t = s.drop_last();
        assert forall|k: int| 0 <= k < t.len() implies !is_markup_char(#[trigger] t[k]) && t[k]
            != '&' by {
            assert(t[k] == s[k]);
        }
        lemma_plain_text_is_unchanged(t);
        assert(!is_markup_char(s[s.len() - 1]) && s[s.len() - 1] != '&');
        assert(t.push(s.last()) == s);
    }
}

// ---------------------------------------------------------------------------
// Navigation
// ---------------------------------------------------------------------------

/// One sidebar navigation entry.
pub struct NavEntry {
    pub label: &'static str,
    pub href: &'static str,
    pub group: Option<&'static str>,
}

/// The mathematical value of a navigation entry.
pub struct NavView {
    pub label: Seq<char>,
    pub href: Seq<char>,
    pub group: Option<Seq<char>>,
}

impl View for NavEntry {
    type V = NavView;

    open spec fn view(&self) -> NavView {
        NavView {
            label: self.label@,
            href: self.href@,
            group: match self.group {
                Some(g) => Some(g@),
                None => None,
            },
        }
    }
}

/// The dashboard's sidebar, in order.
pub open spec fn nav_spec() -> Seq<NavView> {
    seq![
        NavView { label: "Home"@, href: "/admin"@, group: Some("Dashboard"@) },
        NavView { label: "Traffic"@, href: "/admin/traffic"@, group: None },
        NavView { label: "Ozone"@, href: "/admin/ozone"@, group: None },
        NavView { label: "Admins"@, href: "/admin/admins"@, group: Some("Management"@) },
        NavView { label: "Sign out"@, href: "/admin/logout"@, group: Some("Session"@) },
    ]
}

/// The standard nav layout for the dashboard.
pub fn nav_entries() -> (r: Vec<NavEntry>)
    ensures
        r@.len() == nav_spec().len(),
        forall|i: int| 0 <= i < r@.len() ==> (#[trigger] r@[i])@ == nav_spec()[i],
{
    let v = vec![
        NavEntry { label: "Home", href: "/admin", group: Some("Dashboard") },
        NavEntry { label: "Traffic", href: "/admin/traffic", group: None },
        NavEntry { label: "Ozone", href: "/admin/ozone", group: None },
        NavEntry { label: "Admins", href: "/admin/admins", group: Some("Management") },
        NavEntry { label: "Sign out", href: "/admin/logout", group: Some("Session") },
    ];
    v
}

/// Whether the entry at `href` is the page at `current`: the home entry
/// only for `/admin` itself, every other for its own path and what lies
/// under it or after a `?`.
pub open spec fn is_current_spec(current: Seq<char>, href: Seq<char>) -> bool {
    if href == "/admin"@ {
        current == "/admin"@
    } else {
        current == href || has_prefix(current, href.push('/')) || has_prefix(
            current,
            href.push('?'),
        )
    }
}

/// Decide whether a nav entry should be highlighted as the current page.
pub fn is_current(current_path: &str, entry_href: &str) -> (r: bool)
    ensures
        r == is_current_spec(current_path@, entry_href@),
{
    if str_eq(entry_href, "/admin") {
        str_eq(current_path, "/admin")
    } else {
        let slash = concat2(entry_href, "/");
        let query = concat2(entry_href, "?");
        proof {
            reveal_strlit("/");
            reveal_strlit("?");
            assert(entry_href@ + "/"@ == entry_href@.push('/'));
            assert(entry_href@ + "?"@ == entry_href@.push('?'));
        }
        str_eq(current_path, entry_href) || starts_with(current_path, slash.as_str())
            || starts_with(current_path, query.as_str())
    }
}

/// Whether entry `x` opens a new group heading after heading `last`.
pub open spec fn opens_group(x: NavView, last: Option<Seq<char>>) -> bool {
    x.group is Some && last != x.group
}

/// The group heading in force after entry `x`.
pub open spec fn group_after(x: NavView, last: Option<Seq<char>>) -> Option<Seq<char>> {
    if opens_group(x, last) {
        x.group
    } else {
        last
    }
}

/// The HTML of one nav entry: its group heading where the group changes,
/// then its link, marked when it is the current page.
pub open spec fn entry_html(x: NavView, current: Seq<char>, last: Option<Seq<char>>) -> Seq<char> {
    let head = if opens_group(x, last) {
        "<div class=\"group\">"@ + html_escape_spec(x.group->0) + "</div>\n"@
    } else {
        seq![]
    };
    let class = if is_current_spec(current, x.href) {
        " class=\"current\""@
    } else {
        seq![]
    };
    head + "<a href=\""@ + x.href + "\""@ + class + ">"@ + html_escape_spec(x.label) + "</a>\n"@
}

/// The HTML of the nav entries from `e` on, given the group heading last
/// written.
pub open spec fn entries_html(e: Seq<NavView>, current: Seq<char>, last: Option<Seq<char>>) -> Seq<
    char,
>
    decreases e.len(),
{
    if e.len() == 0 {
        seq![]
    } else {
        entry_html(e[0], current, last) + entries_html(
            e.drop_first(),
            current,
            group_after(e[0], last),
        )
    }
}

/// The sidebar for the page at `current`.
pub open spec fn nav_html_spec(current: Seq<char>) -> Seq<char> {
    "<nav class=\"sidebar\">\n"@ + entries_html(nav_spec(), current, None) + "</nav>\n"@
}

pub open spec fn group_view(g: Option<&'static str>) -> Option<Seq<char>> {
    match g {
        Some(x) => Some(x@),
        None => None,
    }
}

fn same_group(a: Option<&'static str>, b: Option<&'static str>) -> (r: bool)
    ensures
        r == (group_view(a) == group_view(b)),
{
    match (a, b) {
        (Some(x), Some(y)) => str_eq(x, y),
        (None, None) => true,
        _ => false,
    }
}

/// Appends one entry's HTML, returning the group heading now in force.
fn push_entry(
    out: &mut String,
    entry: &NavEntry,
    current_path: &str,
    last: Option<&'static str>,
) -> (next: Option<&'static str>)
    ensures
        final(out)@ == old(out)@ + entry_html(entry@, current_path@, group_view(last)),
        group_view(next) == group_after(entry@, group_view(last)),
{
    let ghost before = out@;
    let mut next = last;
    if let Some(group) = entry.group {
        if !same_group(last, Some(group)) {
            out.append("<div class=\"group\">");
            let g = html_escape(group);
            out.append(g.as_str());
            out.append("</div>\n");
            next = Some(group);
        }
    }
    out.append("<a href=\"");
    out.append(entry.href);
    out.append("\"");
    if is_current(current_path, entry.href) {
        out.append(" class=\"current\"");
    }
    out.append(">");
    let l = html_escape(entry.label);
    out.append(l.as_str());
    out.append("</a>\n");
    next
}

/// Render the sidebar: a heading wherever the group changes, and each entry
/// as a link, the current one marked.
pub fn render_nav(current_path: &str) -> (r: String)
    ensures
        r@ == nav_html_spec(current_path@),
{
    let entries = nav_entries();
    let ghost ev = Seq::new(entries@.len(), |i: int| entries@[i]@);
    assert(ev =~= nav_spec());
    let mut out = String::new();
    out.append("<nav class=\"sidebar\">\n");
    let ghost prefix = out@;
    let mut last: Option<&'static str> = None;
    let mut i: usize = 0;
    assert(ev.subrange(0, ev.len() as int) == ev);
    while i < entries.len()
        invariant
            i <= entries.len(),
            ev.len() == entries@.len(),
            forall|k: int| 0 <= k < ev.len() ==> ev[k] == (#[trigger] entries@[k])@,
            ev == nav_spec(),
            prefix == "<nav class=\"sidebar\">\n"@,
            out@ + entries_html(ev.subrange(i as int, ev.len() as int), current_path@, group_view(last))
                == prefix + entries_html(ev, current_path@, None),
        decreases entries.len() - i,
    {
        let ghost rest = ev.subrange(i as int, ev.len() as int);
        let ghost before = out@;
        let ghost lastv = group_view(last);
        assert(rest[0] == entries@[i as int]@);
        assert(rest.drop_first() == ev.subrange(i + 1, ev.len() as int));
        last = push_entry(&mut out, &entries[i], current_path, last);
        assert(before + entries_html(rest, current_path@, lastv) == out@ + entries_html(
            ev.subrange(i + 1, ev.len() as int),
            current_path@,
            group_view(last),
        ));
        i += 1;
    }
    assert(ev.subrange(i as int, ev.len() as int) == Seq::<NavView>::empty());
    out.append("</nav>\n");
    out
}

// ---------------------------------------------------------------------------
// Page shells
// ---------------------------------------------------------------------------

/// The brand mark used in the header and login card.
pub open spec fn brand_spec() -> Seq<char> {
    "Hematite <span class=\"accent\">Steel</span>"@
}

/// Render the brand mark: "Hematite Steel" with `Steel` in the accent
/// colour.
pub fn brand_html() -> (r: String)
    ensures
        r@ == brand_spec(),
{
    crate::text::to_owned_str("Hematite <span class=\"accent\">Steel</span>")
}

/// The page head shared by both shells, up to the stylesheet.
pub open spec fn head_spec(title: Seq<char>, css: Seq<char>) -> Seq<char> {
    "<!doctype html>\n<html lang=\"en\">\n<head>\n<meta charset=\"utf-8\">\n<meta name=\"viewport\" content=\"width=device-width, initial-scale=1\">\n<title>"@
        + html_escape_spec(title) + " - Steel admin</title>\n<style>"@ + css
        + "</style>\n</head>\n"@
}

/// The authenticated dashboard page: header bar with brand and signed-in
/// user, sidebar, main content panel.
pub open spec fn layout_spec(
    title: Seq<char>,
    current: Seq<char>,
    user: Seq<char>,
    body: Seq<char>,
    css: Seq<char>,
) -> Seq<char> {
    head_spec(title, css)
        + "<body>\n<header class=\"steel-header\">\n<div class=\"brand\">"@ + brand_spec()
        + "</div>\n<div class=\"session\">Signed in as <strong>"@ + html_escape_spec(user)
        + "</strong>&middot; <a href=\"/admin/logout\">Sign out</a></div>\n</header>\n<div class=\"page\">\n"@
        + nav_html_spec(current) + "<main class=\"content\">\n"@ + body
        + "</main>\n</div>\n</body>\n</html>\n"@
}

/// The unauthenticated page: no sidebar, no header bar, a centred card.
pub open spec fn login_layout_spec(title: Seq<char>, body: Seq<char>, css: Seq<char>) -> Seq<
    char,
> {
    head_spec(title, css) + "<body class=\"login\">\n<div class=\"login-card\">\n<h1>"@
        + brand_spec() + "</h1>\n"@ + body + "</div>\n</body>\n</html>\n"@
}

fn push_head(out: &mut String, title: &str, css: &str)
    ensures
        final(out)@ == old(out)@ + head_spec(title@, css@),
{
    out.append(
        "<!doctype html>\n<html lang=\"en\">\n<head>\n<meta charset=\"utf-8\">\n<meta name=\"viewport\" content=\"width=device-width, initial-scale=1\">\n<title>",
    );
    let t = html_escape(title);
    out.append(t.as_str());
    out.append(" - Steel admin</title>\n<style>");
    out.append(css);
    out.append("</style>\n</head>\n");
}

/// Wrap a body fragment in the authenticated dashboard layout.
///
/// `current_path` picks the highlighted nav entry. `body_html` goes in as
/// it is: callers escape untrusted content within it. `css` is the
/// stylesheet inlined into the page.
pub fn render_layout(
    title: &str,
    current_path: &str,
    principal: &AdminPrincipal,
    body_html: &str,
    css: &str,
) -> (r: String)
    ensures
        r@ == layout_spec(title@, current_path@, principal@.name, body_html@, css@),
{
    let mut out = String::new();
    push_head(&mut out, title, css);
    out.append("<body>\n<header class=\"steel-header\">\n<div class=\"brand\">");
    let brand = brand_html();
    out.append(brand.as_str());
    out.append("</div>\n<div class=\"session\">Signed in as <strong>");
    let user = html_escape(principal.name.as_str());
    out.append(user.as_str());
    out.append(
        "</strong>&middot; <a href=\"/admin/logout\">Sign out</a></div>\n</header>\n<div class=\"page\">\n",
    );
    let nav = render_nav(current_path);
    out.append(nav.as_str());
    out.append("<main class=\"content\">\n");
    out.append(body_html);
    out.append("</main>\n</div>\n</body>\n</html>\n");
    out
}

/// Wrap a body fragment in the standalone layout for the login form.
pub fn render_login_layout(title: &str, body_html: &str, css: &str) -> (r: String)
    ensures
        r@ == login_layout_spec(title@, body_html@, css@),
{
    let mut out = String::new();
    push_head(&mut out, title, css);
    out.append("<body class=\"login\">\n<div class=\"login-card\">\n<h1>");
    let brand = brand_html();
    out.append(brand.as_str());
    out.append("</h1>\n");
    out.append(body_html);
    out.append("</div>\n</body>\n</html>\n");
    out
}

} // verus!

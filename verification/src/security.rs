//! The dashboard's security view: the address guard's observed addresses,
//! ordered so that attacks rise to the top, and the page that shows them.

use vstd::prelude::*;
use crate::assets::{html_escape, html_escape_spec, layout_spec, render_layout};
use crate::cache::Response;
use crate::handler::{
    action_label, action_label_spec, flash_html_spec, html_response, html_response_spec,
    render_flash, security_action, security_action_spec, Flash, SecurityAction, PATH_SECURITY,
};
use crate::admins::{field_or_empty, field_value};
use crate::principal::AdminPrincipal;
use crate::text::{decimal, push_decimal, str_eq, to_owned_str};

verus! {

/// The most entries a guard snapshot carries.
pub const DEFAULT_SNAPSHOT_CAP: usize = 256;

/// One address as the address guard reports it.
pub struct GuardEntry {
    /// The address, as text.
    pub ip: String,
    /// `blacklist`, `throttle`, `monitor` or `whitelist`.
    pub state: String,
    pub total_reqs: u64,
    pub throttle_cnt: u64,
}

/// How many addresses the guard holds in each state.
pub struct GuardCounts {
    pub total: u64,
    pub monitor: u64,
    pub throttle: u64,
    pub blacklist: u64,
    pub whitelist: u64,
}

/// The place of a guard state in the view: blacklisted first, then
/// throttled, monitored and whitelisted, anything else last.
pub open spec fn rank_spec(state: Seq<char>) -> int {
    if state == "blacklist"@ {
        0
    } else if state == "throttle"@ {
        1
    } else if state == "monitor"@ {
        2
    } else if state == "whitelist"@ {
        3
    } else {
        4
    }
}

/// The place of a guard state in the view.
pub fn state_rank(state: &str) -> (r: u8)
    ensures
        r == rank_spec(state@),
{
    if str_eq(state, "blacklist") {
        0
    } else if str_eq(state, "throttle") {
        1
    } else if str_eq(state, "monitor") {
        2
    } else if str_eq(state, "whitelist") {
        3
    } else {
        4
    }
}

/// `a` is shown strictly before `b`: a lower rank, or the same rank and
/// more requests.
pub open spec fn goes_before(a: GuardEntry, b: GuardEntry) -> bool {
    rank_spec(a.state@) < rank_spec(b.state@) || (rank_spec(a.state@) == rank_spec(b.state@)
        && a.total_reqs > b.total_reqs)
}

/// `e` placed in `s` before the first entry it goes strictly before, so
/// after every entry it ties with.
pub open spec fn insert_spec(s: Seq<GuardEntry>, e: GuardEntry) -> Seq<GuardEntry>
    decreases s.len(),
{
    if s.len() == 0 {
        seq![e]
    } else if goes_before(e, s[0]) {
        seq![e] + s
    } else {
        seq![s[0]] + insert_spec(s.drop_first(), e)
    }
}

/// The stable sort of `s` by rank, then by requests, most first: entries
/// that tie keep the order they came in.
pub open spec fn order_spec(s: Seq<GuardEntry>) -> Seq<GuardEntry>
    decreases s.len(),
{
    if s.len() == 0 {
        seq![]
    } else {
        insert_spec(order_spec(s.drop_last()), s.last())
    }
}

/// No entry goes strictly before one shown ahead of it.
pub open spec fn is_ordered(s: Seq<GuardEntry>) -> bool {
    forall|i: int, j: int| 0 <= i < j < s.len() ==> !goes_before(#[trigger] s[j], #[trigger] s[i])
}

/// The position `insert_spec` puts `e` at: the first entry `e` goes
/// strictly before, or the end.
pub open spec fn insert_at(s: Seq<GuardEntry>, e: GuardEntry, i: int) -> bool {
    &&& 0 <= i <= s.len()
    &&& forall|k: int| 0 <= k < i ==> !goes_before(e, #[trigger] s[k])
    &&& i < s.len() ==> goes_before(e, s[i])
}

proof fn lemma_insert_splits(s: Seq<GuardEntry>, e: GuardEntry, i: int)
    requires
        insert_at(s, e, i),
    ensures
        insert_spec(s, e) == s.take(i) + seq![e] + s.skip(i),
    decreases s.len(),
{
    if s.len() == 0 {
        assert(s.take(i) + seq![e] + s.skip(i) =~= seq![e]);
    } else if i == 0 {
        assert(s.take(0) + seq![e] + s.skip(0) =~= seq![e] + s);
    } else {
        let t = s.drop_first();
        assert forall|k: int| 0 <= k < i - 1 implies !goes_before(e, #[trigger] t[k]) by {
            assert(t[k] == s[k + 1]);
        }
        if i - 1 < t.len() {
            assert(t[i - 1] == s[i]);
        }
        lemma_insert_splits(t, e, i - 1);
        assert(seq![s[0]] + (t.take(i - 1) + seq![e] + t.skip(i - 1)) =~= s.take(i) + seq![e]
            + s.skip(i));
    }
}

/// Order a guard snapshot for display: blacklisted addresses first, then
/// throttled, monitored and whitelisted, each by requests, most first;
/// ties keep the snapshot's order.
pub fn order_entries(entries: Vec<GuardEntry>) -> (r: Vec<GuardEntry>)
    ensures
        r@ == order_spec(entries@),
{
    let mut out: Vec<GuardEntry> = Vec::new();
    let mut ranks: Vec<u8> = Vec::new();
    let mut rest = entries;
    let ghost all = rest@;
    let mut taken: usize = 0;
    let n = rest.len();
    while rest.len() > 0
        invariant
            taken + rest.len() == n,
            n == all.len(),
            rest@ == all.skip(taken as int),
            out@ == order_spec(all.take(taken as int)),
            ranks@.len() == out@.len(),
            forall|k: int| 0 <= k < out@.len() ==> ranks@[k] == rank_spec(#[trigger] out@[k].state@),
        decreases rest.len(),
    {
        let e = rest.remove(0);
        proof {
            assert(e == all[taken as int]);
            assert(rest@ =~= all.skip(taken + 1));
        }
        let er = state_rank(e.state.as_str());
        let mut i: usize = 0;
        while i < out.len()
            invariant_except_break
                0 <= i <= out@.len(),
                forall|k: int| 0 <= k < i ==> !goes_before(e, #[trigger] out@[k]),
            invariant
                ranks@.len() == out@.len(),
                forall|k: int| 0 <= k < out@.len() ==> ranks@[k] == rank_spec(#[trigger] out@[k].state@),
                er == rank_spec(e.state@),
            ensures
                insert_at(out@, e, i as int),
            decreases out@.len() - i,
        {
            let before_it = er < ranks[i] || (er == ranks[i] && e.total_reqs > out[i].total_reqs);
            if before_it {
                break;
            }
            i += 1;
        }
        proof {
            lemma_insert_splits(out@, e, i as int);
            assert(all.take(taken + 1).drop_last() =~= all.take(taken as int));
            assert(all.take(taken + 1).last() == e);
        }
        let ghost old_out = out@;
        let ghost old_ranks = ranks@;
        out.insert(i, e);
        ranks.insert(i, er);
        proof {
            assert(out@ =~= old_out.take(i as int) + seq![e] + old_out.skip(i as int));
            assert forall|k: int| 0 <= k < out@.len() implies ranks@[k] == rank_spec(
                #[trigger] out@[k].state@,
            ) by {
                if k < i {
                    assert(out@[k] == old_out[k] && ranks@[k] == old_ranks[k]);
                } else if k > i {
                    assert(out@[k] == old_out[k - 1] && ranks@[k] == old_ranks[k - 1]);
                }
            }
        }
        taken += 1;
    }
    proof {
        assert(all.take(n as int) =~= all);
    }
    out
}

proof fn lemma_insert_keeps_entries(s: Seq<GuardEntry>, e: GuardEntry)
    ensures
        insert_spec(s, e).to_multiset() =~= s.to_multiset().insert(e),
    decreases s.len(),
{
    broadcast use vstd::seq_lib::group_to_multiset_ensures;
    if s.len() == 0 {
        assert(seq![e] =~= s.insert(0, e));
        vstd::seq_lib::to_multiset_insert(s, 0, e);
    } else if goes_before(e, s[0]) {
        assert(seq![e] + s =~= s.insert(0, e));
        vstd::seq_lib::to_multiset_insert(s, 0, e);
    } else {
        let t = s.drop_first();
        lemma_insert_keeps_entries(t, e);
        let it = insert_spec(t, e);
        assert(seq![s[0]] + it =~= it.insert(0, s[0]));
        vstd::seq_lib::to_multiset_insert(it, 0, s[0]);
        assert(s =~= t.insert(0, s[0]));
        vstd::seq_lib::to_multiset_insert(t, 0, s[0]);
    }
}

proof fn lemma_insert_keeps_order(s: Seq<GuardEntry>, e: GuardEntry)
    requires
        is_ordered(s),
    ensures
        is_ordered(insert_spec(s, e)),
    decreases s.len(),
{
    broadcast use vstd::seq_lib::group_to_multiset_ensures;
    if s.len() == 0 {
    } else if goes_before(e, s[0]) {
        let r = seq![e] + s;
        assert forall|i: int, j: int| 0 <= i < j < r.len() implies !goes_before(
            #[trigger] r[j],
            #[trigger] r[i],
        ) by {
            if i == 0 {
                assert(r[j] == s[j - 1]);
                if j - 1 > 0 {
                    assert(!goes_before(s[j - 1], s[0]));
                }
            } else {
                assert(r[i] == s[i - 1] && r[j] == s[j - 1]);
            }
        }
    } else {
        let t = s.drop_first();
        assert forall|i: int, j: int| 0 <= i < j < t.len() implies !goes_before(
            #[trigger] t[j],
            #[trigger] t[i],
        ) by {
            assert(t[i] == s[i + 1] && t[j] == s[j + 1]);
        }
        lemma_insert_keeps_order(t, e);
        lemma_insert_keeps_entries(t, e);
        let it = insert_spec(t, e);
        let r = seq![s[0]] + it;
        assert forall|i: int, j: int| 0 <= i < j < r.len() implies !goes_before(
            #[trigger] r[j],
            #[trigger] r[i],
        ) by {
            if i == 0 {
                let x = it[j - 1];
                assert(r[j] == x);
                assert(it.contains(x));
                assert(it.to_multiset().count(x) > 0);
                if x != e {
                    assert(t.to_multiset().count(x) > 0);
                    assert(t.contains(x));
                    let k = choose|k: int| 0 <= k < t.len() && t[k] == x;
                    assert(s[k + 1] == x);
                }
            } else {
                assert(r[i] == it[i - 1] && r[j] == it[j - 1]);
            }
        }
    }
}

/// The ordered view holds exactly the snapshot's entries, as many times
/// each as the snapshot does.
pub proof fn lemma_order_keeps_entries(s: Seq<GuardEntry>)
    ensures
        order_spec(s).to_multiset() =~= s.to_multiset(),
    decreases s.len(),
{
    broadcast use vstd::seq_lib::group_to_multiset_ensures;
    if s.len() > 0 {
        lemma_order_keeps_entries(s.drop_last());
        lemma_insert_keeps_entries(order_spec(s.drop_last()), s.last());
        assert(s =~= s.drop_last().push(s.last()));
    }
}

/// In the ordered view no entry goes before one shown ahead of it:
/// blacklisted addresses come first, and within a state the busiest.
pub proof fn lemma_order_is_ordered(s: Seq<GuardEntry>)
    ensures
        is_ordered(order_spec(s)),
    decreases s.len(),
{
    if s.len() > 0 {
        lemma_order_is_ordered(s.drop_last());
        lemma_insert_keeps_order(order_spec(s.drop_last()), s.last());
    }
}

// ---------------------------------------------------------------------------
// The page
// ---------------------------------------------------------------------------

/// One headline chip.
pub open spec fn chip_spec(label: Seq<char>, value: u64, sub: Seq<char>) -> Seq<char> {
    "<div class=\"chip\"><div class=\"chip-label\">"@ + label + "</div><div class=\"chip-value\">"@
        + decimal(value as nat) + "</div><div class=\"chip-sub\">"@ + sub + "</div></div>\n"@
}

/// The row of chips counting the guard's states.
pub open spec fn chip_row_spec(c: (u64, u64, u64, u64)) -> Seq<char> {
    "<div class=\"chip-row\">\n"@ + chip_spec("Monitored"@, c.0, "rate-limited only"@) + chip_spec(
        "Throttled"@,
        c.1,
        "under active cooldown"@,
    ) + chip_spec("Blacklisted"@, c.2, "dropping every packet"@) + chip_spec(
        "Whitelisted"@,
        c.3,
        "always allowed"@,
    ) + "</div>\n"@
}

/// The actions cell of an address: the three guard buttons for an admin
/// who may change the guard, a note otherwise.
pub open spec fn actions_spec(ip: Seq<char>, can_mutate: bool) -> Seq<char> {
    if can_mutate {
        "<form method=\"POST\" action=\"/admin/security\" class=\"inline-form\"><input type=\"hidden\" name=\"ip\" value=\""@
            + html_escape_spec(ip)
            + "\"><button type=\"submit\" name=\"action\" value=\"whitelist\">Whitelist</button><button type=\"submit\" name=\"action\" value=\"blacklist\">Blacklist</button><button type=\"submit\" name=\"action\" value=\"unblock\">Reset</button></form>"@
    } else {
        "<em>view only</em>"@
    }
}

/// The table row of one address.
pub open spec fn entry_row_spec(e: GuardEntry, can_mutate: bool) -> Seq<char> {
    "<tr><td><code>"@ + html_escape_spec(e.ip@) + "</code></td><td class=\"pill pill-"@ + e.state@
        + "\">"@ + e.state@ + "</td><td>"@ + decimal(e.total_reqs as nat) + "</td><td>"@ + decimal(
        e.throttle_cnt as nat,
    ) + "</td><td>"@ + actions_spec(e.ip@, can_mutate) + "</td></tr>\n"@
}

/// The rows of the addresses, in the order given.
pub open spec fn entry_rows_spec(es: Seq<GuardEntry>, can_mutate: bool) -> Seq<char>
    decreases es.len(),
{
    if es.len() == 0 {
        seq![]
    } else {
        entry_rows_spec(es.drop_last(), can_mutate) + entry_row_spec(es.last(), can_mutate)
    }
}

/// The table of observed addresses, or a notice that there are none.
pub open spec fn table_spec(es: Seq<GuardEntry>, can_mutate: bool) -> Seq<char> {
    if es.len() == 0 {
        "<p class=\"notice empty\">No addresses observed yet.</p>\n"@
    } else {
        "<table class=\"steel-table\">\n<thead><tr><th>IP</th><th>State</th><th>Requests</th><th>Throttles</th><th>Actions</th></tr></thead>\n<tbody>"@
            + entry_rows_spec(es, can_mutate) + "</tbody>\n</table>\n"@
    }
}

/// The form that blacklists an address by hand, for an admin who may.
pub open spec fn manual_form_spec(can_mutate: bool) -> Seq<char> {
    if can_mutate {
        "<h2>Block a specific address</h2>\n<form class=\"steel-form\" method=\"POST\" action=\"/admin/security\">\n<input type=\"hidden\" name=\"action\" value=\"blacklist\">\n<label for=\"ip\">IP address</label>\n<input type=\"text\" id=\"ip\" name=\"ip\" required placeholder=\"1.2.3.4 or ::1\" autocomplete=\"off\">\n<button type=\"submit\">Add to blacklist</button>\n</form>\n"@
    } else {
        seq![]
    }
}

/// The body of the security page, the entries already in display order.
pub open spec fn security_body_spec(
    flash: Option<(bool, Seq<char>)>,
    can_mutate: bool,
    total: u64,
    chips: (u64, u64, u64, u64),
    es: Seq<GuardEntry>,
) -> Seq<char> {
    "<h1>Security</h1>\n"@ + flash_html_spec(flash)
        + "<p>The address guard runs before the TLS handshake on every incoming TCP connection. Blacklisted and throttled addresses are dropped at the accept loop so they cost the server nothing more than a SYN/ACK.</p>\n"@
        + chip_row_spec(chips) + "<h2>Observed addresses</h2>\n<p class=\"meta\">Total observed: <strong>"@
        + decimal(total as nat) + "</strong>. Snapshot cap: "@ + decimal(DEFAULT_SNAPSHOT_CAP as nat)
        + ". Showing "@ + decimal(es.len()) + " rows.</p>\n"@ + table_spec(es, can_mutate)
        + manual_form_spec(can_mutate)
}

/// The flash of a page, as the specs see it.
pub open spec fn flash_view(flash: Option<&Flash>) -> Option<(bool, Seq<char>)> {
    match flash {
        Some(f) => Some((f.ok, f.message@)),
        None => None,
    }
}

/// The counts of the guard's states, as the chips show them.
pub open spec fn chips_view(c: &GuardCounts) -> (u64, u64, u64, u64) {
    (c.monitor, c.throttle, c.blacklist, c.whitelist)
}

fn push_chip(s: &mut String, label: &str, value: u64, sub: &str)
    ensures
        final(s)@ == old(s)@ + chip_spec(label@, value, sub@),
{
    s.append("<div class=\"chip\"><div class=\"chip-label\">");
    s.append(label);
    s.append("</div><div class=\"chip-value\">");
    push_decimal(s, value);
    s.append("</div><div class=\"chip-sub\">");
    s.append(sub);
    s.append("</div></div>\n");
}

fn push_entry_row(s: &mut String, e: &GuardEntry, can_mutate: bool)
    ensures
        final(s)@ == old(s)@ + entry_row_spec(*e, can_mutate),
{
    let ip = html_escape(e.ip.as_str());
    s.append("<tr><td><code>");
    s.append(ip.as_str());
    s.append("</code></td><td class=\"pill pill-");
    s.append(e.state.as_str());
    s.append("\">");
    s.append(e.state.as_str());
    s.append("</td><td>");
    push_decimal(s, e.total_reqs);
    s.append("</td><td>");
    push_decimal(s, e.throttle_cnt);
    s.append("</td><td>");
    if can_mutate {
        s.append(
            "<form method=\"POST\" action=\"/admin/security\" class=\"inline-form\"><input type=\"hidden\" name=\"ip\" value=\"",
        );
        s.append(ip.as_str());
        s.append(
            "\"><button type=\"submit\" name=\"action\" value=\"whitelist\">Whitelist</button><button type=\"submit\" name=\"action\" value=\"blacklist\">Blacklist</button><button type=\"submit\" name=\"action\" value=\"unblock\">Reset</button></form>",
        );
    } else {
        s.append("<em>view only</em>");
    }
    s.append("</td></tr>\n");
}

/// The body of the security page. `entries` are shown in the order given.
pub fn security_body(
    flash: Option<&Flash>,
    can_mutate: bool,
    counts: &GuardCounts,
    entries: &Vec<GuardEntry>,
) -> (r: String)
    ensures
        r@ == security_body_spec(
            flash_view(flash),
            can_mutate,
            counts.total,
            chips_view(counts),
            entries@,
        ),
{
    let mut s = to_owned_str("<h1>Security</h1>\n");
    let f = render_flash(flash);
    s.append(f.as_str());
    s.append(
        "<p>The address guard runs before the TLS handshake on every incoming TCP connection. Blacklisted and throttled addresses are dropped at the accept loop so they cost the server nothing more than a SYN/ACK.</p>\n",
    );
    let ghost before_chips = s@;
    s.append("<div class=\"chip-row\">\n");
    push_chip(&mut s, "Monitored", counts.monitor, "rate-limited only");
    push_chip(&mut s, "Throttled", counts.throttle, "under active cooldown");
    push_chip(&mut s, "Blacklisted", counts.blacklist, "dropping every packet");
    push_chip(&mut s, "Whitelisted", counts.whitelist, "always allowed");
    s.append("</div>\n");
    assert(s@ =~= before_chips + chip_row_spec(chips_view(counts)));
    s.append("<h2>Observed addresses</h2>\n<p class=\"meta\">Total observed: <strong>");
    push_decimal(&mut s, counts.total);
    s.append("</strong>. Snapshot cap: ");
    push_decimal(&mut s, DEFAULT_SNAPSHOT_CAP as u64);
    s.append(". Showing ");
    push_decimal(&mut s, entries.len() as u64);
    s.append(" rows.</p>\n");
    let ghost before_table = s@;
    if entries.len() == 0 {
        s.append("<p class=\"notice empty\">No addresses observed yet.</p>\n");
    } else {
        s.append(
            "<table class=\"steel-table\">\n<thead><tr><th>IP</th><th>State</th><th>Requests</th><th>Throttles</th><th>Actions</th></tr></thead>\n<tbody>",
        );
        let ghost before_rows = s@;
        let mut i: usize = 0;
        while i < entries.len()
            invariant
                i <= entries@.len(),
                s@ == before_rows + entry_rows_spec(entries@.take(i as int), can_mutate),
            decreases entries@.len() - i,
        {
            push_entry_row(&mut s, &entries[i], can_mutate);
            assert(entries@.take(i + 1).drop_last() =~= entries@.take(i as int));
            i += 1;
        }
        assert(entries@.take(entries@.len() as int) =~= entries@);
        s.append("</tbody>\n</table>\n");
    }
    assert(s@ =~= before_table + table_spec(entries@, can_mutate));
    if can_mutate {
        s.append(
            "<h2>Block a specific address</h2>\n<form class=\"steel-form\" method=\"POST\" action=\"/admin/security\">\n<input type=\"hidden\" name=\"action\" value=\"blacklist\">\n<label for=\"ip\">IP address</label>\n<input type=\"text\" id=\"ip\" name=\"ip\" required placeholder=\"1.2.3.4 or ::1\" autocomplete=\"off\">\n<button type=\"submit\">Add to blacklist</button>\n</form>\n",
        );
    }
    s
}

/// The security page for `principal`: the guard's counts and observed
/// addresses, blacklisted first and the busiest first within a state;
/// the guard controls for an admin with `dashboard.admin` scope, a
/// read-only view otherwise.
pub fn render_security(
    principal: &AdminPrincipal,
    flash: Option<&Flash>,
    counts: &GuardCounts,
    entries: Vec<GuardEntry>,
    css: &str,
) -> (r: Response)
    ensures
        r@ == html_response_spec(
            layout_spec(
                "Security"@,
                PATH_SECURITY@,
                principal@.name,
                security_body_spec(
                    flash_view(flash),
                    crate::principal::may_admin_dashboard(principal@.scopes),
                    counts.total,
                    chips_view(counts),
                    order_spec(entries@),
                ),
                css@,
            ),
        ),
{
    let can_mutate = principal.can_admin_dashboard();
    let ordered = order_entries(entries);
    let body = security_body(flash, can_mutate, counts, &ordered);
    let html = render_layout("Security", PATH_SECURITY, principal, body.as_str(), css);
    html_response(html)
}

/// The security page when the guard cannot be read: `message`, escaped.
pub fn render_security_error(principal: &AdminPrincipal, message: &str, css: &str) -> (r: Response)
    ensures
        r@ == html_response_spec(
            layout_spec(
                "Security"@,
                PATH_SECURITY@,
                principal@.name,
                "<h1>Security</h1>\n<p class=\"notice error\">"@ + html_escape_spec(message@)
                    + "</p>\n"@,
                css@,
            ),
        ),
{
    let mut body = to_owned_str("<h1>Security</h1>\n<p class=\"notice error\">");
    let m = html_escape(message);
    body.append(m.as_str());
    body.append("</p>\n");
    let html = render_layout("Security", PATH_SECURITY, principal, body.as_str(), css);
    html_response(html)
}

// ---------------------------------------------------------------------------
// Guard actions
// ---------------------------------------------------------------------------

/// What a guard form asks for: the address first, as the parser wrote it
/// back (`None` when `ip_raw` is no address), then a known action.
pub open spec fn plan_spec(action_raw: Seq<char>, ip_raw: Seq<char>, ip: Option<Seq<char>>) -> Result<
    (SecurityAction, Seq<char>),
    (bool, Seq<char>),
> {
    match ip {
        None => Err((false, "Not a valid IP address: '"@ + ip_raw + "'."@)),
        Some(t) => match security_action_spec(action_raw) {
            Some(a) => Ok((a, t)),
            None => Err((false, "Unknown security action '"@ + action_raw + "'."@)),
        },
    }
}

/// Decide a guard form: the action to apply to the address, or the
/// banner that refuses it. `ip` is the address parsed from `ip_raw` and
/// written back, `None` when it did not parse.
pub fn plan_security_action(action_raw: &str, ip_raw: &str, ip: Option<String>) -> (r: Result<
    (SecurityAction, String),
    Flash,
>)
    ensures
        match r {
            Ok((a, t)) => plan_spec(action_raw@, ip_raw@, opt_text(ip)) == Ok::<
                (SecurityAction, Seq<char>),
                (bool, Seq<char>),
            >((a, t@)),
            Err(f) => plan_spec(action_raw@, ip_raw@, opt_text(ip)) == Err::<
                (SecurityAction, Seq<char>),
                (bool, Seq<char>),
            >((f.ok, f.message@)),
        },
{
    match ip {
        None => {
            let mut m = to_owned_str("Not a valid IP address: '");
            m.append(ip_raw);
            m.append("'.");
            Err(Flash { ok: false, message: m })
        },
        Some(t) => match security_action(action_raw) {
            Some(a) => Ok((a, t)),
            None => {
                let mut m = to_owned_str("Unknown security action '");
                m.append(action_raw);
                m.append("'.");
                Err(Flash { ok: false, message: m })
            },
        },
    }
}

/// The text of an optional string.
pub open spec fn opt_text(s: Option<String>) -> Option<Seq<char>> {
    match s {
        Some(t) => Some(t@),
        None => None,
    }
}

/// The banner after the guard applied `action_raw` to `ip`: the action in
/// the past tense on success, the guard's reason on failure.
pub open spec fn applied_flash_spec(action_raw: Seq<char>, ip: Seq<char>, result: Result<(), Seq<char>>) -> (
    bool,
    Seq<char>,
) {
    match result {
        Ok(()) => (true, action_label_spec(action_raw) + " "@ + ip + "."@),
        Err(e) => (false, "Failed to "@ + action_raw + " "@ + ip + ": "@ + e),
    }
}

/// The banner after the guard applied an action.
pub fn applied_flash(action_raw: &str, ip: &str, result: Result<(), String>) -> (r: Flash)
    ensures
        (r.ok, r.message@) == applied_flash_spec(
            action_raw@,
            ip@,
            match result {
                Ok(()) => Ok(()),
                Err(e) => Err(e@),
            },
        ),
{
    match result {
        Ok(()) => {
            let mut m = to_owned_str(action_label(action_raw));
            m.append(" ");
            m.append(ip);
            m.append(".");
            Flash { ok: true, message: m }
        },
        Err(e) => {
            let mut m = to_owned_str("Failed to ");
            m.append(action_raw);
            m.append(" ");
            m.append(ip);
            m.append(": ");
            m.append(e.as_str());
            Flash { ok: false, message: m }
        },
    }
}

/// The refusal of a guard form from an admin without `dashboard.admin`.
pub const NEED_ADMIN_SCOPE: &'static str = "You need the dashboard.admin scope to mutate the address guard.";

/// The `action` and `ip` fields of a guard form, each empty when absent.
pub fn security_form(body: &[u8]) -> (r: (String, String))
    ensures
        r.0@ == field_or_empty(body@, "action"@),
        r.1@ == field_or_empty(body@, "ip"@),
{
    (field_value(body, "action"), field_value(body, "ip"))
}

} // verus!

//! The admin management forms of the dashboard: what an add or a remove
//! asks for, and the banner each outcome is answered with.
//!
//! Enrolling an admin wraps the wallet's master key under the new password,
//! and saving writes the wallet to disk; both are the wallet's. This module
//! reads the forms and words the answers.

use vstd::prelude::*;
use crate::alert::{join, join_spec};
use crate::form::{extract_form_field, form_field_spec};
use crate::assets::{html_escape, html_escape_spec, layout_spec, render_layout};
use crate::cache::Response;
use crate::cli::AdminRow;
use crate::handler::{
    flash_html_spec, html_response, html_response_spec, render_flash, Flash, PATH_ADMINS,
};
use crate::principal::{may_manage_admins, strings_view, AdminPrincipal};
use crate::security::flash_view;
use crate::text::{
    chars_of, decimal, push_decimal, split_chars, split_spec, string_from_chars, to_owned_str,
    trim_chars, trim_spec,
};

verus! {

// ---------------------------------------------------------------------------
// Numbers
// ---------------------------------------------------------------------------

/// An ASCII numeral.
pub open spec fn is_digit(c: char) -> bool {
    '0' <= c && c <= '9'
}

/// The value of a run of ASCII numerals, read in base ten.
pub open spec fn digits_value(d: Seq<char>) -> nat
    decreases d.len(),
{
    if d.len() == 0 {
        0
    } else {
        digits_value(d.drop_last()) * 10 + ((d.last() as u32) - 48) as nat
    }
}

/// The numerals of `s` after an optional leading `+`.
pub open spec fn unsigned_digits(s: Seq<char>) -> Seq<char> {
    if s.len() > 0 && s[0] == '+' {
        s.drop_first()
    } else {
        s
    }
}

/// Every character is an ASCII numeral.
pub open spec fn all_digits(d: Seq<char>) -> bool {
    forall|k: int| 0 <= k < d.len() ==> is_digit(#[trigger] d[k])
}

/// What `u64::from_str` accepts: an optional `+`, then one or more ASCII
/// numerals whose value fits in 64 bits.
pub open spec fn parse_u64_spec(s: Seq<char>) -> Option<u64> {
    let d = unsigned_digits(s);
    if d.len() > 0 && all_digits(d) && digits_value(d) <= u64::MAX {
        Some(digits_value(d) as u64)
    } else {
        None
    }
}

proof fn lemma_digits_monotone(d: Seq<char>, i: int)
    requires
        0 <= i <= d.len(),
        all_digits(d),
    ensures
        digits_value(d.take(i)) <= digits_value(d),
    decreases d.len() - i,
{
    if i < d.len() {
        let t = d.take(i + 1);
        assert forall|k: int| 0 <= k < d.drop_last().len() implies is_digit(
            #[trigger] d.drop_last()[k],
        ) by {
            assert(d.drop_last()[k] == d[k]);
        }
        lemma_digits_monotone(d.drop_last(), i);
        assert(d.drop_last().take(i) == d.take(i));
    } else {
        assert(d.take(i) == d);
    }
}

/// Parse a decimal `u64` the way `str::parse::<u64>` does.
pub fn parse_u64(s: &str) -> (r: Option<u64>)
    ensures
        r == parse_u64_spec(s@),
{
    let cs = chars_of(s);
    let start: usize = if cs.len() > 0 && cs[0] == '+' {
        1
    } else {
        0
    };
    let ghost d = unsigned_digits(s@);
    assert(d == cs@.subrange(start as int, cs@.len() as int));
    if start == cs.len() {
        return None;
    }
    let mut v: u64 = 0;
    let mut i: usize = start;
    while i < cs.len()
        invariant
            start <= i <= cs.len(),
            start < cs.len(),
            cs@ == s@,
            d == unsigned_digits(s@),
            d == cs@.subrange(start as int, cs@.len() as int),
            forall|k: int| 0 <= k < i - start ==> is_digit(#[trigger] d[k]),
            v as nat == digits_value(d.take(i - start)),
        decreases cs.len() - i,
    {
        let c = cs[i];
        if !('0' <= c && c <= '9') {
            assert(d[i - start] == c);
            assert(!is_digit(d[i - start]));
            return None;
        }
        let dig: u64 = (c as u32 - 48) as u64;
        assert(d.take(i - start + 1).drop_last() == d.take(i - start));
        assert(d.take(i - start + 1).last() == c);
        match v.checked_mul(10) {
            Some(m) => match m.checked_add(dig) {
                Some(n) => {
                    v = n;
                },
                None => {
                    proof {
                        assert(digits_value(d.take(i - start + 1)) > u64::MAX);
                        if all_digits(d) {
                            lemma_digits_monotone(d, i - start + 1);
                        }
                    }
                    return None;
                },
            },
            None => {
                proof {
                    assert(digits_value(d.take(i - start + 1)) > u64::MAX);
                    if all_digits(d) {
                        lemma_digits_monotone(d, i - start + 1);
                    }
                }
                return None;
            },
        }
        i += 1;
    }
    assert(d.take(cs.len() - start) == d);
    Some(v)
}

// ---------------------------------------------------------------------------
// Scopes
// ---------------------------------------------------------------------------

/// The trimmed, non-empty pieces of a comma-separated list, in order.
pub open spec fn scope_list(pieces: Seq<Seq<char>>) -> Seq<Seq<char>>
    decreases pieces.len(),
{
    if pieces.len() == 0 {
        seq![]
    } else {
        let rest = scope_list(pieces.drop_last());
        if trim_spec(pieces.last()).len() == 0 {
            rest
        } else {
            rest.push(trim_spec(pieces.last()))
        }
    }
}

/// The scopes a comma-separated field names: each piece trimmed, empty
/// pieces dropped.
pub fn parse_scopes(raw: &str) -> (r: Vec<String>)
    ensures
        strings_view(r@) == scope_list(split_spec(raw@, ',')),
{
    let cs = chars_of(raw);
    let pieces = split_chars(&cs, ',');
    let ghost ps = split_spec(raw@, ',');
    let mut out: Vec<String> = Vec::new();
    let mut i: usize = 0;
    while i < pieces.len()
        invariant
            i <= pieces.len(),
            pieces@.len() == ps.len(),
            forall|k: int| 0 <= k < pieces@.len() ==> (#[trigger] pieces@[k])@ == ps[k],
            strings_view(out@) == scope_list(ps.take(i as int)),
        decreases pieces.len() - i,
    {
        let t = trim_chars(&pieces[i]);
        assert(ps.take(i + 1).drop_last() == ps.take(i as int));
        assert(ps.take(i + 1).last() == ps[i as int]);
        if t.len() > 0 {
            let ghost before = out@;
            out.push(string_from_chars(&t));
            assert(strings_view(out@) =~= strings_view(before).push(t@));
        }
        i += 1;
    }
    assert(ps.take(pieces.len() as int) == ps);
    out
}

// ---------------------------------------------------------------------------
// Adding an admin
// ---------------------------------------------------------------------------

/// What an add form asks for, once it is complete.
pub struct NewAdmin {
    pub name: String,
    pub password: String,
    pub scopes: Vec<String>,
    /// Unix seconds at which the entry lapses; zero for never.
    pub expires_at: u64,
}

/// A form field, or the empty text when the form lacks it.
pub open spec fn field_or_empty(body: Seq<u8>, key: Seq<char>) -> Seq<char> {
    match form_field_spec(body, key) {
        Some(v) => v,
        None => seq![],
    }
}

/// The expiry an add asks for: never for zero (or an unreadable number),
/// otherwise `expires_in` seconds after `now`, saturating.
pub open spec fn expiry_spec(expires_in_raw: Seq<char>, now: u64) -> u64 {
    let n = match parse_u64_spec(expires_in_raw) {
        Some(n) => n,
        None => 0,
    };
    if n == 0 {
        0
    } else if now + n > u64::MAX {
        u64::MAX
    } else {
        (now + n) as u64
    }
}

pub(crate) fn field_value(body: &[u8], key: &str) -> (r: String)
    ensures
        r@ == field_or_empty(body@, key@),
{
    match extract_form_field(body, key) {
        Some(v) => v,
        None => String::new(),
    }
}

/// Read an add form at `now`: its name and password are required; its
/// scopes are the comma-separated `scopes` field; its expiry is `expires_in`
/// seconds after `now`, or never.
pub fn admin_add_request_at(body: &[u8], now: u64) -> (r: Result<NewAdmin, Flash>)
    ensures
        ({
            let name = field_or_empty(body@, "name"@);
            let pass = field_or_empty(body@, "password"@);
            if name.len() == 0 || pass.len() == 0 {
                r matches Err(f) && !f.ok && f.message@ == "Name and password are required."@
            } else {
                r matches Ok(a) && a.name@ == name && a.password@ == pass && strings_view(
                    a.scopes@,
                ) == scope_list(split_spec(field_or_empty(body@, "scopes"@), ','))
                    && a.expires_at == expiry_spec(field_or_empty(body@, "expires_in"@), now)
            }
        }),
{
    let name = field_value(body, "name");
    let password = field_value(body, "password");
    let scopes_raw = field_value(body, "scopes");
    let expires_in_raw = field_value(body, "expires_in");
    if name.as_str().is_empty() || password.as_str().is_empty() {
        return Err(Flash { ok: false, message: to_owned_str("Name and password are required.") });
    }
    let scopes = parse_scopes(scopes_raw.as_str());
    let expires_in: u64 = match parse_u64(expires_in_raw.as_str()) {
        Some(n) => n,
        None => 0,
    };
    let expires_at = if expires_in == 0 {
        0
    } else {
        now.saturating_add(expires_in)
    };
    Ok(NewAdmin { name, password, scopes, expires_at })
}

/// Read an add form against the clock.
pub fn admin_add_request(body: &[u8]) -> (r: Result<NewAdmin, Flash>)
    ensures
        ({
            let name = field_or_empty(body@, "name"@);
            let pass = field_or_empty(body@, "password"@);
            if name.len() == 0 || pass.len() == 0 {
                r matches Err(f) && !f.ok && f.message@ == "Name and password are required."@
            } else {
                r matches Ok(a) && a.name@ == name && a.password@ == pass && strings_view(
                    a.scopes@,
                ) == scope_list(split_spec(field_or_empty(body@, "scopes"@), ','))
                    && exists|t: u64|
                    a.expires_at == #[trigger] expiry_spec(field_or_empty(body@, "expires_in"@), t)
            }
        }),
{
    let now = crate::clock::now_secs();
    admin_add_request_at(body, now)
}

/// How enrolling and saving a new admin went.
pub enum Enrolment {
    /// No master key is loaded: nothing can be wrapped for the new admin.
    Sealed,
    /// The wallet's lock was poisoned by an earlier panic.
    LockPoisoned,
    /// The wallet refused the entry, for the reason given.
    Refused(String),
    /// The entry was enrolled but the wallet could not be written.
    SaveFailed(String),
    /// Enrolled and saved.
    Done,
}

/// The banner answering an add of `name`.
pub open spec fn add_message(name: Seq<char>, e: Enrolment) -> (bool, Seq<char>) {
    match e {
        Enrolment::Sealed => (
            false,
            "Steel is sealed: no master key is loaded, so a new admin cannot be enrolled."@,
        ),
        Enrolment::LockPoisoned => (false, "Wallet lock is poisoned."@),
        Enrolment::Refused(why) => (false, "Failed to enrol '"@ + name + "': "@ + why@),
        Enrolment::SaveFailed(why) => (
            false,
            "Admin enrolled in memory but the wallet could not be saved to disk: "@ + why@,
        ),
        Enrolment::Done => (true, "Added admin '"@ + name + "'."@),
    }
}

/// Word the banner for an add of `name` that went as `e`.
pub fn add_flash(name: &str, e: &Enrolment) -> (r: Flash)
    ensures
        (r.ok, r.message@) == add_message(name@, *e),
{
    match e {
        Enrolment::Sealed => Flash {
            ok: false,
            message: to_owned_str(
                "Steel is sealed: no master key is loaded, so a new admin cannot be enrolled.",
            ),
        },
        Enrolment::LockPoisoned => Flash {
            ok: false,
            message: to_owned_str("Wallet lock is poisoned."),
        },
        Enrolment::Refused(why) => {
            let mut m = to_owned_str("Failed to enrol '");
            m.append(name);
            m.append("': ");
            m.append(why.as_str());
            Flash { ok: false, message: m }
        },
        Enrolment::SaveFailed(why) => {
            let mut m = to_owned_str(
                "Admin enrolled in memory but the wallet could not be saved to disk: ",
            );
            m.append(why.as_str());
            Flash { ok: false, message: m }
        },
        Enrolment::Done => {
            let mut m = to_owned_str("Added admin '");
            m.append(name);
            m.append("'.");
            Flash { ok: true, message: m }
        },
    }
}

/// The audit detail of an add that went as `e`; none where the wallet was
/// never reached.
pub open spec fn add_detail(a: (Seq<char>, Seq<Seq<char>>, u64), e: Enrolment) -> Option<
    Seq<char>,
> {
    match e {
        Enrolment::Refused(why) => Some("target="@ + a.0 + " reason="@ + why@),
        Enrolment::SaveFailed(why) => Some("target="@ + a.0 + " reason=save_failed:"@ + why@),
        Enrolment::Done => Some(
            "target="@ + a.0 + " scopes="@ + join_spec(a.1, ","@) + " expires_at="@ + decimal(
                a.2 as nat,
            ),
        ),
        _ => None,
    }
}

/// The audit detail recorded for an add of `a` that went as `e`.
pub fn add_audit_detail(a: &NewAdmin, e: &Enrolment) -> (r: Option<String>)
    ensures
        match r {
            Some(d) => add_detail((a.name@, strings_view(a.scopes@), a.expires_at), *e) == Some(
                d@,
            ),
            None => add_detail((a.name@, strings_view(a.scopes@), a.expires_at), *e) is None,
        },
{
    match e {
        Enrolment::Refused(why) => {
            let mut d = to_owned_str("target=");
            d.append(a.name.as_str());
            d.append(" reason=");
            d.append(why.as_str());
            Some(d)
        },
        Enrolment::SaveFailed(why) => {
            let mut d = to_owned_str("target=");
            d.append(a.name.as_str());
            d.append(" reason=save_failed:");
            d.append(why.as_str());
            Some(d)
        },
        Enrolment::Done => {
            let mut d = to_owned_str("target=");
            d.append(a.name.as_str());
            d.append(" scopes=");
            let j = join(&a.scopes, ",");
            d.append(j.as_str());
            d.append(" expires_at=");
            push_decimal(&mut d, a.expires_at);
            Some(d)
        },
        _ => None,
    }
}

// ---------------------------------------------------------------------------
// Removing an admin
// ---------------------------------------------------------------------------

/// Read a remove form: the `name` of the entry to remove, which must be
/// given.
pub fn admin_remove_target(body: &[u8]) -> (r: Result<String, Flash>)
    ensures
        field_or_empty(body@, "name"@).len() == 0 ==> (r matches Err(f) && !f.ok && f.message@
            == "Missing target name."@),
        field_or_empty(body@, "name"@).len() != 0 ==> (r matches Ok(t) && t@ == field_or_empty(
            body@,
            "name"@,
        )),
{
    let target = field_value(body, "name");
    if target.as_str().is_empty() {
        return Err(Flash { ok: false, message: to_owned_str("Missing target name.") });
    }
    Ok(target)
}

/// How removing an admin went.
pub enum Removal {
    LockPoisoned,
    Refused(String),
    SaveFailed(String),
    Done,
}

/// The banner answering a remove of `target`.
pub open spec fn remove_message(target: Seq<char>, e: Removal) -> (bool, Seq<char>) {
    match e {
        Removal::LockPoisoned => (false, "Wallet lock is poisoned."@),
        Removal::Refused(why) => (false, "Failed to remove '"@ + target + "': "@ + why@),
        Removal::SaveFailed(why) => (
            false,
            "Admin removed in memory but the wallet could not be saved to disk: "@ + why@,
        ),
        Removal::Done => (true, "Removed admin '"@ + target + "'."@),
    }
}

/// Word the banner for a remove of `target` that went as `e`.
pub fn remove_flash(target: &str, e: &Removal) -> (r: Flash)
    ensures
        (r.ok, r.message@) == remove_message(target@, *e),
{
    match e {
        Removal::LockPoisoned => Flash {
            ok: false,
            message: to_owned_str("Wallet lock is poisoned."),
        },
        Removal::Refused(why) => {
            let mut m = to_owned_str("Failed to remove '");
            m.append(target);
            m.append("': ");
            m.append(why.as_str());
            Flash { ok: false, message: m }
        },
        Removal::SaveFailed(why) => {
            let mut m = to_owned_str(
                "Admin removed in memory but the wallet could not be saved to disk: ",
            );
            m.append(why.as_str());
            Flash { ok: false, message: m }
        },
        Removal::Done => {
            let mut m = to_owned_str("Removed admin '");
            m.append(target);
            m.append("'.");
            Flash { ok: true, message: m }
        },
    }
}

// ---------------------------------------------------------------------------
// The page
// ---------------------------------------------------------------------------

/// An admin as the page lists it: name, expiry, scopes.
pub open spec fn row_view(a: AdminRow) -> (Seq<char>, u64, Seq<Seq<char>>) {
    (a.name@, a.expires_at, strings_view(a.scopes@))
}

/// When an admin entry lapses: `never` for zero, the unix time otherwise.
pub open spec fn expiry_text(expires_at: u64) -> Seq<char> {
    if expires_at == 0 {
        "never"@
    } else {
        "unix "@ + decimal(expires_at as nat)
    }
}

/// An admin's scopes, escaped, or a note that there are none.
pub open spec fn scopes_text(scopes: Seq<Seq<char>>) -> Seq<char> {
    if scopes.len() == 0 {
        "<em>(none)</em>"@
    } else {
        html_escape_spec(join_spec(scopes, ", "@))
    }
}

/// The table row of one admin, with the form that removes it.
pub open spec fn admin_row_spec(a: (Seq<char>, u64, Seq<Seq<char>>)) -> Seq<char> {
    let name = html_escape_spec(a.0);
    "<tr><td><strong>"@ + name + "</strong></td><td>"@ + expiry_text(a.1) + "</td><td><code>"@
        + scopes_text(a.2)
        + "</code></td><td><form method=\"POST\" action=\"/admin/admins\" onsubmit=\"return confirm('Remove admin "@
        + name
        + "?');\"><input type=\"hidden\" name=\"action\" value=\"remove\"><input type=\"hidden\" name=\"name\" value=\""@
        + name + "\"><button type=\"submit\" class=\"primary\">Remove</button></form></td></tr>\n"@
}

/// The rows of the admins, in the wallet's order.
pub open spec fn admin_rows_spec(admins: Seq<AdminRow>) -> Seq<char>
    decreases admins.len(),
{
    if admins.len() == 0 {
        seq![]
    } else {
        admin_rows_spec(admins.drop_last()) + admin_row_spec(row_view(admins.last()))
    }
}

/// The body of the admin management page.
pub open spec fn admins_body_spec(flash: Option<(bool, Seq<char>)>, admins: Seq<AdminRow>) -> Seq<
    char,
> {
    "<h1>Admin management</h1>\n"@ + flash_html_spec(flash)
        + "<p>Wallet currently holds <strong>"@ + decimal(admins.len())
        + "</strong> admin entries. Adding a new admin enrols their password against the same wallet master key the CLI <code>admin --add</code> verb uses; removing an admin revokes their password immediately. Every action here is recorded in <code>admin-audit.log</code> alongside the CLI events.</p>\n<h2>Existing admins</h2>\n<table class=\"steel-table\">\n<thead><tr><th>Name</th><th>Expires</th><th>Scopes</th><th>Actions</th></tr></thead>\n<tbody>"@
        + admin_rows_spec(admins) + ADD_FORM@
}

/// The tail of the admin table and the form that adds an admin.
pub const ADD_FORM: &'static str = "</tbody>\n</table>\n<h2>Add an admin</h2>\n<form class=\"steel-form\" method=\"POST\" action=\"/admin/admins\">\n<input type=\"hidden\" name=\"action\" value=\"add\">\n<label for=\"new_name\">Name</label>\n<input type=\"text\" id=\"new_name\" name=\"name\" required autocomplete=\"off\">\n<label for=\"new_password\">Password</label>\n<input type=\"password\" id=\"new_password\" name=\"password\" required autocomplete=\"new-password\">\n<label for=\"new_scopes\">Scopes (comma-separated)</label>\n<input type=\"text\" id=\"new_scopes\" name=\"scopes\" value=\"dashboard.view\" placeholder=\"dashboard.view, admin\">\n<p class=\"meta\">Well-known scopes: <code>admin</code>, <code>dashboard.view</code>, <code>dashboard.admin</code>. Use <code>*</code> for operator-level access.</p>\n<label for=\"new_expires_in\">Expires in (seconds, 0 = never)</label>\n<input type=\"number\" id=\"new_expires_in\" name=\"expires_in\" value=\"0\" min=\"0\">\n<button type=\"submit\">Add admin</button>\n</form>\n";

/// The page shown to a signed-in admin without the `admin` scope.
pub const FORBIDDEN_BODY: &'static str = "<h1>Admin management</h1>\n<p class=\"notice error\">You are signed in to the dashboard but your admin entry does not hold the <code>admin</code> scope. Admin management requires both a dashboard scope (<code>dashboard.view</code> or <code>dashboard.admin</code>) and the <code>admin</code> scope. Ask another operator to grant <code>admin</code> via <code>./steel admin --add</code> if you need to enrol new admin entries from this dashboard.</p>\n";

fn push_admin_row(s: &mut String, a: &AdminRow)
    ensures
        final(s)@ == old(s)@ + admin_row_spec(row_view(*a)),
{
    let name = html_escape(a.name.as_str());
    s.append("<tr><td><strong>");
    s.append(name.as_str());
    s.append("</strong></td><td>");
    if a.expires_at == 0 {
        s.append("never");
    } else {
        s.append("unix ");
        push_decimal(s, a.expires_at);
    }
    s.append("</td><td><code>");
    if a.scopes.len() == 0 {
        s.append("<em>(none)</em>");
    } else {
        let j = join(&a.scopes, ", ");
        let e = html_escape(j.as_str());
        s.append(e.as_str());
    }
    s.append(
        "</code></td><td><form method=\"POST\" action=\"/admin/admins\" onsubmit=\"return confirm('Remove admin ",
    );
    s.append(name.as_str());
    s.append(
        "?');\"><input type=\"hidden\" name=\"action\" value=\"remove\"><input type=\"hidden\" name=\"name\" value=\"",
    );
    s.append(name.as_str());
    s.append("\"><button type=\"submit\" class=\"primary\">Remove</button></form></td></tr>\n");
}

/// The body of the admin management page: the flash, the admins in the
/// wallet's order, and the add form.
pub fn admins_body(flash: Option<&Flash>, admins: &Vec<AdminRow>) -> (r: String)
    ensures
        r@ == admins_body_spec(flash_view(flash), admins@),
{
    let mut s = to_owned_str("<h1>Admin management</h1>\n");
    let f = render_flash(flash);
    s.append(f.as_str());
    s.append("<p>Wallet currently holds <strong>");
    push_decimal(&mut s, admins.len() as u64);
    s.append(
        "</strong> admin entries. Adding a new admin enrols their password against the same wallet master key the CLI <code>admin --add</code> verb uses; removing an admin revokes their password immediately. Every action here is recorded in <code>admin-audit.log</code> alongside the CLI events.</p>\n<h2>Existing admins</h2>\n<table class=\"steel-table\">\n<thead><tr><th>Name</th><th>Expires</th><th>Scopes</th><th>Actions</th></tr></thead>\n<tbody>",
    );
    let ghost before_rows = s@;
    let mut i: usize = 0;
    while i < admins.len()
        invariant
            i <= admins@.len(),
            s@ == before_rows + admin_rows_spec(admins@.take(i as int)),
        decreases admins@.len() - i,
    {
        push_admin_row(&mut s, &admins[i]);
        assert(admins@.take(i + 1).drop_last() =~= admins@.take(i as int));
        i += 1;
    }
    assert(admins@.take(admins@.len() as int) =~= admins@);
    s.append(ADD_FORM);
    s
}

/// The admin management page for `principal`: the list and its forms for
/// an admin who holds `admin` beside a dashboard scope, the forbidden
/// notice for any other.
pub fn render_admins(
    principal: &AdminPrincipal,
    admins: &Vec<AdminRow>,
    flash: Option<&Flash>,
    css: &str,
) -> (r: Response)
    ensures
        r@ == html_response_spec(
            layout_spec(
                "Admins"@,
                PATH_ADMINS@,
                principal@.name,
                if may_manage_admins(principal@.scopes) {
                    admins_body_spec(flash_view(flash), admins@)
                } else {
                    FORBIDDEN_BODY@
                },
                css@,
            ),
        ),
{
    if !principal.can_manage_admins() {
        return render_admin_forbidden(principal, css);
    }
    let body = admins_body(flash, admins);
    let html = render_layout("Admins", PATH_ADMINS, principal, body.as_str(), css);
    html_response(html)
}

/// The admins page for a signed-in admin without the `admin` scope.
pub fn render_admin_forbidden(principal: &AdminPrincipal, css: &str) -> (r: Response)
    ensures
        r@ == html_response_spec(
            layout_spec("Admins"@, PATH_ADMINS@, principal@.name, FORBIDDEN_BODY@, css@),
        ),
{
    let html = render_layout("Admins", PATH_ADMINS, principal, FORBIDDEN_BODY, css);
    html_response(html)
}

/// The admins page when the wallet cannot be read: `message`, escaped.
pub fn render_admins_error(principal: &AdminPrincipal, message: &str, css: &str) -> (r: Response)
    ensures
        r@ == html_response_spec(
            layout_spec(
                "Admins"@,
                PATH_ADMINS@,
                principal@.name,
                "<h1>Admin management</h1>\n<p class=\"notice error\">"@ + html_escape_spec(message@)
                    + "</p>\n"@,
                css@,
            ),
        ),
{
    let mut body = to_owned_str("<h1>Admin management</h1>\n<p class=\"notice error\">");
    let m = html_escape(message);
    body.append(m.as_str());
    body.append("</p>\n");
    let html = render_layout("Admins", PATH_ADMINS, principal, body.as_str(), css);
    html_response(html)
}

// ---------------------------------------------------------------------------
// The form's action
// ---------------------------------------------------------------------------

/// What a post to the admin management page asks for.
#[derive(Debug, PartialEq, Eq, Structural, Clone, Copy)]
pub enum AdminsPost {
    Add,
    Remove,
    /// Neither: answered with [`UNKNOWN_ACTION`].
    Unknown,
}

/// The banner of a post that names no known action.
pub const UNKNOWN_ACTION: &'static str = "Unknown action.";

/// The action a post's `action` field names; a missing field names none.
pub open spec fn admins_post_spec(body: Seq<u8>) -> AdminsPost {
    match form_field_spec(body, "action"@) {
        Some(a) => if a == "add"@ {
            AdminsPost::Add
        } else if a == "remove"@ {
            AdminsPost::Remove
        } else {
            AdminsPost::Unknown
        },
        None => AdminsPost::Unknown,
    }
}

/// Read the action of a post to the admin management page.
pub fn admins_post_action(body: &[u8]) -> (r: AdminsPost)
    ensures
        r == admins_post_spec(body@),
{
    match extract_form_field(body, "action") {
        Some(a) => if crate::text::str_eq(a.as_str(), "add") {
            AdminsPost::Add
        } else if crate::text::str_eq(a.as_str(), "remove") {
            AdminsPost::Remove
        } else {
            AdminsPost::Unknown
        },
        None => AdminsPost::Unknown,
    }
}

} // verus!

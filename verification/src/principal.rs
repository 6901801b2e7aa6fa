//! The identity and authorisation carried with every authenticated dashboard
//! request, and the scope rules that gate each part of the dashboard.

use vstd::prelude::*;
use crate::text::str_eq;

verus! {

/// Grants every verb.
pub const SCOPE_WILDCARD: &'static str = "*";
/// The CLI scope that also gates admin enrolment on the dashboard.
pub const SCOPE_ADMIN: &'static str = "admin";
/// Read-only dashboard access.
pub const SCOPE_DASHBOARD_VIEW: &'static str = "dashboard.view";
/// Full dashboard access, including guard mutations and the fleet page.
pub const SCOPE_DASHBOARD_ADMIN: &'static str = "dashboard.admin";

/// Identity and authorisation carried with every authenticated dashboard
/// request. The scopes are a snapshot taken at login.
#[derive(Debug)]
pub struct AdminPrincipal {
    pub name: String,
    pub scopes: Vec<String>,
    pub expires_at: u64,
}

/// The mathematical value of a principal.
pub struct PrincipalView {
    pub name: Seq<char>,
    pub scopes: Seq<Seq<char>>,
    pub expires_at: u64,
}

/// The character sequences of a list of strings.
pub open spec fn strings_view(v: Seq<String>) -> Seq<Seq<char>> {
    Seq::new(v.len(), |i: int| v[i]@)
}

impl View for AdminPrincipal {
    type V = PrincipalView;

    open spec fn view(&self) -> PrincipalView {
        PrincipalView {
            name: self.name@,
            scopes: strings_view(self.scopes@),
            expires_at: self.expires_at,
        }
    }
}

/// A scope list grants `verb` when it holds the wildcard or the verb itself.
pub open spec fn grants(scopes: Seq<Seq<char>>, verb: Seq<char>) -> bool {
    exists|i: int| 0 <= i < scopes.len() && (scopes[i] == SCOPE_WILDCARD@ || scopes[i] == verb)
}

/// A scope list may see the dashboard.
pub open spec fn may_view_dashboard(scopes: Seq<Seq<char>>) -> bool {
    grants(scopes, SCOPE_DASHBOARD_VIEW@) || grants(scopes, SCOPE_DASHBOARD_ADMIN@)
}

/// A scope list may mutate through the dashboard.
pub open spec fn may_admin_dashboard(scopes: Seq<Seq<char>>) -> bool {
    grants(scopes, SCOPE_DASHBOARD_ADMIN@)
}

/// A scope list may enrol and remove admins from the dashboard.
pub open spec fn may_manage_admins(scopes: Seq<Seq<char>>) -> bool {
    grants(scopes, SCOPE_ADMIN@) && may_view_dashboard(scopes)
}

/// Whether the list of scopes grants `verb`.
pub fn scopes_grant(scopes: &Vec<String>, verb: &str) -> (r: bool)
    ensures
        r == grants(strings_view(scopes@), verb@),
{
    let ghost sv = strings_view(scopes@);
    let mut i: usize = 0;
    while i < scopes.len()
        invariant
            i <= scopes.len(),
            sv == strings_view(scopes@),
            forall|k: int| 0 <= k < i ==> !(sv[k] == SCOPE_WILDCARD@ || sv[k] == verb@),
        decreases scopes.len() - i,
    {
        let s = scopes[i].as_str();
        if str_eq(s, SCOPE_WILDCARD) || str_eq(s, verb) {
            assert(sv[i as int] == scopes@[i as int]@);
            return true;
        }
        i += 1;
    }
    false
}

impl AdminPrincipal {
    /// Whether this principal holds `verb`, directly or through the wildcard.
    pub fn has_scope(&self, verb: &str) -> (r: bool)
        ensures
            r == grants(self@.scopes, verb@),
    {
        scopes_grant(&self.scopes, verb)
    }

    /// Whether this principal may see the dashboard at all.
    pub fn can_view_dashboard(&self) -> (r: bool)
        ensures
            r == may_view_dashboard(self@.scopes),
    {
        self.has_scope(SCOPE_DASHBOARD_VIEW) || self.has_scope(SCOPE_DASHBOARD_ADMIN)
    }

    /// Gates dashboard mutations, such as the address-guard whitelist and
    /// blacklist actions.
    pub fn can_admin_dashboard(&self) -> (r: bool)
        ensures
            r == may_admin_dashboard(self@.scopes),
    {
        self.has_scope(SCOPE_DASHBOARD_ADMIN)
    }

    /// Requires the CLI `admin` scope on top of a dashboard scope, so granting
    /// dashboard login does not also grant the power to enrol more admins.
    pub fn can_manage_admins(&self) -> (r: bool)
        ensures
            r == may_manage_admins(self@.scopes),
    {
        self.has_scope(SCOPE_ADMIN) && self.can_view_dashboard()
    }

    /// A copy of this principal with the same name, scopes and expiry.
    pub fn duplicate(&self) -> (r: AdminPrincipal)
        ensures
            r@ == self@,
    {
        AdminPrincipal {
            name: self.name.clone(),
            scopes: clone_strings(&self.scopes),
            expires_at: self.expires_at,
        }
    }
}

/// A copy of a list of strings.
pub fn clone_strings(v: &Vec<String>) -> (r: Vec<String>)
    ensures
        strings_view(r@) == strings_view(v@),
{
    let mut out: Vec<String> = Vec::new();
    let mut i: usize = 0;
    while i < v.len()
        invariant
            i <= v.len(),
            out@.len() == i,
            forall|k: int| 0 <= k < i ==> out@[k]@ == v@[k]@,
        decreases v.len() - i,
    {
        out.push(v[i].clone());
        i += 1;
    }
    assert(strings_view(out@) =~= strings_view(v@));
    out
}

/// Whoever may administer the dashboard may also view it.
pub proof fn lemma_admin_dashboard_implies_view(scopes: Seq<Seq<char>>)
    ensures
        may_admin_dashboard(scopes) ==> may_view_dashboard(scopes),
{
}

/// Whoever may manage admins may also view the dashboard; the `admin` scope
/// alone never opens the dashboard.
pub proof fn lemma_manage_admins_implies_view(scopes: Seq<Seq<char>>)
    ensures
        may_manage_admins(scopes) ==> may_view_dashboard(scopes),
        may_manage_admins(scopes) ==> grants(scopes, SCOPE_ADMIN@),
{
}

/// A scope list holding the wildcard grants every verb, and so every part of
/// the dashboard.
pub proof fn lemma_wildcard_grants_everything(scopes: Seq<Seq<char>>, verb: Seq<char>)
    requires
        exists|i: int| 0 <= i < scopes.len() && scopes[i] == SCOPE_WILDCARD@,
    ensures
        grants(scopes, verb),
        may_view_dashboard(scopes),
        may_admin_dashboard(scopes),
        may_manage_admins(scopes),
{
}

} // verus!

//! The dashboard's two ways in -- a wallet passphrase, and a signed command
//! from a configured admin key -- decided from what the wallet and the
//! signature check report, with the audit entry each outcome is logged by.
//!
//! A dashboard login is the same act as an unseal: the passphrase that proves
//! who you are unwraps the master key. The wallet does that; this module
//! decides what the dashboard makes of it. The passphrase gates on scope as
//! well as on the wallet: an admin whose scopes gate only CLI verbs is
//! recognised by the wallet and refused by the dashboard.

use vstd::prelude::*;
use crate::alert::{join, join_spec, opt_view, record_failure_spec, AlertEvent, Alerter, EventView};
use crate::audit::{AuditEntry, EntryView, ADMIN_ANON, RESULT_ERR, RESULT_OK, VERB_DASHBOARD_LOGIN};
use crate::principal::{may_view_dashboard, strings_view, clone_strings, scopes_grant, AdminPrincipal, PrincipalView, SCOPE_DASHBOARD_ADMIN, SCOPE_DASHBOARD_VIEW};
use crate::seal::Unsealed;
use crate::session::DEFAULT_SESSION_TTL_SECS;
use crate::nonce::{live_spec, seen_spec, NonceTracker};
use crate::text::{to_owned_str};

verus! {

/// The sliding expiry a login starts with, saturating.
pub open spec fn expiry_after(now: u64, ttl: u64) -> u64 {
    if now + ttl > u64::MAX {
        u64::MAX
    } else {
        (now + ttl) as u64
    }
}

// ---------------------------------------------------------------------------
// Passphrase login
// ---------------------------------------------------------------------------

/// Distinct from a plain result so the handler can tell "wrong password"
/// from "correct password but no dashboard scope".
#[derive(Debug)]
pub enum LoginOutcome {
    SignedIn(AdminPrincipal),
    /// No admin entry unwrapped with the passphrase. The message stays
    /// generic so the response cannot leak whether any admin exists.
    BadCredentials,
    /// An entry unwrapped but holds neither dashboard scope. The name is for
    /// the audit log and is never echoed to the client.
    NoDashboardScope { name: String },
}

/// The alerter after a wrong passphrase from `peer` at `now`: the failure is
/// counted in its window, and the alert to raise is the one the window owes.
pub open spec fn failure_noted(
    before: Option<Alerter>,
    after: Option<Alerter>,
    raised: Option<EventView>,
    peer: Seq<char>,
    now: u64,
) -> bool {
    match before {
        None => after is None && raised is None,
        Some(a) => match after {
            None => false,
            Some(b) => {
                &&& b.config() == a.config()
                &&& b.host_view() == a.host_view()
                &&& b.book_mail() == a.book_mail()
                &&& b.book_sms() == a.book_sms()
                &&& (b.window(), raised) == record_failure_spec(
                    a.window(),
                    a.config().failed_threshold,
                    a.config().failed_window_secs,
                    a.config().failed_cooldown_secs,
                    peer,
                    now,
                )
            },
        },
    }
}

/// Decides a passphrase login from what the wallet unlock gave back.
///
/// `unsealed` is `None` when no admin entry unwrapped: the attempt is a
/// wrong passphrase, counted by the alerter (when there is one) since this
/// form unwraps the master key and a burst of guesses is worth hearing
/// about. The alert returned beside the outcome is the one to raise: the
/// coalesced burst, or -- only when this login is what lifted the seal --
/// the unseal itself. A login that unwraps an entry without a dashboard
/// scope is refused; one that has it gets a principal with a fresh
/// sliding expiry.
pub fn verify_passphrase(
    unsealed: Option<Unsealed>,
    peer: &str,
    now: u64,
    alerter: &mut Option<Alerter>,
) -> (r: (LoginOutcome, Option<AlertEvent>))
    ensures
        unsealed is None ==> r.0 is BadCredentials && failure_noted(
            *old(alerter),
            *final(alerter),
            opt_view(r.1),
            peer@,
            now,
        ),
        unsealed matches Some(u) ==> {
            &&& *final(alerter) == *old(alerter)
            &&& opt_view(r.1) == if u.lifted && (*old(alerter)) is Some {
                Some(EventView::Unsealed { admin: u.name@, peer: peer@ })
            } else {
                None::<EventView>
            }
            &&& may_view_dashboard(strings_view(u.scopes@)) ==> (r.0 matches LoginOutcome::SignedIn(p)
                && p@ == PrincipalView {
                name: u.name@,
                scopes: strings_view(u.scopes@),
                expires_at: expiry_after(now, DEFAULT_SESSION_TTL_SECS),
            })
            &&& !may_view_dashboard(strings_view(u.scopes@)) ==> (
            r.0 matches LoginOutcome::NoDashboardScope { name } && name@ == u.name@)
        },
{
    match unsealed {
        None => {
            let raised = match alerter {
                Some(a) => a.note_failed_unseal(peer, now),
                None => None,
            };
            (LoginOutcome::BadCredentials, raised)
        },
        Some(u) => {
            let raised = if u.lifted && alerter.is_some() {
                Some(AlertEvent::Unsealed { admin: u.name.clone(), peer: to_owned_str(peer) })
            } else {
                None
            };
            let viewer = scopes_grant(&u.scopes, SCOPE_DASHBOARD_VIEW) || scopes_grant(
                &u.scopes,
                SCOPE_DASHBOARD_ADMIN,
            );
            if !viewer {
                return (LoginOutcome::NoDashboardScope { name: u.name }, raised);
            }
            let p = AdminPrincipal {
                name: u.name,
                scopes: u.scopes,
                expires_at: now.saturating_add(DEFAULT_SESSION_TTL_SECS),
            };
            (LoginOutcome::SignedIn(p), raised)
        },
    }
}

/// Why a login form was answered with the form again, for the audit log.
pub enum LoginRefusal {
    /// The form carried no `passphrase` field.
    MissingField,
    /// The wallet could not be consulted at all.
    StructuralError,
}

/// The audit entry a passphrase login is recorded by. The actor is the
/// admin where one is known and `(anon)` otherwise; `peer_ip` is the
/// address the attempt came from.
pub open spec fn login_entry_spec(o: LoginOutcome, peer_ip: Seq<char>) -> EntryView {
    match o {
        LoginOutcome::SignedIn(p) => EntryView {
            admin: p@.name,
            verb: VERB_DASHBOARD_LOGIN@,
            result: RESULT_OK@,
            detail: "scopes="@ + join_spec(p@.scopes, ","@) + " src="@ + peer_ip,
        },
        LoginOutcome::BadCredentials => EntryView {
            admin: ADMIN_ANON@,
            verb: VERB_DASHBOARD_LOGIN@,
            result: RESULT_ERR@,
            detail: "reason=bad_credentials src="@ + peer_ip,
        },
        LoginOutcome::NoDashboardScope { name } => EntryView {
            admin: name@,
            verb: VERB_DASHBOARD_LOGIN@,
            result: RESULT_ERR@,
            detail: "reason=no_dashboard_scope src="@ + peer_ip,
        },
    }
}

/// The audit entry for a login outcome from `peer_ip`.
pub fn login_entry(o: &LoginOutcome, peer_ip: &str) -> (r: AuditEntry)
    ensures
        r@ == login_entry_spec(*o, peer_ip@),
{
    match o {
        LoginOutcome::SignedIn(p) => {
            let mut d = to_owned_str("scopes=");
            let j = join(&p.scopes, ",");
            d.append(j.as_str());
            d.append(" src=");
            d.append(peer_ip);
            AuditEntry {
                admin: p.name.clone(),
                verb: to_owned_str(VERB_DASHBOARD_LOGIN),
                result: to_owned_str(RESULT_OK),
                detail: d,
            }
        },
        LoginOutcome::BadCredentials => {
            let mut d = to_owned_str("reason=bad_credentials src=");
            d.append(peer_ip);
            AuditEntry {
                admin: to_owned_str(ADMIN_ANON),
                verb: to_owned_str(VERB_DASHBOARD_LOGIN),
                result: to_owned_str(RESULT_ERR),
                detail: d,
            }
        },
        LoginOutcome::NoDashboardScope { name } => {
            let mut d = to_owned_str("reason=no_dashboard_scope src=");
            d.append(peer_ip);
            AuditEntry {
                admin: name.clone(),
                verb: to_owned_str(VERB_DASHBOARD_LOGIN),
                result: to_owned_str(RESULT_ERR),
                detail: d,
            }
        },
    }
}

/// The audit entry for a login the form could not even attempt.
pub fn refusal_entry(why: &LoginRefusal) -> (r: AuditEntry)
    ensures
        r@.admin == ADMIN_ANON@,
        r@.verb == VERB_DASHBOARD_LOGIN@,
        r@.result == RESULT_ERR@,
        r@.detail == match why {
            LoginRefusal::MissingField => "reason=missing_passphrase_field"@,
            LoginRefusal::StructuralError => "reason=verify_structural_error"@,
        },
{
    let detail = match why {
        LoginRefusal::MissingField => "reason=missing_passphrase_field",
        LoginRefusal::StructuralError => "reason=verify_structural_error",
    };
    AuditEntry::new(ADMIN_ANON, VERB_DASHBOARD_LOGIN, RESULT_ERR, detail)
}

/// What the re-rendered login form tells the visitor: deliberately generic,
/// so the audit log is the only place the causes can be told apart.
pub fn login_error_message(o: &LoginOutcome) -> (r: Option<&'static str>)
    ensures
        o is SignedIn ==> r is None,
        o is BadCredentials ==> r == Some("Invalid credentials."),
        o is NoDashboardScope ==> r == Some(
            "Authenticated, but this admin is not authorised to use the dashboard. Ask an operator to grant 'dashboard.view' or 'dashboard.admin'.",
        ),
{
    match o {
        LoginOutcome::SignedIn(_) => None,
        LoginOutcome::BadCredentials => Some("Invalid credentials."),
        LoginOutcome::NoDashboardScope { .. } => Some(
            "Authenticated, but this admin is not authorised to use the dashboard. Ask an operator to grant 'dashboard.view' or 'dashboard.admin'.",
        ),
    }
}

/// What the re-rendered login form says when the attempt never reached the
/// wallet.
pub fn refusal_message(why: &LoginRefusal) -> (r: &'static str)
    ensures
        why is MissingField ==> r == "Login form did not include a passphrase.",
        why is StructuralError ==> r == "Internal error during login.",
{
    match why {
        LoginRefusal::MissingField => "Login form did not include a passphrase.",
        LoginRefusal::StructuralError => "Internal error during login.",
    }
}

// ---------------------------------------------------------------------------
// Signed login
// ---------------------------------------------------------------------------

/// Size of the window, in seconds, a signed command's timestamp must fall in.
pub const SIGNED_LOGIN_FRESHNESS_SECS: u64 = 120;
/// The command a signed login must carry.
pub const CMD_ADMIN_LOGIN: &'static str = "admin_login";
/// Lifetime of a session opened by a signed login; it does not slide.
pub const SIGNED_LOGIN_SESSION_SECS: u64 = 3600;

/// An admin key configured for a vhost: who it belongs to, its public key
/// bytes, and the scopes it grants.
pub struct AdminKey {
    pub name: String,
    pub public_key: Vec<u8>,
    pub scopes: Vec<String>,
}

/// How a signed login ended.
#[derive(Debug)]
pub enum SignedLoginOutcome {
    SignedIn(AdminPrincipal),
    /// The body did not parse as a signed command.
    MalformedBody { reason: String },
    /// The command is not `admin_login`.
    WrongCmd { got: String },
    /// The signer is not among this vhost's admin keys.
    UnknownSigner,
    /// A bad signature, or a timestamp outside the freshness window.
    BadSignature { reason: String },
    /// The nonce was already seen inside the replay window.
    ReplayedNonce,
    /// A valid signature from a key with no dashboard scope.
    NoDashboardScope { name: String },
}

/// The index of the first key whose public key is `signer_id`.
pub open spec fn first_key_for(keys: Seq<AdminKey>, signer_id: Seq<u8>) -> Option<int> {
    if exists|i: int| 0 <= i < keys.len() && keys[i].public_key@ == signer_id {
        Some(
            choose|i: int|
                0 <= i < keys.len() && keys[i].public_key@ == signer_id && forall|j: int|
                    0 <= j < i ==> keys[j].public_key@ != signer_id,
        )
    } else {
        None
    }
}

fn bytes_eq(a: &[u8], b: &[u8]) -> (r: bool)
    ensures
        r == (a@ == b@),
{
    if a.len() != b.len() {
        return false;
    }
    let mut i: usize = 0;
    while i < a.len()
        invariant
            i <= a.len(),
            a.len() == b.len(),
            forall|k: int| 0 <= k < i ==> a@[k] == b@[k],
        decreases a.len() - i,
    {
        if a[i] != b[i] {
            return false;
        }
        i += 1;
    }
    assert(a@ =~= b@);
    true
}

/// The admin key a signed command names: the envelope's `signer_id` is the
/// public key bytes, and the first matching entry wins.
pub fn match_admin_key(admin_keys: &Vec<AdminKey>, signer_id: &[u8]) -> (r: Option<usize>)
    ensures
        match r {
            Some(i) => i < admin_keys@.len() && first_key_for(admin_keys@, signer_id@) == Some(
                i as int,
            ),
            None => first_key_for(admin_keys@, signer_id@) is None,
        },
{
    let mut i: usize = 0;
    while i < admin_keys.len()
        invariant
            i <= admin_keys.len(),
            forall|j: int| 0 <= j < i ==> admin_keys@[j].public_key@ != signer_id@,
        decreases admin_keys.len() - i,
    {
        if bytes_eq(admin_keys[i].public_key.as_slice(), signer_id) {
            proof {
                let k = first_key_for(admin_keys@, signer_id@)->0;
                assert(admin_keys@[i as int].public_key@ == signer_id@);
                if k < i {
                }
                if k > i {
                }
            }
            return Some(i);
        }
        i += 1;
    }
    None
}

/// Whether the command a signed envelope carries is the signed login.
pub fn check_command(cmd: String) -> (r: Result<(), SignedLoginOutcome>)
    ensures
        cmd@ == CMD_ADMIN_LOGIN@ ==> r is Ok,
        cmd@ != CMD_ADMIN_LOGIN@ ==> (r matches Err(SignedLoginOutcome::WrongCmd { got }) && got@
            == cmd@),
{
    if crate::text::str_eq(cmd.as_str(), CMD_ADMIN_LOGIN) {
        Ok(())
    } else {
        Err(SignedLoginOutcome::WrongCmd { got: cmd })
    }
}

/// The last step of a signed login, once the signature is good and the nonce
/// fresh: a key with a dashboard scope is signed in until `now` plus the
/// signed-session lifetime; any other is refused.
pub fn admit_signed(key: &AdminKey, now: u64) -> (r: SignedLoginOutcome)
    ensures
        may_view_dashboard(strings_view(key.scopes@)) ==> (r matches SignedLoginOutcome::SignedIn(p)
            && p@ == PrincipalView {
            name: key.name@,
            scopes: strings_view(key.scopes@),
            expires_at: expiry_after(now, SIGNED_LOGIN_SESSION_SECS),
        }),
        !may_view_dashboard(strings_view(key.scopes@)) ==> (
        r matches SignedLoginOutcome::NoDashboardScope { name } && name@ == key.name@),
{
    let viewer = scopes_grant(&key.scopes, SCOPE_DASHBOARD_VIEW) || scopes_grant(
        &key.scopes,
        SCOPE_DASHBOARD_ADMIN,
    );
    if !viewer {
        return SignedLoginOutcome::NoDashboardScope { name: key.name.clone() };
    }
    SignedLoginOutcome::SignedIn(
        AdminPrincipal {
            name: key.name.clone(),
            scopes: clone_strings(&key.scopes),
            expires_at: now.saturating_add(SIGNED_LOGIN_SESSION_SECS),
        },
    )
}

/// The audit entry a signed login is recorded by, in the passphrase flow's
/// line format with a short reason tag.
pub open spec fn signed_entry_spec(o: SignedLoginOutcome) -> EntryView {
    match o {
        SignedLoginOutcome::SignedIn(p) => EntryView {
            admin: p@.name,
            verb: VERB_DASHBOARD_LOGIN@,
            result: RESULT_OK@,
            detail: "signed; scopes="@ + join_spec(p@.scopes, ","@),
        },
        SignedLoginOutcome::MalformedBody { reason } => EntryView {
            admin: ADMIN_ANON@,
            verb: VERB_DASHBOARD_LOGIN@,
            result: RESULT_ERR@,
            detail: "signed; reason=malformed_body: "@ + reason@,
        },
        SignedLoginOutcome::WrongCmd { got } => EntryView {
            admin: ADMIN_ANON@,
            verb: VERB_DASHBOARD_LOGIN@,
            result: RESULT_ERR@,
            detail: "signed; reason=wrong_cmd: got="@ + got@,
        },
        SignedLoginOutcome::UnknownSigner => EntryView {
            admin: ADMIN_ANON@,
            verb: VERB_DASHBOARD_LOGIN@,
            result: RESULT_ERR@,
            detail: "signed; reason=unknown_signer"@,
        },
        SignedLoginOutcome::BadSignature { reason } => EntryView {
            admin: ADMIN_ANON@,
            verb: VERB_DASHBOARD_LOGIN@,
            result: RESULT_ERR@,
            detail: "signed; reason=bad_signature: "@ + reason@,
        },
        SignedLoginOutcome::ReplayedNonce => EntryView {
            admin: ADMIN_ANON@,
            verb: VERB_DASHBOARD_LOGIN@,
            result: RESULT_ERR@,
            detail: "signed; reason=replayed_nonce"@,
        },
        SignedLoginOutcome::NoDashboardScope { name } => EntryView {
            admin: name@,
            verb: VERB_DASHBOARD_LOGIN@,
            result: RESULT_ERR@,
            detail: "signed; reason=no_dashboard_scope"@,
        },
    }
}

fn joined(head: &str, tail: &str) -> (r: String)
    ensures
        r@ == head@ + tail@,
{
    let mut s = to_owned_str(head);
    s.append(tail);
    s
}

/// The audit entry for a signed-login outcome.
pub fn audit_signed_login(o: &SignedLoginOutcome) -> (r: AuditEntry)
    ensures
        r@ == signed_entry_spec(*o),
{
    match o {
        SignedLoginOutcome::SignedIn(p) => {
            let j = join(&p.scopes, ",");
            AuditEntry {
                admin: p.name.clone(),
                verb: to_owned_str(VERB_DASHBOARD_LOGIN),
                result: to_owned_str(RESULT_OK),
                detail: joined("signed; scopes=", j.as_str()),
            }
        },
        SignedLoginOutcome::MalformedBody { reason } => AuditEntry {
            admin: to_owned_str(ADMIN_ANON),
            verb: to_owned_str(VERB_DASHBOARD_LOGIN),
            result: to_owned_str(RESULT_ERR),
            detail: joined("signed; reason=malformed_body: ", reason.as_str()),
        },
        SignedLoginOutcome::WrongCmd { got } => AuditEntry {
            admin: to_owned_str(ADMIN_ANON),
            verb: to_owned_str(VERB_DASHBOARD_LOGIN),
            result: to_owned_str(RESULT_ERR),
            detail: joined("signed; reason=wrong_cmd: got=", got.as_str()),
        },
        SignedLoginOutcome::UnknownSigner => AuditEntry::new(
            ADMIN_ANON,
            VERB_DASHBOARD_LOGIN,
            RESULT_ERR,
            "signed; reason=unknown_signer",
        ),
        SignedLoginOutcome::BadSignature { reason } => AuditEntry {
            admin: to_owned_str(ADMIN_ANON),
            verb: to_owned_str(VERB_DASHBOARD_LOGIN),
            result: to_owned_str(RESULT_ERR),
            detail: joined("signed; reason=bad_signature: ", reason.as_str()),
        },
        SignedLoginOutcome::ReplayedNonce => AuditEntry::new(
            ADMIN_ANON,
            VERB_DASHBOARD_LOGIN,
            RESULT_ERR,
            "signed; reason=replayed_nonce",
        ),
        SignedLoginOutcome::NoDashboardScope { name } => AuditEntry {
            admin: name.clone(),
            verb: to_owned_str(VERB_DASHBOARD_LOGIN),
            result: to_owned_str(RESULT_ERR),
            detail: to_owned_str("signed; reason=no_dashboard_scope"),
        },
    }
}

// ---------------------------------------------------------------------------
// Verifying a signed login
// ---------------------------------------------------------------------------

/// The fields of a signed command that the login reads, as the envelope
/// decoder gives them.
pub struct SignedCommand {
    pub cmd: String,
    /// The signer's public key bytes.
    pub signer_id: Vec<u8>,
    /// The client's nonce, unique per command.
    pub nonce: Vec<u8>,
}

/// The checks a signed login makes before the signature: the envelope
/// decoded (`Err` holds why not), it carries the login command, and its
/// signer is a configured admin key. `Ok` is the index of that key.
pub open spec fn signed_prelude_spec(keys: Seq<AdminKey>, envelope: Result<SignedCommand, String>) -> Result<
    int,
    SignedLoginOutcome,
> {
    match envelope {
        Err(reason) => Err(SignedLoginOutcome::MalformedBody { reason }),
        Ok(c) => if c.cmd@ != CMD_ADMIN_LOGIN@ {
            Err(SignedLoginOutcome::WrongCmd { got: c.cmd })
        } else {
            match first_key_for(keys, c.signer_id@) {
                None => Err(SignedLoginOutcome::UnknownSigner),
                Some(i) => Ok(i),
            }
        },
    }
}

/// What admitting `key` at `now` answers: signed in with the key's name
/// and scopes for the signed-session lifetime when it may view the
/// dashboard, refused by name otherwise.
pub open spec fn admits(key: AdminKey, now: u64, r: SignedLoginOutcome) -> bool {
    &&& may_view_dashboard(strings_view(key.scopes@)) ==> (r matches SignedLoginOutcome::SignedIn(p)
        && p@ == PrincipalView {
        name: key.name@,
        scopes: strings_view(key.scopes@),
        expires_at: expiry_after(now, SIGNED_LOGIN_SESSION_SECS),
    })
    &&& !may_view_dashboard(strings_view(key.scopes@)) ==> (
    r matches SignedLoginOutcome::NoDashboardScope { name } && name@ == key.name@)
}

/// What follows the signature check of a signed login from `key` with
/// command `c`, given the check's verdict `v` and the replay store before
/// (`before`) and after (`after`): a bad signature is refused with its
/// reason; a nonce seen within the window is a replay; otherwise the nonce
/// is recorded and the key is admitted. Refusals leave the store as it was.
pub open spec fn signed_finish_spec(
    key: AdminKey,
    c: SignedCommand,
    v: Result<(), String>,
    before: Seq<crate::nonce::SeenPair>,
    window: u64,
    now: u64,
    after: Seq<crate::nonce::SeenPair>,
    r: SignedLoginOutcome,
) -> bool {
    match v {
        Err(e) => r == SignedLoginOutcome::BadSignature { reason: e } && after == before,
        Ok(()) => if seen_spec(before, c.signer_id@, c.nonce@, now, window) {
            r == SignedLoginOutcome::ReplayedNonce && after == before
        } else {
            after == live_spec(before, now, window).push((c.signer_id@, c.nonce@, now)) && admits(
                key,
                now,
                r,
            )
        },
    }
}

/// `verify_fresh`, asked about `key`'s public key, gave a verdict after
/// which the login went as [`signed_finish_spec`] says.
pub open spec fn checked_then<F: Fn(&Vec<u8>) -> Result<(), String>>(
    verify_fresh: F,
    key: AdminKey,
    c: SignedCommand,
    before: Seq<crate::nonce::SeenPair>,
    window: u64,
    now: u64,
    after: Seq<crate::nonce::SeenPair>,
    r: SignedLoginOutcome,
) -> bool {
    exists|v: Result<(), String>|
        #[trigger] verify_fresh.ensures((&key.public_key,), v) && signed_finish_spec(
            key,
            c,
            v,
            before,
            window,
            now,
            after,
            r,
        )
}

/// Verify a signed login at `now`, in the order the checks are made: the
/// envelope, the command, the signer, then the signature and freshness as
/// `verify_fresh` judges them against the signer's public key, then the
/// nonce, then the dashboard scope. A refused login leaves `seen` as it
/// was; so does a nonce seen within the window, which is answered as a
/// replay. Only a login whose signature holds records its nonce.
pub fn verify_signed_login<F: Fn(&Vec<u8>) -> Result<(), String>>(
    keys: &Vec<AdminKey>,
    seen: &mut NonceTracker,
    envelope: Result<SignedCommand, String>,
    verify_fresh: F,
    now: u64,
) -> (r: SignedLoginOutcome)
    requires
        old(seen).wf(),
        forall|pk: &Vec<u8>| verify_fresh.requires((pk,)),
    ensures
        final(seen).wf(),
        final(seen).window_view() == old(seen).window_view(),
        signed_prelude_spec(keys@, envelope) matches Err(o) ==> r == o && final(seen).pairs() == old(
            seen).pairs(),
        signed_prelude_spec(keys@, envelope) matches Ok(i) ==> checked_then(
            verify_fresh,
            keys@[i],
            envelope->Ok_0,
            old(seen).pairs(),
            old(seen).window_view(),
            now,
            final(seen).pairs(),
            r,
        ),
{
    let c = match envelope {
        Err(reason) => return SignedLoginOutcome::MalformedBody { reason },
        Ok(c) => c,
    };
    if !crate::text::str_eq(c.cmd.as_str(), CMD_ADMIN_LOGIN) {
        return SignedLoginOutcome::WrongCmd { got: c.cmd };
    }
    let i = match match_admin_key(keys, c.signer_id.as_slice()) {
        None => return SignedLoginOutcome::UnknownSigner,
        Some(i) => i,
    };
    let v = verify_fresh(&keys[i].public_key);
    let ghost w = old(seen).window_view();
    let ghost before = old(seen).pairs();
    let r = match &v {
        Err(e) => SignedLoginOutcome::BadSignature { reason: e.clone() },
        Ok(()) => {
            let rec = seen.record(c.signer_id.as_slice(), c.nonce.as_slice(), now);
            match rec {
                Err(()) => SignedLoginOutcome::ReplayedNonce,
                Ok(()) => admit_signed(&keys[i], now),
            }
        },
    };
    assert(checked_then(verify_fresh, keys@[i as int], c, before, w, now, seen.pairs(), r)) by {
        assert(signed_finish_spec(keys@[i as int], c, v, before, w, now, seen.pairs(), r));
    }
    r
}

} // verus!

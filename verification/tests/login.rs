use fe2o3_steel::alert::{AlertConfig, AlertEvent, Alerter};
use fe2o3_steel::audit::AuditEntry;
use fe2o3_steel::login::{
    admit_signed, audit_signed_login, check_command, login_entry, login_error_message,
    match_admin_key, refusal_entry, refusal_message, verify_passphrase, AdminKey, LoginOutcome,
    LoginRefusal, SignedLoginOutcome, SIGNED_LOGIN_SESSION_SECS,
};
use fe2o3_steel::seal::{Seal, SealError, Unlocked, Unsealed};
use fe2o3_steel::session::DEFAULT_SESSION_TTL_SECS;

fn alerter() -> Alerter {
    let mut cfg = AlertConfig::disabled();
    cfg.enabled = true;
    cfg.from = "steel@example.com".to_string();
    cfg.to = vec!["op@example.com".to_string()];
    cfg.failed_threshold = 2;
    match Alerter::new(cfg, "karri".to_string(), 0) {
        Ok(Some(a)) => a,
        _ => panic!("alerter"),
    }
}

fn unsealed(scopes: &[&str], lifted: bool) -> Unsealed {
    Unsealed { name: "alice".to_string(), scopes: scopes.iter().map(|s| s.to_string()).collect(), lifted }
}

#[test]
fn a_wrong_passphrase_is_counted_and_refused() {
    let mut a = Some(alerter());
    let (o, ev) = verify_passphrase(None, "203.0.113.7:1", 10, &mut a);
    assert!(matches!(o, LoginOutcome::BadCredentials));
    assert!(ev.is_none());
    let (_, ev) = verify_passphrase(None, "203.0.113.7:1", 11, &mut a);
    assert!(matches!(ev, Some(AlertEvent::FailedUnseals { count: 2, .. })));
    let mut none: Option<Alerter> = None;
    let (o, ev) = verify_passphrase(None, "x", 0, &mut none);
    assert!(matches!(o, LoginOutcome::BadCredentials) && ev.is_none());
}

#[test]
fn a_viewer_signs_in_and_the_first_unseal_is_raised() {
    let mut a = Some(alerter());
    let (o, ev) = verify_passphrase(Some(unsealed(&["dashboard.view"], true)), "p", 100, &mut a);
    match o {
        LoginOutcome::SignedIn(p) => {
            assert_eq!(p.name, "alice");
            assert_eq!(p.expires_at, 100 + DEFAULT_SESSION_TTL_SECS);
        },
        _ => panic!("refused"),
    }
    assert!(matches!(ev, Some(AlertEvent::Unsealed { .. })));
    let (_, ev) = verify_passphrase(Some(unsealed(&["dashboard.view"], false)), "p", 100, &mut a);
    assert!(ev.is_none(), "a routine login raises nothing");
}

#[test]
fn an_admin_without_a_dashboard_scope_is_refused() {
    let mut a: Option<Alerter> = None;
    let (o, _) = verify_passphrase(Some(unsealed(&["admin"], false)), "p", 100, &mut a);
    match &o {
        LoginOutcome::NoDashboardScope { name } => assert_eq!(name, "alice"),
        _ => panic!("admitted"),
    }
    assert_eq!(
        login_error_message(&o),
        Some("Authenticated, but this admin is not authorised to use the dashboard. Ask an operator to grant 'dashboard.view' or 'dashboard.admin'.")
    );
    let e: AuditEntry = login_entry(&o, "203.0.113.7");
    assert_eq!(e.line(5), "5 alice dashboard.login err reason=no_dashboard_scope src=203.0.113.7\n");
}

#[test]
fn login_audit_lines_read_as_documented() {
    let mut a: Option<Alerter> = None;
    let (o, _) = verify_passphrase(Some(unsealed(&["dashboard.view", "admin"], false)), "p", 1, &mut a);
    assert_eq!(login_entry(&o, "10.0.0.1").line(7), "7 alice dashboard.login ok scopes=dashboard.view,admin src=10.0.0.1\n");
    assert_eq!(login_entry(&LoginOutcome::BadCredentials, "10.0.0.1").line(7), "7 (anon) dashboard.login err reason=bad_credentials src=10.0.0.1\n");
    assert_eq!(login_error_message(&LoginOutcome::BadCredentials), Some("Invalid credentials."));
    assert_eq!(refusal_entry(&LoginRefusal::MissingField).detail, "reason=missing_passphrase_field");
    assert_eq!(refusal_message(&LoginRefusal::StructuralError), "Internal error during login.");
}

fn key(name: &str, pk: &[u8], scopes: &[&str]) -> AdminKey {
    AdminKey { name: name.to_string(), public_key: pk.to_vec(), scopes: scopes.iter().map(|s| s.to_string()).collect() }
}

#[test]
fn a_signed_login_finds_its_key_and_checks_scope() {
    let keys = vec![key("ops", &[1, 2, 3], &["dashboard.admin"]), key("ci", &[4, 5], &["deploy"]), key("ops2", &[1, 2, 3], &["*"])];
    assert_eq!(match_admin_key(&keys, &[1, 2, 3]), Some(0));
    assert_eq!(match_admin_key(&keys, &[4, 5]), Some(1));
    assert_eq!(match_admin_key(&keys, &[9]), None);
    assert!(check_command("admin_login".to_string()).is_ok());
    match check_command("reboot".to_string()) {
        Err(SignedLoginOutcome::WrongCmd { got }) => assert_eq!(got, "reboot"),
        _ => panic!("wrong command accepted"),
    }
    match admit_signed(&keys[0], 50) {
        SignedLoginOutcome::SignedIn(p) => assert_eq!(p.expires_at, 50 + SIGNED_LOGIN_SESSION_SECS),
        _ => panic!("refused"),
    }
    assert!(matches!(admit_signed(&keys[1], 50), SignedLoginOutcome::NoDashboardScope { .. }));
}

#[test]
fn signed_login_audit_lines_carry_the_reason() {
    let e = audit_signed_login(&SignedLoginOutcome::ReplayedNonce);
    assert_eq!(e.line(1), "1 (anon) dashboard.login err signed; reason=replayed_nonce\n");
    let e = audit_signed_login(&SignedLoginOutcome::BadSignature { reason: "stale".to_string() });
    assert_eq!(e.detail, "signed; reason=bad_signature: stale");
    let p = match admit_signed(&key("ops", &[1], &["dashboard.view", "admin"]), 0) {
        SignedLoginOutcome::SignedIn(p) => p,
        _ => panic!("refused"),
    };
    let e = audit_signed_login(&SignedLoginOutcome::SignedIn(p));
    assert_eq!(e.line(2), "2 ops dashboard.login ok signed; scopes=dashboard.view,admin\n");
}

#[test]
fn the_first_unseal_lifts_the_seal_and_later_ones_keep_the_key() {
    let mut seal = Seal::new(None, 2);
    assert!(seal.is_sealed() && seal.seal_withholds_data());
    assert_eq!(seal.master_key(), Err(SealError::Sealed));
    assert_eq!(seal.sealed_dbs(), 2);
    let u = seal.unseal(Unlocked { name: "alice".to_string(), scopes: vec![], master_key: vec![1, 2] });
    assert!(u.lifted);
    let u = seal.unseal(Unlocked { name: "bob".to_string(), scopes: vec![], master_key: vec![9] });
    assert!(!u.lifted);
    assert_eq!(u.name, "bob");
    assert_eq!(seal.master_key(), Ok(vec![1, 2]));
    assert!(!seal.is_sealed());
    assert_eq!(seal.sealed_dbs(), 0);
    let no_dbs = Seal::new(None, 0);
    assert!(no_dbs.is_sealed() && !no_dbs.seal_withholds_data());
}

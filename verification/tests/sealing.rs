use fe2o3_steel::login::{verify_signed_login, AdminKey, SignedCommand, SignedLoginOutcome};
use fe2o3_steel::nonce::NonceTracker;
use fe2o3_steel::principal::AdminPrincipal;
use fe2o3_steel::clock::now_secs;
use fe2o3_steel::session::{decode_session, encode_session, SessionError, DEFAULT_SESSION_TTL_SECS};
use fe2o3_steel::wallet::{
    current_slot, migrate_stop, migrated_admin_name, open_secret, replace_confirmed, seal_secret,
    secret_not_found, stop_message, MigrateStop, RingError, SecretError,
};

/// A stand-in cipher for the tests: hex text of the bytes followed by a
/// one-byte tag (the key plus the bytes' sum), opened only under the same key
/// and only when the tag still matches.
fn toy_tag(key: u8, plain: &[u8]) -> u8 {
    plain.iter().fold(key, |acc, b| acc.wrapping_add(*b))
}

fn toy_seal(key: u8) -> impl Fn(&[u8]) -> Result<String, String> {
    move |plain: &[u8]| {
        let mut out: String = plain.iter().map(|b| format!("{:02x}", b)).collect();
        out.push_str(&format!("{:02x}", toy_tag(key, plain)));
        Ok(out)
    }
}

fn toy_open(key: u8) -> impl Fn(&str) -> Option<Vec<u8>> {
    move |blob: &str| {
        if blob.len() % 2 != 0 || blob.len() < 2 || !blob.is_ascii() {
            return None;
        }
        let bytes: Option<Vec<u8>> = (0..blob.len() / 2)
            .map(|i| u8::from_str_radix(&blob[2 * i..2 * i + 2], 16).ok())
            .collect();
        let mut bytes = bytes?;
        let tag = bytes.pop()?;
        if tag == toy_tag(key, &bytes) { Some(bytes) } else { None }
    }
}

fn principal(expires_at: u64) -> AdminPrincipal {
    AdminPrincipal { name: "ops".to_string(), scopes: vec!["dashboard.view".to_string()], expires_at }
}

fn mkprincipal() -> AdminPrincipal {
    AdminPrincipal {
        name: "alice".to_string(),
        scopes: vec!["dashboard.view".to_string(), "dashboard.admin".to_string()],
        expires_at: now_secs() + DEFAULT_SESSION_TTL_SECS,
    }
}

#[test]
fn round_trip() {
    let p = mkprincipal();
    let cookie = encode_session(toy_seal(7), &p).expect("encode");
    assert!(cookie.starts_with("v1."));
    let p2 = decode_session(toy_open(7), &cookie, now_secs()).expect("decode");
    assert_eq!(p2.name, p.name);
    assert_eq!(p2.scopes, p.scopes);
    assert_eq!(p2.expires_at, p.expires_at);
}

#[test]
fn rejects_tampered_cookie() {
    let p = mkprincipal();
    let cookie = encode_session(toy_seal(7), &p).expect("encode");
    let mut bytes: Vec<u8> = cookie.into_bytes();
    let tamper_idx = bytes.len() - 5;
    bytes[tamper_idx] ^= 0x01;
    let tampered = String::from_utf8(bytes).expect("utf8");
    assert!(decode_session(toy_open(7), &tampered, now_secs()).is_err());
}

#[test]
fn rejects_expired_cookie() {
    let mut p = mkprincipal();
    p.expires_at = 1;
    let cookie = encode_session(toy_seal(7), &p).expect("encode");
    assert!(decode_session(toy_open(7), &cookie, now_secs()).is_err());
}

#[test]
fn rejects_version_mismatch() {
    let p = mkprincipal();
    let cookie = encode_session(toy_seal(7), &p).expect("encode");
    let swapped = cookie.replacen("v1.", "v2.", 1);
    assert!(decode_session(toy_open(7), &swapped, now_secs()).is_err());
}

#[test]
fn a_sealed_session_opens_back_to_its_principal() {
    let cookie = encode_session(toy_seal(7), &principal(2_000)).expect("sealed");
    assert!(cookie.starts_with("v1."));
    let p = decode_session(toy_open(7), &cookie, 1_000).expect("opened");
    assert_eq!(p.name, "ops");
    assert_eq!(p.scopes, vec!["dashboard.view".to_string()]);
    assert_eq!(p.expires_at, 2_000);
}

#[test]
fn a_session_refuses_another_key_a_tamper_an_expiry_and_a_version() {
    let cookie = encode_session(toy_seal(7), &principal(2_000)).expect("sealed");
    assert_eq!(decode_session(toy_open(8), &cookie, 1_000).err(), Some(SessionError::Unopened));
    let mut tampered = cookie.clone().into_bytes();
    let last = tampered.len() - 1;
    tampered[last] = if tampered[last] == b'0' { b'1' } else { b'0' };
    let tampered = String::from_utf8(tampered).unwrap();
    assert_eq!(decode_session(toy_open(7), &tampered, 1_000).err(), Some(SessionError::Unopened));
    assert_eq!(
        decode_session(toy_open(7), &cookie, 2_000).err(),
        Some(SessionError::Expired { expires_at: 2_000, now: 2_000 })
    );
    let swapped = cookie.replacen("v1.", "v2.", 1);
    assert_eq!(decode_session(toy_open(7), &swapped, 1_000).err(), Some(SessionError::WrongVersion));
    let mut long = principal(2_000);
    long.name = "x".repeat(65);
    assert_eq!(encode_session(toy_seal(7), &long).err(), Some(SessionError::NameTooLong { len: 65 }));
}

fn keys() -> Vec<AdminKey> {
    vec![AdminKey { name: "ops".to_string(), public_key: vec![1, 2, 3], scopes: vec!["dashboard.admin".to_string()] }]
}

fn command(cmd: &str, signer: &[u8], nonce: &[u8]) -> Result<SignedCommand, String> {
    Ok(SignedCommand { cmd: cmd.to_string(), signer_id: signer.to_vec(), nonce: nonce.to_vec() })
}

#[test]
fn test_a_replayed_signed_login_is_refused_00() {
    let mut seen = NonceTracker::new(120);
    let ok = |_: &Vec<u8>| -> Result<(), String> { Ok(()) };
    match verify_signed_login(&keys(), &mut seen, command("admin_login", &[1, 2, 3], b"n1"), ok, 1_000) {
        SignedLoginOutcome::SignedIn(p) => {
            assert_eq!(p.name, "ops");
            assert_eq!(p.expires_at, 1_000 + 3_600);
        }
        other => panic!("first login refused: {:?}", other),
    }
    assert!(matches!(
        verify_signed_login(&keys(), &mut seen, command("admin_login", &[1, 2, 3], b"n1"), ok, 1_050),
        SignedLoginOutcome::ReplayedNonce
    ));
    // Past the window the nonce counts no more.
    assert!(matches!(
        verify_signed_login(&keys(), &mut seen, command("admin_login", &[1, 2, 3], b"n1"), ok, 1_120),
        SignedLoginOutcome::SignedIn(_)
    ));
}

#[test]
fn signed_logins_are_checked_in_order() {
    let mut seen = NonceTracker::new(120);
    let ok = |_: &Vec<u8>| -> Result<(), String> { Ok(()) };
    let bad = |_: &Vec<u8>| -> Result<(), String> { Err("stale".to_string()) };
    assert!(matches!(
        verify_signed_login(&keys(), &mut seen, Err("JDAT decode failed: x".to_string()), ok, 1),
        SignedLoginOutcome::MalformedBody { reason } if reason == "JDAT decode failed: x"
    ));
    assert!(matches!(
        verify_signed_login(&keys(), &mut seen, command("reboot", &[1, 2, 3], b"n"), ok, 1),
        SignedLoginOutcome::WrongCmd { got } if got == "reboot"
    ));
    assert!(matches!(
        verify_signed_login(&keys(), &mut seen, command("admin_login", &[9], b"n"), ok, 1),
        SignedLoginOutcome::UnknownSigner
    ));
    assert!(matches!(
        verify_signed_login(&keys(), &mut seen, command("admin_login", &[1, 2, 3], b"n"), bad, 1),
        SignedLoginOutcome::BadSignature { reason } if reason == "stale"
    ));
    // A refused signature records nothing, so the same nonce still signs in.
    assert!(matches!(
        verify_signed_login(&keys(), &mut seen, command("admin_login", &[1, 2, 3], b"n"), ok, 2),
        SignedLoginOutcome::SignedIn(_)
    ));
    let viewer_less = vec![AdminKey { name: "bot".to_string(), public_key: vec![4], scopes: vec!["admin".to_string()] }];
    assert!(matches!(
        verify_signed_login(&viewer_less, &mut seen, command("admin_login", &[4], b"m"), ok, 3),
        SignedLoginOutcome::NoDashboardScope { name } if name == "bot"
    ));
}

#[test]
fn the_nonce_store_keeps_pairs_for_the_window() {
    let mut t = NonceTracker::new(10);
    assert_eq!(t.record(b"a", b"1", 100), Ok(()));
    assert_eq!(t.record(b"a", b"1", 109), Err(()));
    assert_eq!(t.record(b"b", b"1", 109), Ok(()));
    assert_eq!(t.record(b"a", b"1", 110), Ok(()));
}

#[test]
fn wallet_secrets_seal_and_open() {
    let blob = seal_secret(toy_seal(3), "hunter2").expect("sealed");
    assert_eq!(open_secret(toy_open(3), &blob), Ok("hunter2".to_string()));
    assert_eq!(open_secret(toy_open(4), &blob), Err(SecretError::Unopened));
    let not_text = toy_seal(3)(&[0xff, 0xfe]).unwrap();
    assert_eq!(open_secret(toy_open(3), &not_text), Err(SecretError::NotUtf8));
    assert!(replace_confirmed("Y"));
    assert!(replace_confirmed("y"));
    assert!(!replace_confirmed("yes"));
    assert_eq!(secret_not_found("db"), "Secret 'db' not found in wallet.");
}

#[test]
fn a_legacy_migration_stops_at_the_first_failed_check() {
    assert_eq!(migrate_stop(false, true, false, None), Some(MigrateStop::NoWallet));
    assert_eq!(migrate_stop(true, false, false, None), Some(MigrateStop::NotAMap));
    assert_eq!(migrate_stop(true, true, true, Some(false)), Some(MigrateStop::AlreadyMigrated));
    assert_eq!(migrate_stop(true, true, false, Some(false)), Some(MigrateStop::PassphraseRejected));
    assert_eq!(migrate_stop(true, true, false, Some(true)), None);
    assert_eq!(stop_message(MigrateStop::NotAMap, "\"./wallet.jdat\"", "Str"),
        "Legacy wallet file at \"./wallet.jdat\" is not a map (kind=Str).");
    assert_eq!(stop_message(MigrateStop::PassphraseRejected, "", ""), "Passphrase rejected -- nothing migrated.");
    assert_eq!(migrated_admin_name("  \n"), "operator");
    assert_eq!(migrated_admin_name(" alice \n"), "alice");
    assert_eq!(current_slot(vec![Some(1), None, Some(3)], 2), Ok(3));
    assert_eq!(current_slot(vec![Some(1), None], 1), Err(RingError::EmptySlot));
    assert_eq!(current_slot(vec![Some(1)], 5), Err(RingError::OutOfRange { index: 5 }));
}

#[test]
fn the_shell_syntax_defines_each_command_once() {
    let syntax = fe2o3_steel::shell::shell_syntax();
    let names: Vec<&str> = syntax.iter().map(|c| c.name).collect();
    assert_eq!(names, vec!["exit", "shell", "server", "cert", "acme", "secrets", "wallet", "admin", "mailpass", "vars"]);
    let admin = syntax.iter().find(|c| c.name == "admin").unwrap();
    let expires = admin.args.iter().find(|a| a.name == "expires-in").unwrap();
    assert_eq!(expires.short, "e");
    assert_eq!(expires.long, Some("expires-in"));
    assert_eq!(expires.values, vec![(fe2o3_steel::shell::ValueKind::U64, "Seconds until expiry")]);
    let mailpass = syntax.iter().find(|c| c.name == "mailpass").unwrap();
    assert!(mailpass.args.iter().all(|a| a.required));
}

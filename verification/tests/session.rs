use fe2o3_steel::principal::AdminPrincipal;
use fe2o3_steel::session::{
    check_expiry, cookie_blob, decode_record, encode_record, format_cookie, open_record,
    refresh_principal_at, SessionError, DEFAULT_SESSION_TTL_SECS,
};

fn mkprincipal(expires_at: u64) -> AdminPrincipal {
    AdminPrincipal {
        name: "alice".to_string(),
        scopes: vec!["dashboard.view".to_string(), "dashboard.admin".to_string()],
        expires_at,
    }
}

#[test]
fn a_record_reads_back_as_written() {
    let p = mkprincipal(1_700_000_000);
    let bytes = encode_record(&p).expect("encode");
    let q = decode_record(&bytes).expect("decode");
    assert_eq!(q.name, p.name);
    assert_eq!(q.scopes, p.scopes);
    assert_eq!(q.expires_at, p.expires_at);
}

#[test]
fn the_record_layout_is_length_prefixed() {
    let p = AdminPrincipal { name: "ab".to_string(), scopes: vec!["x".to_string()], expires_at: 258 };
    let bytes = encode_record(&p).expect("encode");
    assert_eq!(bytes, vec![0, 2, b'a', b'b', 1, 0, 1, b'x', 0, 0, 0, 0, 0, 0, 1, 2]);
}

#[test]
fn overlong_fields_are_refused() {
    let mut p = mkprincipal(1);
    p.name = "n".repeat(65);
    assert_eq!(encode_record(&p).err(), Some(SessionError::NameTooLong { len: 65 }));
    let mut p = mkprincipal(1);
    p.scopes = vec!["s".repeat(65)];
    assert_eq!(encode_record(&p).err(), Some(SessionError::ScopeTooLong { len: 65 }));
    let mut p = mkprincipal(1);
    p.scopes = (0..33).map(|i| format!("s{}", i)).collect();
    assert_eq!(encode_record(&p).err(), Some(SessionError::TooManyScopes { count: 33 }));
}

#[test]
fn damaged_records_are_refused() {
    let bytes = encode_record(&mkprincipal(5)).expect("encode");
    assert!(matches!(decode_record(&bytes[..bytes.len() - 1]), Err(SessionError::Truncated { .. })));
    let mut longer = bytes.clone();
    longer.push(0);
    assert_eq!(decode_record(&longer).err(), Some(SessionError::TrailingBytes { count: 1 }));
    assert_eq!(decode_record(&[]).err(), Some(SessionError::Truncated { at: 0 }));
    assert_eq!(decode_record(&[0, 1, 0xff, 0]).err(), Some(SessionError::NotUtf8));
}

#[test]
fn the_cookie_carries_its_version() {
    let cookie = format_cookie("abc.def");
    assert!(cookie.starts_with("v1."));
    assert_eq!(cookie_blob(&cookie).expect("blob"), "abc.def");
    let swapped = cookie.replacen("v1.", "v2.", 1);
    assert_eq!(cookie_blob(&swapped).err(), Some(SessionError::WrongVersion));
    assert_eq!(cookie_blob("noversion").err(), Some(SessionError::NoVersion));
}

#[test]
fn an_expired_session_is_refused() {
    let bytes = encode_record(&mkprincipal(1)).expect("encode");
    assert_eq!(open_record(&bytes, 1).err(), Some(SessionError::Expired { expires_at: 1, now: 1 }));
    assert!(open_record(&bytes, 0).is_ok());
    assert!(check_expiry(mkprincipal(100), 99).is_ok());
    assert!(check_expiry(mkprincipal(100), 100).is_err());
}

#[test]
fn a_refresh_slides_the_expiry() {
    let p = mkprincipal(5);
    let q = refresh_principal_at(&p, 1000);
    assert_eq!(q.expires_at, 1000 + DEFAULT_SESSION_TTL_SECS);
    assert_eq!(q.scopes, p.scopes);
    assert_eq!(refresh_principal_at(&p, u64::MAX).expires_at, u64::MAX);
}

#[test]
fn scopes_gate_the_dashboard() {
    let viewer = AdminPrincipal { name: "v".to_string(), scopes: vec!["dashboard.view".to_string()], expires_at: 0 };
    assert!(viewer.can_view_dashboard());
    assert!(!viewer.can_admin_dashboard());
    assert!(!viewer.can_manage_admins());
    let cli = AdminPrincipal { name: "c".to_string(), scopes: vec!["admin".to_string()], expires_at: 0 };
    assert!(!cli.can_view_dashboard());
    assert!(!cli.can_manage_admins());
    let both = AdminPrincipal {
        name: "b".to_string(),
        scopes: vec!["admin".to_string(), "dashboard.admin".to_string()],
        expires_at: 0,
    };
    assert!(both.can_manage_admins());
    let all = AdminPrincipal { name: "o".to_string(), scopes: vec!["*".to_string()], expires_at: 0 };
    assert!(all.has_scope("anything") && all.can_manage_admins());
}

use fe2o3_steel::tls::{
    acme_hostnames, alpn_protocols, needs_renewal, pem_to_cert_chain, uncovered, AcmeNamesError,
    CachedCert, CertTable, PemError,
};

fn s(v: &[&str]) -> Vec<String> {
    v.iter().map(|x| x.to_string()).collect()
}

fn acme() -> Vec<Vec<u8>> {
    vec![b"acme-tls/1".to_vec()]
}

#[test]
fn a_handshake_gets_the_certificate_for_its_name() {
    let mut t = CertTable::new();
    assert_eq!(t.resolve(&vec![], Some("a.example")), None);
    t.insert_vhost_cert(&s(&["A.Example", "www.a.example"]), 7);
    t.insert_vhost_cert(&s(&["b.example"]), 8);
    assert_eq!(t.resolve(&vec![], Some("a.example")), Some(7));
    assert_eq!(t.resolve(&vec![b"http/1.1".to_vec()], Some("WWW.A.EXAMPLE")), Some(7));
    assert_eq!(t.resolve(&vec![], Some("b.example")), Some(8));
    assert_eq!(t.resolve(&vec![], Some("unknown.example")), Some(7), "the first certificate is the default");
    assert_eq!(t.resolve(&vec![], None), Some(7));
    t.insert_vhost_cert(&s(&["a.example"]), 9);
    assert_eq!(t.resolve(&vec![], Some("a.example")), Some(9));
    assert_eq!(t.resolve(&vec![], None), Some(7));
}

#[test]
fn a_certificate_authority_gets_the_challenge_certificate() {
    let mut t = CertTable::new();
    t.insert_vhost_cert(&s(&["a.example"]), 1);
    assert_eq!(t.resolve(&acme(), Some("a.example")), None, "no challenge installed");
    t.install_challenge("A.example", 2);
    assert_eq!(t.resolve(&acme(), Some("a.example")), Some(2));
    assert_eq!(t.resolve(&acme(), None), None);
    assert_eq!(t.resolve(&vec![b"acme-tls/1".to_vec(), b"http/1.1".to_vec()], Some("a.example")), Some(1));
    t.remove_challenge("a.example");
    assert_eq!(t.resolve(&acme(), Some("a.example")), None);
}

#[test]
fn an_order_names_each_host_once() {
    let names = acme_hostnames("ops@example.com", &s(&["a.example", "A.EXAMPLE", "", "b.example"]), Some(&"mail.example".to_string()), &s(&["b.example", "c.example"]))
        .expect("names");
    assert_eq!(names, s(&["a.example", "b.example", "mail.example", "c.example"]));
    assert_eq!(acme_hostnames("", &s(&["a"]), None, &vec![]), Err(AcmeNamesError::NoContactEmail));
    assert_eq!(acme_hostnames("ops@x", &s(&[""]), None, &vec![]), Err(AcmeNamesError::NoHostnames));
}

#[test]
fn renewal_is_due_when_a_name_is_not_covered() {
    let wanted = s(&["a.example", "b.example"]);
    assert_eq!(uncovered(&wanted, &s(&["A.EXAMPLE"])), s(&["b.example"]));
    assert!(!needs_renewal(&CachedCert::Current(s(&["b.example", "a.example"])), &wanted));
    assert!(needs_renewal(&CachedCert::Current(s(&["a.example"])), &wanted));
    assert!(needs_renewal(&CachedCert::Missing, &wanted));
    assert!(needs_renewal(&CachedCert::ExpiresSoon, &wanted));
}

#[test]
fn alpn_offers_http_and_the_challenge_protocol_under_acme() {
    assert_eq!(alpn_protocols(false), vec![b"http/1.1".to_vec()]);
    assert_eq!(alpn_protocols(true), vec![b"http/1.1".to_vec(), b"acme-tls/1".to_vec()]);
}

#[test]
fn a_pem_without_a_certificate_is_refused() {
    assert_eq!(pem_to_cert_chain(b"").err(), Some(PemError::NoCertificates));
    let pem = b"-----BEGIN CERTIFICATE-----\nAAEC\n-----END CERTIFICATE-----\n";
    assert_eq!(pem_to_cert_chain(pem).ok(), Some(vec![vec![0u8, 1, 2]]));
}

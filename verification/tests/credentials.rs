use are_daemon::tls::{
    build_root_store, parse_certificates, parse_private_key, pem_read_error, KeyKind, TlsError,
};

fn make_ca() -> (rcgen::Certificate, rcgen::KeyPair) {
    let mut params = rcgen::CertificateParams::new(vec!["Test CA".to_string()]).unwrap();
    params.is_ca = rcgen::IsCa::Ca(rcgen::BasicConstraints::Unconstrained);
    let key = rcgen::KeyPair::generate().unwrap();
    let cert = params.self_signed(&key).unwrap();
    (cert, key)
}

#[test]
fn certificates_parse_from_pem_in_order() {
    let (ca, _) = make_ca();
    let (other, _) = make_ca();
    let pem = format!("{}{}", ca.pem(), other.pem());
    let certs = parse_certificates(pem.as_bytes()).unwrap();
    assert_eq!(certs.len(), 2);
    assert_eq!(certs[0], ca.der().as_ref().to_vec());
    assert_eq!(certs[1], other.der().as_ref().to_vec());
}

#[test]
fn pem_without_certificate_is_refused() {
    let (_, key) = make_ca();
    assert!(matches!(parse_certificates(key.serialize_pem().as_bytes()), Err(TlsError::NoCertificate)));
    assert!(matches!(parse_certificates(b""), Err(TlsError::NoCertificate)));
}

#[test]
fn private_key_parses_from_pem() {
    let (_, key) = make_ca();
    let parsed = parse_private_key(key.serialize_pem().as_bytes()).unwrap();
    assert_eq!(parsed.kind, KeyKind::Pkcs8);
    assert_eq!(parsed.der, key.serialize_der());
}

#[test]
fn pem_without_private_key_is_refused() {
    let (ca, _) = make_ca();
    assert!(matches!(parse_private_key(ca.pem().as_bytes()), Err(TlsError::NoPrivateKey)));
}

#[test]
fn unreadable_pem_names_the_file() {
    match pem_read_error("/no/such/cert.pem", "No such file or directory (os error 2)") {
        TlsError::PemRead(m) => assert_eq!(m, "/no/such/cert.pem: No such file or directory (os error 2)"),
        other => panic!("expected PemRead, got {other:?}"),
    }
    assert_eq!(
        TlsError::PemRead("x".into()).message(),
        "failed to read PEM file: x"
    );
}

#[test]
fn root_store_takes_a_ca_certificate() {
    let (ca, _) = make_ca();
    assert!(build_root_store(ca.der().as_ref()).is_ok());
}

#[test]
fn root_store_refuses_bytes_that_are_no_certificate() {
    match build_root_store(b"not a certificate") {
        Err(TlsError::RootStoreError(m)) => assert!(!m.is_empty()),
        Err(other) => panic!("expected RootStoreError, got {other:?}"),
        Ok(_) => panic!("garbage accepted as a trust anchor"),
    }
}

#[test]
fn root_store_holds_exactly_the_ca() {
    let (ca, _) = make_ca();
    let store = build_root_store(ca.der().as_ref()).unwrap();
    assert_eq!(store.len(), 1);
}

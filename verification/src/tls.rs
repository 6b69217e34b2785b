//! Credentials for the mutually authenticated TLS listener: the
//! certificates and the private key read from PEM files (the files are read
//! by the caller; parsing and the decisions on what was found are here).

use vstd::prelude::*;
use vstd::string::*;

use crate::text::push_str;

verus! {

/// Errors while loading TLS credentials or building a TLS configuration.
#[derive(Debug)]
pub enum TlsError {
    /// The PEM data could not be read or parsed.
    PemRead(String),
    /// The PEM data holds no certificate.
    NoCertificate,
    /// The PEM data holds no private key.
    NoPrivateKey,
    /// The client verifier could not be built.
    VerificationFailed(String),
    /// The credentials were refused.
    InvalidCredential(String),
    /// The CA certificate was refused by the root store.
    RootStoreError(String),
}

impl TlsError {
    /// The human-readable message.
    pub fn message(&self) -> (m: String)
        ensures
            match self {
                TlsError::PemRead(e) => m@ == "failed to read PEM file: "@ + e@,
                TlsError::NoCertificate => m@ == "no certificate found in PEM data"@,
                TlsError::NoPrivateKey => m@ == "no private key found in PEM data"@,
                TlsError::VerificationFailed(e) => m@ == "certificate verification failed: "@ + e@,
                TlsError::InvalidCredential(e) => m@ == "invalid credential format: "@ + e@,
                TlsError::RootStoreError(e) => m@ == "root cert store error: "@ + e@,
            },
    {
        match self {
            TlsError::PemRead(e) => {
                let mut m = String::from_str("failed to read PEM file: ");
                push_str(&mut m, e.as_str());
                m
            },
            TlsError::NoCertificate => String::from_str("no certificate found in PEM data"),
            TlsError::NoPrivateKey => String::from_str("no private key found in PEM data"),
            TlsError::VerificationFailed(e) => {
                let mut m = String::from_str("certificate verification failed: ");
                push_str(&mut m, e.as_str());
                m
            },
            TlsError::InvalidCredential(e) => {
                let mut m = String::from_str("invalid credential format: ");
                push_str(&mut m, e.as_str());
                m
            },
            TlsError::RootStoreError(e) => {
                let mut m = String::from_str("root cert store error: ");
                push_str(&mut m, e.as_str());
                m
            },
        }
    }
}

/// The certificates (DER bytes, in order) that `rustls_pemfile::certs`
/// finds in PEM data, or the text of its first error.
pub uninterp spec fn spec_pem_certs(data: Seq<u8>) -> Result<Seq<Seq<u8>>, Seq<char>>;

/// The encoding and DER bytes of the first private key that
/// `rustls_pemfile::private_key` finds in PEM data (`None`: there is none),
/// or the text of its error.
pub uninterp spec fn spec_pem_private_key(data: Seq<u8>) -> Result<Option<(KeyKind, Seq<u8>)>, Seq<char>>;

/// The views of a list of byte vectors.
pub open spec fn byte_views(v: Seq<Vec<u8>>) -> Seq<Seq<u8>> {
    Seq::new(v.len(), |i: int| v[i]@)
}

/// The view of a certificate parse.
pub open spec fn certs_view(r: Result<Vec<Vec<u8>>, String>) -> Result<Seq<Seq<u8>>, Seq<char>> {
    match r {
        Ok(v) => Ok(byte_views(v@)),
        Err(e) => Err(e@),
    }
}

/// The encoding of a private key.
#[derive(Debug, Clone, Copy, PartialEq, Eq)]
pub enum KeyKind {
    /// RSA, PKCS#1.
    Pkcs1,
    /// SEC1 (elliptic curve).
    Sec1,
    /// PKCS#8.
    Pkcs8,
}

/// A private key: its encoding and its DER bytes.
#[derive(Debug)]
pub struct PrivateKey {
    pub kind: KeyKind,
    pub der: Vec<u8>,
}

/// The view of a private-key parse: the key's encoding and DER bytes.
pub open spec fn key_view(r: Result<Option<PrivateKey>, String>) -> Result<Option<(KeyKind, Seq<u8>)>, Seq<char>> {
    match r {
        Ok(Some(k)) => Ok(Some((k.kind, k.der@))),
        Ok(None) => Ok(None),
        Err(e) => Err(e@),
    }
}

/// Calls `rustls_pemfile::certs` over the bytes and collects the
/// certificates as DER bytes (stopping at the first error, whose text is
/// returned). The contract names the outcome `spec_pem_certs(data)`: a
/// function of the bytes alone; the PEM grammar is not restated.
#[verifier::external_body]
fn pem_certs(data: &[u8]) -> (r: Result<Vec<Vec<u8>>, String>)
    ensures
        certs_view(r) == spec_pem_certs(data@),
{
    let mut rd: &[u8] = data;
    match rustls_pemfile::certs(&mut rd).collect::<Result<Vec<_>, _>>() {
        Ok(certs) => Ok(certs.into_iter().map(|c| c.as_ref().to_vec()).collect()),
        Err(e) => Err(e.to_string()),
    }
}

/// Calls `rustls_pemfile::private_key` over the bytes: the first private key
/// with its encoding, `None` when there is none, or the error's text. The
/// contract names the encoding and DER bytes (or the error)
/// `spec_pem_private_key(data)`. An encoding the crate may add later (its
/// key type is non-exhaustive) is reported as an error.
#[verifier::external_body]
fn pem_private_key(data: &[u8]) -> (r: Result<Option<PrivateKey>, String>)
    ensures
        key_view(r) == spec_pem_private_key(data@),
{
    let mut rd: &[u8] = data;
    match rustls_pemfile::private_key(&mut rd) {
        Ok(Some(rustls::pki_types::PrivateKeyDer::Pkcs1(k))) => Ok(
            Some(PrivateKey { kind: KeyKind::Pkcs1, der: k.secret_pkcs1_der().to_vec() }),
        ),
        Ok(Some(rustls::pki_types::PrivateKeyDer::Sec1(k))) => Ok(
            Some(PrivateKey { kind: KeyKind::Sec1, der: k.secret_sec1_der().to_vec() }),
        ),
        Ok(Some(rustls::pki_types::PrivateKeyDer::Pkcs8(k))) => Ok(
            Some(PrivateKey { kind: KeyKind::Pkcs8, der: k.secret_pkcs8_der().to_vec() }),
        ),
        Ok(Some(_)) => Err("unsupported private key encoding".to_string()),
        Ok(None) => Ok(None),
        Err(e) => Err(e.to_string()),
    }
}

/// The certificates in PEM data: a parse error is `PemRead`; data with no
/// certificate is `NoCertificate`.
pub fn parse_certificates(data: &[u8]) -> (r: Result<Vec<Vec<u8>>, TlsError>)
    ensures
        match spec_pem_certs(data@) {
            Err(e) => r matches Err(TlsError::PemRead(m)) && m@ == e,
            Ok(cs) => if cs.len() == 0 {
                r matches Err(TlsError::NoCertificate)
            } else {
                r matches Ok(v) && byte_views(v@) == cs
            },
        },
{
    match pem_certs(data) {
        Err(e) => Err(TlsError::PemRead(e)),
        Ok(certs) => {
            if certs.len() == 0 {
                Err(TlsError::NoCertificate)
            } else {
                Ok(certs)
            }
        },
    }
}

/// The first private key in PEM data: a parse error is `PemRead`; data with
/// no key is `NoPrivateKey`.
pub fn parse_private_key(data: &[u8]) -> (r: Result<PrivateKey, TlsError>)
    ensures
        match spec_pem_private_key(data@) {
            Err(e) => r matches Err(TlsError::PemRead(m)) && m@ == e,
            Ok(None) => r matches Err(TlsError::NoPrivateKey),
            Ok(Some((kind, der))) => r matches Ok(k) && k.kind == kind && k.der@ == der,
        },
{
    match pem_private_key(data) {
        Err(e) => Err(TlsError::PemRead(e)),
        Ok(None) => Err(TlsError::NoPrivateKey),
        Ok(Some(k)) => Ok(k),
    }
}

/// `rustls::RootCertStore`: the trust anchors client certificates are
/// verified against.
#[verifier::external_type_specification]
#[verifier::external_body]
pub struct ExRootCertStore(rustls::RootCertStore);

/// The text of the error `rustls::RootCertStore::add` gives for a DER
/// certificate it cannot take as a trust anchor (`None`: it takes it). The
/// outcome depends on the bytes alone.
pub uninterp spec fn spec_trust_anchor_error(der: Seq<u8>) -> Option<Seq<char>>;

/// The trust anchors a `rustls::RootCertStore` holds, in the order they
/// were added, each as the anchor named by `spec_trust_anchor`.
pub uninterp spec fn spec_root_anchors(store: rustls::RootCertStore) -> Seq<Seq<u8>>;

/// The trust anchor (subject, public key and name constraints, as bytes)
/// that `rustls::RootCertStore::add` parses out of a DER certificate it
/// takes; a function of the bytes alone.
pub uninterp spec fn spec_trust_anchor(der: Seq<u8>) -> Seq<u8>;

/// Calls `rustls::RootCertStore::empty`: a store with no anchor.
#[verifier::external_body]
fn empty_root_store() -> (r: rustls::RootCertStore)
    ensures
        spec_root_anchors(r) == Seq::<Seq<u8>>::empty(),
{
    rustls::RootCertStore::empty()
}

/// Calls `rustls::RootCertStore::add` with the DER bytes: the certificate
/// is parsed into a trust anchor and appended, or the parse error's text is
/// returned (named `spec_trust_anchor_error`) and the store is left as it
/// was (the anchor is pushed only once parsed).
#[verifier::external_body]
fn add_trust_anchor(store: &mut rustls::RootCertStore, der: &[u8]) -> (r: Result<(), String>)
    ensures
        match spec_trust_anchor_error(der@) {
            None => r is Ok && spec_root_anchors(*final(store)) == spec_root_anchors(*old(store)).push(
                spec_trust_anchor(der@),
            ),
            Some(e) => r matches Err(m) && m@ == e && spec_root_anchors(*final(store)) == spec_root_anchors(
                *old(store),
            ),
        },
{
    match store.add(rustls::pki_types::CertificateDer::from(der.to_vec())) {
        Ok(()) => Ok(()),
        Err(e) => Err(e.to_string()),
    }
}

/// A root store holding the one CA certificate (DER) client certificates
/// must chain to; a certificate that is no usable anchor is
/// `RootStoreError` with the parse error's text.
pub fn build_root_store(ca_cert: &[u8]) -> (r: Result<rustls::RootCertStore, TlsError>)
    ensures
        match spec_trust_anchor_error(ca_cert@) {
            None => r matches Ok(store) && spec_root_anchors(store) == seq![spec_trust_anchor(ca_cert@)],
            Some(e) => r matches Err(TlsError::RootStoreError(m)) && m@ == e,
        },
{
    let mut store = empty_root_store();
    match add_trust_anchor(&mut store, ca_cert) {
        Ok(()) => Ok(store),
        Err(e) => Err(TlsError::RootStoreError(e)),
    }
}

/// The error for a PEM file that could not be read: its path and the OS
/// error's text.
pub fn pem_read_error(path: &str, error: &str) -> (e: TlsError)
    ensures
        e matches TlsError::PemRead(m) && m@ == path@ + ": "@ + error@,
{
    let mut m = String::new();
    push_str(&mut m, path);
    push_str(&mut m, ": ");
    push_str(&mut m, error);
    TlsError::PemRead(m)
}

} // verus!

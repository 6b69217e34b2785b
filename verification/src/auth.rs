//! Caller principal identity: the `blake3:<64 lowercase hex>` fingerprint of
//! the DER bytes of the verified leaf client certificate.

use vstd::prelude::*;
use vstd::string::*;

use crate::hex::{hex_lower, push_hex_lower};

verus! {

/// The BLAKE3-256 digest of `data`, as computed by the `blake3` crate.
pub uninterp spec fn spec_blake3(data: Seq<u8>) -> Seq<u8>;

/// Calls `blake3::hash` and returns the 32 digest bytes.
///
/// The contract names the digest `spec_blake3(data)` (a function of the
/// input bytes alone) and states its documented length of 32 bytes; the
/// hash algorithm itself is not stated.
#[verifier::external_body]
fn blake3_digest(data: &[u8]) -> (d: Vec<u8>)
    ensures
        d@ == spec_blake3(data@),
        d@.len() == 32,
{
    blake3::hash(data).as_bytes().to_vec()
}

/// The prefix of every fingerprint.
pub open spec fn fingerprint_prefix() -> Seq<char> {
    seq!['b', 'l', 'a', 'k', 'e', '3', ':']
}

/// The fingerprint of certificate DER bytes: `blake3:` + lowercase hex digest.
pub open spec fn spec_fingerprint(der: Seq<u8>) -> Seq<char> {
    fingerprint_prefix() + hex_lower(spec_blake3(der))
}

/// Lowercase hex of the BLAKE3 digest of `data` (64 characters).
pub fn blake3_hex(data: &[u8]) -> (h: String)
    ensures
        h@ == hex_lower(spec_blake3(data@)),
        h@.len() == 64,
{
    let d = blake3_digest(data);
    let mut h = String::new();
    push_hex_lower(&mut h, d.as_slice());
    h
}

/// Compute the `blake3:<hex>` fingerprint of DER bytes.
pub fn fingerprint_der(der: &[u8]) -> (fp: String)
    ensures
        fp@ == spec_fingerprint(der@),
        fp@.len() == 71,
{
    let d = blake3_digest(der);
    let mut fp = String::from_str("blake3:");
    proof {
        reveal_strlit("blake3:");
    }
    assert(fp@ == fingerprint_prefix());
    push_hex_lower(&mut fp, d.as_slice());
    fp
}

/// An authenticated caller's identity for one connection.
#[derive(Debug, Clone, PartialEq, Eq, Hash)]
pub struct Caller {
    /// `blake3:<64 lowercase hex>` over the leaf certificate DER bytes.
    pub fingerprint: String,
}

impl Caller {
    /// Build a caller from an already-computed fingerprint string.
    pub fn new(fingerprint: String) -> (c: Caller)
        ensures
            c.fingerprint == fingerprint,
    {
        Caller { fingerprint }
    }

    /// Build a caller directly from leaf certificate DER bytes.
    pub fn from_leaf_der(der: &[u8]) -> (c: Caller)
        ensures
            c.fingerprint@ == spec_fingerprint(der@),
    {
        Caller::new(fingerprint_der(der))
    }
}

/// Extract the caller from verified peer certificates (leaf first), each
/// given as its DER bytes. `None` when no certificate is present.
pub fn caller_from_peer_certs(certs: Option<&[Vec<u8>]>) -> (c: Option<Caller>)
    ensures
        match certs {
            None => c is None,
            Some(cs) => if cs@.len() == 0 {
                c is None
            } else {
                c is Some && c->0.fingerprint@ == spec_fingerprint(cs@[0]@)
            },
        },
{
    match certs {
        None => None,
        Some(cs) => {
            if cs.len() == 0 {
                None
            } else {
                Some(Caller::from_leaf_der(cs[0].as_slice()))
            }
        },
    }
}

} // verus!

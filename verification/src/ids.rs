//! Unguessable identifiers: a prefix followed by 32 lowercase hex digits
//! drawn from the operating system's CSPRNG.

use vstd::prelude::*;
use vstd::string::*;

use crate::hex::{hex_lower, is_lower_hex_digit, push_hex_lower};
use crate::text::push_str;

verus! {

/// The error type of `getrandom`.
#[verifier::external_type_specification]
#[verifier::external_body]
pub struct ExRandomError(getrandom::Error);

/// Fills 16 bytes from the OS CSPRNG (`getrandom::getrandom`).
///
/// The bytes are random, so nothing is claimed of them but their number,
/// which `getrandom` documents: on success the whole buffer is filled.
#[verifier::external_body]
fn random_16() -> (r: Result<Vec<u8>, getrandom::Error>)
    ensures
        r matches Ok(v) ==> v@.len() == 16,
{
    let mut b = [0u8; 16];
    match getrandom::getrandom(&mut b) {
        Ok(()) => Ok(b.to_vec()),
        Err(e) => Err(e),
    }
}

/// The display text of a `getrandom` error (`ToString`). Nothing is
/// claimed of it: for an operating-system error it is the system's own
/// description of the code, which depends on the machine.
#[verifier::external_body]
fn random_error_text(e: &getrandom::Error) -> String {
    e.to_string()
}

/// `s` is `prefix` followed by exactly 32 lowercase hex digits.
pub open spec fn is_generated_id(s: Seq<char>, prefix: Seq<char>) -> bool {
    &&& s.len() == prefix.len() + 32
    &&& s.subrange(0, prefix.len() as int) == prefix
    &&& forall|i: int| prefix.len() <= i < s.len() ==> is_lower_hex_digit(#[trigger] s[i])
}

proof fn lemma_hex_lower_digits(b: Seq<u8>)
    ensures
        forall|i: int| 0 <= i < hex_lower(b).len() ==> is_lower_hex_digit(#[trigger] hex_lower(b)[i]),
{
    assert forall|i: int| 0 <= i < hex_lower(b).len() implies is_lower_hex_digit(
        #[trigger] hex_lower(b)[i],
    ) by {
        crate::hex::lemma_hex_char_is_lower_hex((b[i / 2] / 16) as nat);
        crate::hex::lemma_hex_char_is_lower_hex((b[i / 2] % 16) as nat);
    }
}

/// Draw a fresh identifier `prefix` + 32 lowercase hex digits. Fails only
/// when the CSPRNG fails; the error carries its text.
pub fn random_id(prefix: &str) -> (r: Result<String, String>)
    ensures
        r matches Ok(s) ==> is_generated_id(s@, prefix@),
{
    match random_16() {
        Ok(bytes) => {
            let mut s = String::new();
            push_str(&mut s, prefix);
            push_hex_lower(&mut s, bytes.as_slice());
            proof {
                lemma_hex_lower_digits(bytes@);
                assert(s@.subrange(0, prefix@.len() as int) =~= prefix@);
                assert forall|i: int| prefix@.len() <= i < s@.len() implies is_lower_hex_digit(
                    #[trigger] s@[i],
                ) by {
                    assert(s@[i] == hex_lower(bytes@)[i - prefix@.len()]);
                }
            }
            Ok(s)
        },
        Err(e) => Err(random_error_text(&e)),
    }
}

} // verus!

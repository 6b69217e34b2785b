//! Length-prefixed framing for the wire protocol.
//!
//! Each message is `[u32 big-endian length][payload bytes]`. The payload
//! size is bounded (16 MiB by default) in both directions: an oversized
//! outgoing payload is refused before a single byte is written, and an
//! oversized incoming length prefix is refused before the body is read.

use vstd::prelude::*;
use vstd::string::*;

use crate::text::{decimal, push_decimal, push_str};

verus! {

/// Default maximum payload size: 16 MiB.
pub const DEFAULT_MAX_PAYLOAD: usize = 16777216;

/// Length prefix size in bytes.
pub const LEN_PREFIX_SIZE: usize = 4;

/// Error from building or reading a frame.
#[derive(Debug)]
pub enum FramingError {
    /// The payload exceeds the transmit limit; nothing was written.
    ResponseTooLarge { size: usize, max: usize },
    /// Serialization of the payload failed.
    Serialization(String),
    /// The frame is malformed or an I/O error occurred.
    Io(String),
}

/// Big-endian bytes of a 32-bit length.
pub open spec fn be_u32(n: nat) -> Seq<u8> {
    seq![
        (n / 16777216 % 256) as u8,
        (n / 65536 % 256) as u8,
        (n / 256 % 256) as u8,
        (n % 256) as u8,
    ]
}

/// The length encoded by a 4-byte big-endian prefix.
pub open spec fn be_value(h: Seq<u8>) -> nat {
    (h[0] as nat) * 16777216 + (h[1] as nat) * 65536 + (h[2] as nat) * 256 + (h[3] as nat)
}

/// The complete frame for a payload: length prefix then the payload.
pub open spec fn spec_frame(payload: Seq<u8>) -> Seq<u8> {
    be_u32(payload.len()) + payload
}

/// The message of the error for an oversized incoming length.
pub open spec fn oversize_read_message(len: nat, max: nat) -> Seq<char> {
    "payload size "@ + decimal(len) + " exceeds maximum "@ + decimal(max)
}

/// The message of the error for a payload whose length does not fit 32 bits.
pub open spec fn too_long_message() -> Seq<char> {
    "payload exceeds 4 GiB"@
}

proof fn lemma_be_roundtrip(n: nat)
    requires
        n < 4294967296,
    ensures
        be_value(be_u32(n)) == n,
{
    let b0 = n / 16777216 % 256;
    let b1 = n / 65536 % 256;
    let b2 = n / 256 % 256;
    let b3 = n % 256;
    assert(b0 * 16777216 + b1 * 65536 + b2 * 256 + b3 == n) by (nonlinear_arith)
        requires
            n < 4294967296,
            b0 == n / 16777216 % 256,
            b1 == n / 65536 % 256,
            b2 == n / 256 % 256,
            b3 == n % 256,
    {
    }
}

/// Reading a frame's prefix back gives the payload length, and the bytes
/// after the prefix are the payload: framing round-trips.
pub proof fn frame_roundtrip(payload: Seq<u8>)
    requires
        payload.len() < 4294967296,
    ensures
        spec_frame(payload).len() == payload.len() + 4,
        be_value(spec_frame(payload).subrange(0, 4)) == payload.len(),
        spec_frame(payload).subrange(4, spec_frame(payload).len() as int) == payload,
{
    lemma_be_roundtrip(payload.len());
    assert(spec_frame(payload).subrange(0, 4) =~= be_u32(payload.len()));
    assert(spec_frame(payload).subrange(4, spec_frame(payload).len() as int) =~= payload);
}

/// Build the frame for an already-serialized payload.
///
/// The size is checked before anything is produced: a payload longer than
/// `max_payload` is refused with `ResponseTooLarge` carrying its size and
/// the limit; one whose length does not fit the 32-bit prefix is refused
/// with `Io`.
pub fn encode_frame(payload: &[u8], max_payload: usize) -> (r: Result<Vec<u8>, FramingError>)
    ensures
        payload@.len() > max_payload ==> (r matches Err(FramingError::ResponseTooLarge { size, max })
            && size == payload@.len() && max == max_payload),
        payload@.len() <= max_payload && payload@.len() >= 4294967296 ==> (r matches Err(
            FramingError::Io(m),
        ) && m@ == too_long_message()),
        payload@.len() <= max_payload && payload@.len() < 4294967296 ==> (r matches Ok(v) && v@
            == spec_frame(payload@)),
{
    let n = payload.len();
    if n > max_payload {
        return Err(FramingError::ResponseTooLarge { size: n, max: max_payload });
    }
    if n as u64 >= 4294967296u64 {
        let m = String::from_str("payload exceeds 4 GiB");
        proof {
            reveal_strlit("payload exceeds 4 GiB");
        }
        return Err(FramingError::Io(m));
    }
    let mut v: Vec<u8> = Vec::new();
    v.push((n / 16777216 % 256) as u8);
    v.push((n / 65536 % 256) as u8);
    v.push((n / 256 % 256) as u8);
    v.push((n % 256) as u8);
    let mut i: usize = 0;
    while i < n
        invariant
            n == payload@.len(),
            i <= n,
            v@ == be_u32(n as nat) + payload@.subrange(0, i as int),
        decreases n - i,
    {
        v.push(payload[i]);
        assert(payload@.subrange(0, i + 1) == payload@.subrange(0, i as int).push(payload@[i as int]));
        i = i + 1;
    }
    assert(payload@.subrange(0, n as int) =~= payload@);
    Ok(v)
}

/// Read a frame's 4-byte length prefix and check it against the limit.
///
/// Returns the payload length to read next, or an `Io` error naming the
/// announced size and the limit when it exceeds `max_payload`.
pub fn decode_frame_len(prefix: &[u8], max_payload: usize) -> (r: Result<usize, FramingError>)
    requires
        prefix@.len() == LEN_PREFIX_SIZE,
    ensures
        be_value(prefix@) <= max_payload ==> (r matches Ok(n) && n == be_value(prefix@)),
        be_value(prefix@) > max_payload ==> (r matches Err(FramingError::Io(m)) && m@
            == oversize_read_message(be_value(prefix@), max_payload as nat)),
{
    let len: u64 = (prefix[0] as u64) * 16777216 + (prefix[1] as u64) * 65536 + (prefix[2] as u64)
        * 256 + (prefix[3] as u64);
    if len > max_payload as u64 {
        let mut m = String::new();
        push_str(&mut m, "payload size ");
        push_decimal(&mut m, len);
        push_str(&mut m, " exceeds maximum ");
        push_decimal(&mut m, max_payload as u64);
        return Err(FramingError::Io(m));
    }
    Ok(len as usize)
}

} // verus!

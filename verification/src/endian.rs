//! The 4-byte length prefix of the host-facing wire protocol, read and
//! written in a chosen byte order.
//!
//! The protocol ties the prefix to the byte order of the machine the bridge
//! runs on, so the order is a runtime value: every conversion is verified
//! for both orders, and one small trusted probe reports which order the
//! machine uses.

use vstd::prelude::*;

verus! {

/// Byte order of the 4-byte length prefix.
#[derive(Clone, Copy, PartialEq, Eq, Structural, Debug)]
pub enum Endian {
    Little,
    Big,
}

/// The four bytes of `n` in little-endian order.
pub open spec fn le_bytes(n: u32) -> Seq<u8> {
    seq![
        (n & 0xff) as u8,
        ((n >> 8) & 0xff) as u8,
        ((n >> 16) & 0xff) as u8,
        ((n >> 24) & 0xff) as u8,
    ]
}

/// The four bytes of `n` in big-endian order.
pub open spec fn be_bytes(n: u32) -> Seq<u8> {
    seq![
        ((n >> 24) & 0xff) as u8,
        ((n >> 16) & 0xff) as u8,
        ((n >> 8) & 0xff) as u8,
        (n & 0xff) as u8,
    ]
}

/// The four bytes of `n` in the order `e`.
pub open spec fn prefix_bytes(n: u32, e: Endian) -> Seq<u8> {
    match e {
        Endian::Little => le_bytes(n),
        Endian::Big => be_bytes(n),
    }
}

/// The value of a 4-byte sequence read in the order `e`.
pub open spec fn prefix_value(b: Seq<u8>, e: Endian) -> u32
    recommends
        b.len() == 4,
{
    match e {
        Endian::Little => (b[0] as u32) | ((b[1] as u32) << 8) | ((b[2] as u32) << 16) | (
        (b[3] as u32) << 24),
        Endian::Big => (b[3] as u32) | ((b[2] as u32) << 8) | ((b[1] as u32) << 16) | (
        (b[0] as u32) << 24),
    }
}

/// Reading back the four bytes of a prefix, in the order they were written
/// with, yields the value the prefix was written from.
pub proof fn lemma_prefix_roundtrip(n: u32, e: Endian)
    ensures
        prefix_value(prefix_bytes(n, e), e) == n,
{
    assert(((n & 0xff) as u8 as u32) | (((n >> 8) & 0xff) as u8 as u32) << 8 | (((n >> 16)
        & 0xff) as u8 as u32) << 16 | (((n >> 24) & 0xff) as u8 as u32) << 24 == n)
        by (bit_vector);
}

/// Writes `n` as four bytes in the order `e`.
pub fn encode_prefix(n: u32, e: Endian) -> (r: Vec<u8>)
    ensures
        r@ == prefix_bytes(n, e),
        r@.len() == 4,
{
    let mut r: Vec<u8> = Vec::new();
    match e {
        Endian::Little => {
            r.push((n & 0xff) as u8);
            r.push(((n >> 8) & 0xff) as u8);
            r.push(((n >> 16) & 0xff) as u8);
            r.push(((n >> 24) & 0xff) as u8);
        },
        Endian::Big => {
            r.push(((n >> 24) & 0xff) as u8);
            r.push(((n >> 16) & 0xff) as u8);
            r.push(((n >> 8) & 0xff) as u8);
            r.push((n & 0xff) as u8);
        },
    }
    assert(r@ =~= prefix_bytes(n, e));
    r
}

/// Reads the four bytes of `b` that start at `at` as a prefix in the order
/// `e`.
pub fn decode_prefix(b: &Vec<u8>, at: usize, e: Endian) -> (r: u32)
    requires
        at + 4 <= b@.len(),
    ensures
        r == prefix_value(b@.subrange(at as int, at + 4), e),
{
    let n = b.len();
    let b0 = b[at];
    let b1 = b[at + 1];
    let b2 = b[at + 2];
    let b3 = b[at + 3];
    proof {
        assert(b@.subrange(at as int, at + 4) =~= seq![b0, b1, b2, b3]);
    }
    match e {
        Endian::Little => (b0 as u32) | ((b1 as u32) << 8) | ((b2 as u32) << 16) | ((b3 as u32)
            << 24),
        Endian::Big => (b3 as u32) | ((b2 as u32) << 8) | ((b1 as u32) << 16) | ((b0 as u32)
            << 24),
    }
}

/// Relies on `u32::to_ne_bytes`: on every machine the native representation
/// of `1u32` starts with the byte 1 (little-endian order) or the byte 0
/// (big-endian order).
#[verifier::external_body]
fn native_first_byte() -> (r: u8)
    ensures
        r == 1u8 || r == 0u8,
{
    1u32.to_ne_bytes()[0]
}

/// The byte order of the machine the bridge runs on, probed once at
/// startup.  Which order comes back depends on the machine, so nothing more
/// is promised of the result; every function that takes an [`Endian`] is
/// verified for both orders.
pub fn native_endian() -> Endian {
    if native_first_byte() == 1 {
        Endian::Little
    } else {
        Endian::Big
    }
}

} // verus!

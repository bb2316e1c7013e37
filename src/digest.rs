use vstd::prelude::*;

use crypto::hmac::Hmac;
use crypto::mac::Mac;
use crypto::sha1::Sha1;

verus! {

/// Number of bytes in an HMAC-SHA1 digest.
pub const DIGEST_BYTES: usize = 20;

/// Inputs of at least this many bytes are refused by the SHA-1 engine,
/// which counts the bits hashed in a `u64`.
pub const MAX_INPUT_BYTES: u64 = 0x1000_0000_0000_0000;

/// The HMAC-SHA1 digest of `message` under `key`.
pub uninterp spec fn hmac_sha1_digest(key: Seq<u8>, message: Seq<u8>) -> Seq<u8>;

/// Relies on rust-crypto's `Hmac<Sha1>` (`Hmac::new`, `Mac::input`,
/// `Mac::raw_result`): the 20-byte HMAC-SHA1 of `message` under `key`, a
/// function of the two byte strings alone. SHA-1's bit counter panics past
/// 2^64 bits, so both inputs are kept well below that.
#[verifier::external_body]
pub(crate) fn hmac_sha1(key: &[u8], message: &[u8]) -> (r: [u8; 20])
    requires
        key@.len() < MAX_INPUT_BYTES,
        message@.len() < MAX_INPUT_BYTES,
    ensures
        r@ == hmac_sha1_digest(key@, message@),
{
    let mut mac = Hmac::new(Sha1::new(), key);
    mac.input(message);
    let mut out = [0u8; 20];
    mac.raw_result(&mut out);
    out
}

/// Offset of the four digest bytes that dynamic truncation reads.
pub open spec fn truncation_offset(d: Seq<u8>) -> int
    recommends
        d.len() == DIGEST_BYTES,
{
    (d[19] & 0x0f) as int
}

/// Dynamic truncation: the four bytes at the offset, read big-endian, with
/// the top bit cleared.
pub open spec fn dynamic_truncation(d: Seq<u8>) -> nat
    recommends
        d.len() == DIGEST_BYTES,
{
    let o = truncation_offset(d);
    ((d[o] & 0x7f) as nat) * 0x100_0000 + (d[o + 1] as nat) * 0x1_0000 + (d[o + 2] as nat)
        * 0x100 + (d[o + 3] as nat)
}

/// The low four bits of the digest's last byte.
pub fn offset(b: &[u8; 20]) -> (r: usize)
    ensures
        r == truncation_offset(b@),
        r <= 15,
{
    let last = b[19];
    assert(last & 0x0f <= 15) by (bit_vector);
    (last & 0x0f) as usize
}

proof fn lemma_compose(a: u8, b: u8, c: u8, d: u8)
    ensures
        ((((a & 0x7f) as u32) << 24u32) | ((b as u32) << 16u32) | ((c as u32) << 8u32) | (d as u32))
            as nat == ((a & 0x7f) as nat) * 0x100_0000 + (b as nat) * 0x1_0000 + (c as nat) * 0x100
            + (d as nat),
        ((a & 0x7f) as nat) * 0x100_0000 + (b as nat) * 0x1_0000 + (c as nat) * 0x100 + (d as nat)
            < 0x8000_0000,
{
    let a7 = a & 0x7f;
    assert(a7 < 128) by (bit_vector)
        requires
            a7 == a & 0x7f,
    ;
    let (x, y, z, w) = (a7 as u32, b as u32, c as u32, d as u32);
    assert((x << 24u32) | (y << 16u32) | (z << 8u32) | w == x * 0x100_0000 + y * 0x1_0000 + z
        * 0x100 + w) by (bit_vector)
        requires
            x < 128,
            y < 256,
            z < 256,
            w < 256,
    ;
}

/// Dynamic truncation of a digest into a 31-bit value.
pub fn sbits(bits: &[u8; 20]) -> (r: u32)
    ensures
        r as nat == dynamic_truncation(bits@),
        r < 0x8000_0000,
{
    let o = offset(bits);
    let a = bits[o];
    let b = bits[o + 1];
    let c = bits[o + 2];
    let d = bits[o + 3];
    proof {
        lemma_compose(a, b, c, d);
    }
    (((a & 0x7f) as u32) << 24u32) | ((b as u32) << 16u32) | ((c as u32) << 8u32) | (d as u32)
}

} // verus!

//! BLAKE3 digests and the little-endian byte layouts fed to them.

use vstd::prelude::*;

verus! {

/// The BLAKE3 digest of a byte string.
pub uninterp spec fn blake3_digest(bytes: Seq<u8>) -> Seq<u8>;

/// `blake3::hash`: the 32-byte BLAKE3 digest of `bytes`. Its contract names
/// the digest and says nothing of its bits; incremental hashing of the same
/// bytes in pieces gives the same digest, so callers hash the concatenation.
#[verifier::external_body]
pub(crate) fn blake3_hash(bytes: &[u8]) -> (digest: [u8; 32])
    ensures
        digest@ == blake3_digest(bytes@),
{
    *blake3::hash(bytes).as_bytes()
}

/// Little-endian bytes of a 16-bit value.
pub open spec fn le_u16(value: u16) -> Seq<u8> {
    seq![(value & 0xffu16) as u8, ((value >> 8u16) & 0xffu16) as u8]
}

/// Little-endian bytes of a 64-bit value.
pub open spec fn le_u64(value: u64) -> Seq<u8> {
    Seq::new(8, |i: int| ((value >> ((8 * i) as u64)) & 0xffu64) as u8)
}

/// Value of `bytes[i..16]` read little-endian.
pub open spec fn le_u128_from(bytes: Seq<u8>, i: int) -> u128
    decreases 16 - i,
{
    if i >= 16 {
        0
    } else {
        ((le_u128_from(bytes, i + 1) << 8u128) | (bytes[i] as u128)) as u128
    }
}

/// Appends the little-endian bytes of a 16-bit value.
pub fn push_le_u16(bytes: &mut Vec<u8>, value: u16)
    ensures
        final(bytes)@ == old(bytes)@ + le_u16(value),
{
    bytes.push((value & 0xff) as u8);
    bytes.push(((value >> 8) & 0xff) as u8);
    proof {
        assert(final(bytes)@ =~= old(bytes)@ + le_u16(value));
    }
}

/// Appends the little-endian bytes of a 64-bit value.
pub fn push_le_u64(bytes: &mut Vec<u8>, value: u64)
    ensures
        final(bytes)@ == old(bytes)@ + le_u64(value),
{
    let ghost start = bytes@;
    let mut i: u64 = 0;
    while i < 8
        invariant
            0 <= i <= 8,
            bytes@ == start + le_u64(value).subrange(0, i as int),
        decreases 8 - i,
    {
        bytes.push(((value >> (8 * i)) & 0xff) as u8);
        proof {
            assert(bytes@ =~= start + le_u64(value).subrange(0, i + 1));
        }
        i = i + 1;
    }
    proof {
        assert(le_u64(value).subrange(0, 8) =~= le_u64(value));
    }
}

/// Appends the bytes of a string.
pub fn push_str(bytes: &mut Vec<u8>, text: &str)
    ensures
        final(bytes)@ == old(bytes)@ + vstd::utf8::encode_utf8(text@),
{
    let source = text.as_bytes();
    let n = source.len();
    let ghost start = bytes@;
    let mut i: usize = 0;
    while i < n
        invariant
            n == source@.len(),
            source@ == vstd::utf8::encode_utf8(text@),
            0 <= i <= n,
            bytes@ == start + source@.subrange(0, i as int),
        decreases n - i,
    {
        bytes.push(source[i]);
        proof {
            assert(bytes@ =~= start + source@.subrange(0, i + 1));
        }
        i = i + 1;
    }
    proof {
        assert(source@.subrange(0, n as int) =~= source@);
    }
}

/// The first sixteen bytes of a digest read little-endian.
pub fn le_u128_prefix(digest: &[u8; 32]) -> (value: u128)
    ensures
        value == le_u128_from(digest@, 0),
{
    let mut value: u128 = 0;
    let mut i: usize = 16;
    while i > 0
        invariant
            0 <= i <= 16,
            value == le_u128_from(digest@, i as int),
        decreases i,
    {
        i = i - 1;
        value = (value << 8) | (digest[i] as u128);
    }
    value
}

} // verus!

//! Derivation of a kitty's 32-byte dna: the environmental context and the
//! current global count are concatenated into a byte string, and that string
//! is run through the Blake2b-256 digest.

use vstd::prelude::*;

verus! {

/// The little-endian bytes of a 32-bit value.
pub open spec fn u32_le_bytes(x: u32) -> Seq<u8> {
    seq![
        (x % 256) as u8,
        ((x / 256) % 256) as u8,
        ((x / 65536) % 256) as u8,
        ((x / 16777216) % 256) as u8,
    ]
}

/// The little-endian bytes of a 64-bit value.
pub open spec fn u64_le_bytes(x: u64) -> Seq<u8> {
    seq![
        (x % 256) as u8,
        ((x / 256) % 256) as u8,
        ((x / 65536) % 256) as u8,
        ((x / 16777216) % 256) as u8,
        ((x / 4294967296) % 256) as u8,
        ((x / 1099511627776) % 256) as u8,
        ((x / 281474976710656) % 256) as u8,
        ((x / 72057594037927936) % 256) as u8,
    ]
}

/// An optional 32-bit value: a presence byte, then the value when present.
pub open spec fn option_u32_bytes(x: Option<u32>) -> Seq<u8> {
    match x {
        None => seq![0u8],
        Some(v) => seq![1u8] + u32_le_bytes(v),
    }
}

/// The byte string hashed to derive a dna: the previous-state fingerprint,
/// the position marker, the sub-position marker, and the global count,
/// concatenated in that order.
pub open spec fn dna_preimage(
    parent_hash: Seq<u8>,
    block_number: u64,
    extrinsic_index: Option<u32>,
    count: u32,
) -> Seq<u8> {
    parent_hash + u64_le_bytes(block_number) + option_u32_bytes(extrinsic_index) + u32_le_bytes(
        count,
    )
}

/// The Blake2b-256 digest of a byte string.
pub uninterp spec fn blake2_256_of(input: Seq<u8>) -> Seq<u8>;

/// Relies on blake2's `Blake2b256` (`Digest::new`/`update`/`finalize`): a
/// 32-byte digest that is a pure function of the input bytes alone.
#[verifier::external_body]
pub(crate) fn blake2_256(input: &Vec<u8>) -> (r: [u8; 32])
    ensures
        r@ == blake2_256_of(input@),
{
    let mut hasher = <blake2::Blake2b256 as blake2::Digest>::new();
    blake2::Digest::update(&mut hasher, input.as_slice());
    blake2::Digest::finalize(hasher).into()
}

/// Append the little-endian bytes of `x` to `out`.
pub(crate) fn push_u32_le(out: &mut Vec<u8>, x: u32)
    ensures
        final(out)@ == old(out)@ + u32_le_bytes(x),
{
    out.push((x % 256) as u8);
    out.push(((x / 256) % 256) as u8);
    out.push(((x / 65536) % 256) as u8);
    out.push(((x / 16777216) % 256) as u8);
    proof {
        assert(out@ =~= old(out)@ + u32_le_bytes(x));
    }
}

/// Append the little-endian bytes of `x` to `out`.
pub(crate) fn push_u64_le(out: &mut Vec<u8>, x: u64)
    ensures
        final(out)@ == old(out)@ + u64_le_bytes(x),
{
    out.push((x % 256) as u8);
    out.push(((x / 256) % 256) as u8);
    out.push(((x / 65536) % 256) as u8);
    out.push(((x / 16777216) % 256) as u8);
    out.push(((x / 4294967296) % 256) as u8);
    out.push(((x / 1099511627776) % 256) as u8);
    out.push(((x / 281474976710656) % 256) as u8);
    out.push(((x / 72057594037927936) % 256) as u8);
    proof {
        assert(out@ =~= old(out)@ + u64_le_bytes(x));
    }
}

} // verus!

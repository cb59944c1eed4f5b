use vstd::prelude::*;
use frame_support::pallet_prelude::Encode;

verus! {

/// The little-endian bytes of a `u32`.
pub open spec fn u32_le_bytes(x: u32) -> Seq<u8> {
    Seq::new(4, |i: int| (x >> ((8 * i) as u32)) as u8)
}

/// The little-endian bytes of a `u64`.
pub open spec fn u64_le_bytes(x: u64) -> Seq<u8> {
    Seq::new(8, |i: int| (x >> ((8 * i) as u64)) as u8)
}

/// The SCALE encoding of the tuple `(random, extrinsic_index, block_number)`:
/// the 32 random bytes as they are, then the index and the block number in
/// little-endian order.
pub open spec fn dna_payload(random: Seq<u8>, extrinsic_index: u32, block_number: u64) -> Seq<u8> {
    random + u32_le_bytes(extrinsic_index) + u64_le_bytes(block_number)
}

/// The 128-bit Blake2b digest of `data`.
pub uninterp spec fn blake2_128_digest(data: Seq<u8>) -> Seq<u8>;

/// The index of the extrinsic within its block, zero outside of one.
pub open spec fn index_or_zero(extrinsic_index: Option<u32>) -> u32 {
    match extrinsic_index {
        Some(i) => i,
        None => 0,
    }
}

/// The DNA that `gen_dna` derives from its inputs.
pub open spec fn spec_gen_dna(random: Seq<u8>, extrinsic_index: Option<u32>, block_number: u64) -> Seq<u8> {
    blake2_128_digest(dna_payload(random, index_or_zero(extrinsic_index), block_number))
}

/// SCALE-encodes `(random, extrinsic_index, block_number)` with
/// `parity_scale_codec::Encode::encode` (through `frame_support`). A byte
/// array encodes as its bytes with no length prefix, integers in
/// little-endian order, and a tuple as the concatenation of its fields.
#[verifier::external_body]
pub(crate) fn encode_payload(random: &[u8; 32], extrinsic_index: u32, block_number: u64) -> (res: Vec<u8>)
    ensures
        res@ == dna_payload(random@, extrinsic_index, block_number),
{
    (*random, extrinsic_index, block_number).encode()
}

/// Calls `sp_io::hashing::blake2_128`, the 128-bit Blake2b hash of `data`;
/// the digest is a function of the bytes alone.
#[verifier::external_body]
pub(crate) fn hash_blake2_128(data: &[u8]) -> (res: [u8; 16])
    ensures
        res@ == blake2_128_digest(data@),
{
    sp_io::hashing::blake2_128(data)
}

} // verus!

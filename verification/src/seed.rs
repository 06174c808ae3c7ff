//! Drawing sixteen bytes for a call: the block's random seed, the caller and
//! the call's place in the block are laid out as bytes and hashed.

use vstd::prelude::*;
use vstd::bytes::{spec_u32_to_le_bytes, spec_u64_to_le_bytes};
use crate::links::AccountId;

verus! {

/// The bytes that are hashed for a call: the seed as it stands, the caller as
/// eight little-endian bytes, then one byte that says whether the call has a
/// place in the block, followed by that place as four little-endian bytes.
pub open spec fn seed_payload(
    seed: Seq<u8>,
    sender: AccountId,
    extrinsic_index: Option<u32>,
) -> Seq<u8> {
    seed + spec_u64_to_le_bytes(sender) + match extrinsic_index {
        None => seq![0u8],
        Some(index) => seq![1u8] + spec_u32_to_le_bytes(index),
    }
}

/// The 128-bit Blake2b digest of a byte string.
pub uninterp spec fn blake2_128_digest(data: Seq<u8>) -> Seq<u8>;

/// Calls `parity_scale_codec::Encode::encode` on the triple of seed, caller
/// and place. The contract writes out the SCALE layout of that triple: a byte
/// array is copied without a length, an integer is written little-endian, an
/// option is a tag byte of zero, or of one followed by its content, and a
/// tuple is its parts one after the other.
#[verifier::external_body]
fn encode_payload(seed: &[u8; 32], sender: &AccountId, extrinsic_index: Option<u32>) -> (bytes: Vec<
    u8,
>)
    ensures
        bytes@ == seed_payload(seed@, *sender, extrinsic_index),
{
    parity_scale_codec::Encode::encode(&(seed, sender, extrinsic_index))
}

/// Calls `sp_io::hashing::blake2_128`. The contract gives the digest its
/// name and claims nothing else of it: the same bytes always hash alike.
#[verifier::external_body]
fn blake2_128(data: &[u8]) -> (digest: [u8; 16])
    ensures
        digest@ == blake2_128_digest(data@),
{
    sp_io::hashing::blake2_128(data)
}

/// Sixteen bytes for a call of `sender`: the digest of the seed, the caller
/// and the call's place in the block.
pub fn random_value(seed: &[u8; 32], sender: &AccountId, extrinsic_index: Option<u32>) -> (value: [u8; 16])
    ensures
        value@ == blake2_128_digest(seed_payload(seed@, *sender, extrinsic_index)),
{
    let payload = encode_payload(seed, sender, extrinsic_index);
    blake2_128(payload.as_slice())
}

} // verus!

//! Trait data for new kitties: sixteen bytes that nobody can predict without
//! the host's seed, and that every node computes alike from the same seed,
//! caller and extrinsic index.

use vstd::prelude::*;
use crate::pallet::Pallet;
use crate::types::{AccountId, Seed};

verus! {

/// The `width` low bytes of `x`, least significant first.
pub open spec fn le_bytes(x: nat, width: nat) -> Seq<u8>
    decreases width,
{
    if width == 0 {
        Seq::empty()
    } else {
        seq![(x % 256) as u8] + le_bytes(x / 256, (width - 1) as nat)
    }
}

/// The bytes that are hashed for one draw: the seed as it is, the caller in
/// eight bytes, then a zero byte where the host gave no extrinsic index, or
/// a one byte and the index in four bytes.
pub open spec fn payload(seed: Seq<u8>, sender: AccountId, extrinsic_index: Option<u32>) -> Seq<
    u8,
> {
    seed + le_bytes(sender as nat, 8) + match extrinsic_index {
        None => seq![0u8],
        Some(n) => seq![1u8] + le_bytes(n as nat, 4),
    }
}

/// The 128-bit BLAKE2b digest of `data`.
pub uninterp spec fn blake2_128_digest(data: Seq<u8>) -> Seq<u8>;

/// The sixteen bytes drawn for `sender` under `seed` and `extrinsic_index`.
pub open spec fn random_bytes(seed: Seq<u8>, sender: AccountId, extrinsic_index: Option<u32>) -> Seq<
    u8,
> {
    blake2_128_digest(payload(seed, sender, extrinsic_index))
}

/// Calls `parity_scale_codec::Encode::encode` on the triple of seed, caller
/// and extrinsic index. Not proved: that the SCALE encoding of the triple is
/// `payload`, that is, the fields one after another, a byte array as its
/// bytes, an integer in little-endian order at its full width, and an
/// `Option` as a zero byte, or a one byte before its content.
#[verifier::external_body]
fn encode_payload(seed: &Seed, sender: &AccountId, extrinsic_index: Option<u32>) -> (bytes: Vec<u8>)
    ensures
        bytes@ == payload(seed@, *sender, extrinsic_index),
{
    parity_scale_codec::Encode::encode(&(seed, sender, extrinsic_index))
}

/// Calls `frame_support::Blake2_128::hash`. Not proved: that the sixteen
/// bytes it returns depend on `data` alone; the contract gives them the name
/// `blake2_128_digest(data)` and says nothing else of them.
#[verifier::external_body]
fn blake2_128(data: &[u8]) -> (digest: [u8; 16])
    ensures
        digest@ == blake2_128_digest(data@),
{
    <frame_support::Blake2_128 as frame_support::StorageHasher>::hash(data)
}

impl Pallet {
    /// Draws sixteen bytes for `sender`: the digest of the seed, the caller
    /// and the extrinsic index. The same three inputs give the same bytes.
    pub fn random_value(seed: &Seed, sender: &AccountId, extrinsic_index: Option<u32>) -> (r: [u8; 16])
        ensures
            r@ == random_bytes(seed@, *sender, extrinsic_index),
    {
        let bytes = encode_payload(seed, sender, extrinsic_index);
        blake2_128(bytes.as_slice())
    }
}

} // verus!

use vstd::prelude::*;
use parity_codec::Encode;
use crate::types::{AccountId, H256};

verus! {

/// The eight little-endian bytes of `n`.
pub open spec fn le_u64(n: u64) -> Seq<u8> {
    seq![
        (n % 256) as u8,
        ((n >> 8u64) % 256) as u8,
        ((n >> 16u64) % 256) as u8,
        ((n >> 24u64) % 256) as u8,
        ((n >> 32u64) % 256) as u8,
        ((n >> 40u64) % 256) as u8,
        ((n >> 48u64) % 256) as u8,
        ((n >> 56u64) % 256) as u8,
    ]
}

/// The input hashed to derive a fresh identity: the seed's bytes, then the
/// caller and the nonce, each as eight little-endian bytes.
pub open spec fn seed_input(seed: Seq<u8>, caller: AccountId, nonce: u64) -> Seq<u8> {
    seed + le_u64(caller) + le_u64(nonce)
}

/// Relies on parity_codec's `Encode` for a tuple: the encodings of its
/// fields one after the other, a `[u8; 32]` as its 32 bytes and a `u64` as
/// its eight little-endian bytes.
#[verifier::external_body]
pub(crate) fn encode_seed_input(seed: &H256, caller: AccountId, nonce: u64) -> (r: Vec<u8>)
    ensures
        r@ == seed_input(seed@, caller, nonce),
{
    (seed, caller, nonce).encode()
}

} // verus!

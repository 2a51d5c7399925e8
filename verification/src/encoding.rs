//! Byte encodings and digests that the match registry takes from outside crates.
//!
//! Nothing in this module is proved: each function states what the outside function
//! it calls is documented to return.

use vstd::prelude::*;
use vstd::bytes::{spec_u32_to_le_bytes, spec_u64_to_le_bytes};

verus! {

/// The first 32 bytes of `randomness`, followed by as many zero bytes as it takes to
/// make 32.
pub open spec fn padded_seed(randomness: Seq<u8>) -> Seq<u8> {
    Seq::new(32, |i: int| if i < randomness.len() { randomness[i] } else { 0u8 })
}

/// The name of a deadline task: the tag, the board's identifier and the little-endian
/// bytes of the turn time it guards, one after the other.
pub open spec fn task_name(tag: Seq<u8>, board_id: Seq<u8>, last_turn: u64) -> Seq<u8> {
    tag + board_id + spec_u64_to_le_bytes(last_turn)
}

/// The name of a numbered task: the tag and the little-endian bytes of the number.
pub open spec fn numbered_name(tag: Seq<u8>, index: u32) -> Seq<u8> {
    tag + spec_u32_to_le_bytes(index)
}

/// The bytes from which a board identifier is hashed: the seed, the little-endian
/// bytes of the sender, and the nonce bytes behind their one-byte length prefix.
pub open spec fn hash_input(seed: Seq<u8>, sender: u64, nonce: Seq<u8>) -> Seq<u8> {
    seed + spec_u64_to_le_bytes(sender) + seq![(4 * nonce.len()) as u8] + nonce
}

/// The Blake2b digest of 256 bits of `data`, as the `hash` of
/// `sp_runtime::traits::BlakeTwo256` computes it.
pub uninterp spec fn blake2_256(data: Seq<u8>) -> [u8; 32];

/// The board identifier hashed from the randomness at hand, the sender and the
/// nonce.
pub open spec fn random_hash(randomness: Seq<u8>, sender: u64, nonce: u64) -> [u8; 32] {
    blake2_256(hash_input(padded_seed(randomness), sender, spec_u64_to_le_bytes(nonce)))
}

/// Decodes a 32-byte seed with `parity_scale_codec::Decode::decode` from
/// `sp_runtime::traits::TrailingZeroInput`, an input that hands out the given bytes
/// and then zeroes without end. Trusted: the seed is the padded input.
#[verifier::external_body]
pub(crate) fn decode_seed(randomness: &[u8]) -> (seed: [u8; 32])
    ensures
        seed@ == padded_seed(randomness@),
{
    <[u8; 32] as parity_scale_codec::Decode>::decode(
        &mut sp_runtime::traits::TrailingZeroInput::new(randomness),
    ).unwrap_or_default()
}

/// Encodes a nonce with `parity_scale_codec::Encode::encode`. Trusted: a `u64` is
/// encoded as its eight little-endian bytes.
#[verifier::external_body]
pub(crate) fn encode_nonce(nonce: u64) -> (bytes: Vec<u8>)
    ensures
        bytes@ == spec_u64_to_le_bytes(nonce),
{
    parity_scale_codec::Encode::encode(&nonce)
}

/// Encodes the tuple of seed, sender and nonce bytes with
/// `parity_scale_codec::Encode::encode`. Trusted: a tuple is encoded as its parts in
/// order, a byte array as its bytes, a `u64` as eight little-endian bytes, and a byte
/// vector shorter than 64 as one byte holding four times its length and then its
/// bytes.
#[verifier::external_body]
pub(crate) fn encode_hash_input(seed: &[u8; 32], sender: u64, nonce: &Vec<u8>) -> (bytes: Vec<u8>)
    requires
        nonce@.len() < 64,
    ensures
        bytes@ == hash_input(seed@, sender, nonce@),
{
    parity_scale_codec::Encode::encode(&(seed, sender, nonce))
}

/// Encodes the tuple of tag, board identifier and turn time with
/// `parity_scale_codec::Encode::encode`. Trusted: a tuple is encoded as its parts in
/// order, a byte array as its bytes, and a `u64` as eight little-endian bytes.
#[verifier::external_body]
pub(crate) fn encode_task_name(tag: &[u8; 8], board_id: &[u8; 32], last_turn: u64) -> (name: Vec<u8>)
    ensures
        name@ == task_name(tag@, board_id@, last_turn),
{
    parity_scale_codec::Encode::encode(&(tag, board_id, last_turn))
}

/// Encodes the pair of tag and number with `parity_scale_codec::Encode::encode`.
/// Trusted: a tuple is encoded as its parts in order, a byte array as its bytes, and
/// a `u32` as four little-endian bytes.
#[verifier::external_body]
pub(crate) fn encode_numbered_name(tag: &[u8; 8], index: u32) -> (name: Vec<u8>)
    ensures
        name@ == numbered_name(tag@, index),
{
    parity_scale_codec::Encode::encode(&(tag, index))
}

/// Hashes with `sp_runtime::traits::BlakeTwo256`, through `Hash::hash`. Trusted: the
/// digest depends on the bytes alone.
#[verifier::external_body]
pub(crate) fn hash_blake2_256(data: &[u8]) -> (digest: [u8; 32])
    ensures
        digest == blake2_256(data@),
{
    <sp_runtime::traits::BlakeTwo256 as sp_runtime::traits::Hash>::hash(data).0
}

} // verus!

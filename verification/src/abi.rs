//! The canonical encoding of a cross-chain transfer request and the
//! request hash derived from it.
//!
//! The hash preimage is the standard fixed-width ABI encoding of the five
//! request fields, in order: each unsigned integer is zero-padded to a
//! 32-byte big-endian word and each 32-byte value is kept as it is.  The
//! request hash is the keccak256 digest of those 160 bytes; it must match
//! the destination contract bit for bit, since it is the on-chain
//! deduplication key.

use vstd::prelude::*;
use ethers_core::abi::Token;
use ethers_core::types::U256;

verus! {

/// Byte `i` (high first, `0 <= i < 16`) of the big-endian representation
/// of `x`.
pub open spec fn be_byte_u128(x: u128, i: int) -> u8 {
    (((x >> (((15 - i) * 8) as u128)) & 0xff) as u8)
}

/// `x` as a 32-byte ABI word: 16 zero bytes, then `x` big-endian.
pub open spec fn abi_word_u128(x: u128) -> Seq<u8> {
    Seq::new(32, |i: int| if i < 16 { 0u8 } else { be_byte_u128(x, i - 16) })
}

/// The ABI encoding of the five request fields, in the order the
/// destination contract hashes them.
pub open spec fn request_encoding(
    committee_id: u128,
    dest_token_address: Seq<u8>,
    amount: u128,
    dest_receiver_address: Seq<u8>,
    request_nonce: u128,
) -> Seq<u8> {
    abi_word_u128(committee_id) + dest_token_address + abi_word_u128(amount)
        + dest_receiver_address + abi_word_u128(request_nonce)
}

/// The keccak256 digest of a byte string.
pub uninterp spec fn keccak_of(bytes: Seq<u8>) -> Seq<u8>;

/// Relies on ethers-core's utils::keccak256: the 32-byte digest depends
/// on the input bytes alone.
#[verifier::external_body]
fn keccak256(bytes: &[u8]) -> (r: [u8; 32])
    ensures
        r@ == keccak_of(bytes@),
{
    ethers_core::utils::keccak256(bytes)
}

/// Relies on ethers-core's abi::encode: a `Uint` token is encoded as its
/// 32-byte big-endian word and a 32-byte `FixedBytes` token as its bytes,
/// the words in argument order.
#[verifier::external_body]
fn abi_encode_request(
    committee_id: u128,
    dest_token_address: &[u8; 32],
    amount: u128,
    dest_receiver_address: &[u8; 32],
    request_nonce: u128,
) -> (r: Vec<u8>)
    ensures
        r@ == request_encoding(
            committee_id,
            dest_token_address@,
            amount,
            dest_receiver_address@,
            request_nonce,
        ),
{
    ethers_core::abi::encode(&[
        Token::Uint(U256::from(committee_id)),
        Token::FixedBytes(dest_token_address.to_vec()),
        Token::Uint(U256::from(amount)),
        Token::FixedBytes(dest_receiver_address.to_vec()),
        Token::Uint(U256::from(request_nonce)),
    ])
}

/// The request hash: keccak256 of the canonical ABI encoding of the five
/// request fields.
pub fn request_hash(
    committee_id: u128,
    dest_token_address: &[u8; 32],
    amount: u128,
    dest_receiver_address: &[u8; 32],
    request_nonce: u128,
) -> (h: [u8; 32])
    ensures
        h@ == keccak_of(request_encoding(
            committee_id,
            dest_token_address@,
            amount,
            dest_receiver_address@,
            request_nonce,
        )),
{
    let bytes = abi_encode_request(
        committee_id,
        dest_token_address,
        amount,
        dest_receiver_address,
        request_nonce,
    );
    keccak256(bytes.as_slice())
}

} // verus!

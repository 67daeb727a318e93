//! Operator identifiers are the BLAKE2b-256 hash of the SCALE encoding of
//! `(random_seed, account, nonce)`.
use parity_scale_codec::Encode;
use vstd::prelude::*;

verus! {

/// The little-endian bytes of `x`, as SCALE encodes a `u64`.
pub open spec fn u64_le_bytes(x: u64) -> Seq<u8> {
    Seq::new(8, |i: int| ((x as int / vstd::arithmetic::power::pow(256, i as nat)) % 256) as u8)
}

/// The SCALE encoding of the tuple `(seed, who, nonce)`: the 32 seed bytes,
/// then both integers in little-endian order.
pub open spec fn registration_encoding(seed: Seq<u8>, who: u64, nonce: u64) -> Seq<u8> {
    seed + u64_le_bytes(who) + u64_le_bytes(nonce)
}

/// What `sp_io::hashing::blake2_256` returns for the given bytes.
pub uninterp spec fn blake2_256_of(data: Seq<u8>) -> Seq<u8>;

/// Calls `Encode::encode` of `parity_scale_codec` on the tuple
/// `(seed, who, nonce)`. SCALE writes a byte array as its raw bytes, a `u64`
/// as its eight little-endian bytes and a tuple as the concatenation of its
/// fields; the contract states exactly that.
#[verifier::external_body]
pub(crate) fn encode_registration(seed: &[u8; 32], who: u64, nonce: u64) -> (r: Vec<u8>)
    ensures
        r@ == registration_encoding(seed@, who, nonce),
{
    (seed, who, nonce).encode()
}

/// Calls `sp_io::hashing::blake2_256`, a 32-byte BLAKE2b hash with no key.
/// The result depends on the bytes alone; it is named `blake2_256_of`.
#[verifier::external_body]
pub(crate) fn blake2_256(data: &[u8]) -> (r: [u8; 32])
    ensures
        r@ == blake2_256_of(data@),
{
    sp_io::hashing::blake2_256(data)
}

} // verus!

use vstd::prelude::*;

verus! {

/// The SHA-256 digest of `data`.
pub uninterp spec fn sha256(data: Seq<u8>) -> Seq<u8>;

/// SHA-256 as the chain computes it (`multiversx_chain_vm::crypto_functions::sha256`).
/// The contract names the digest and states its 32-byte length, which the
/// function's array result fixes; nothing else about the digest is stated.
#[verifier::external_body]
pub(crate) fn sha256_bytes(data: &Vec<u8>) -> (r: Vec<u8>)
    ensures
        r@ == sha256(data@),
        r@.len() == 32,
{
    multiversx_chain_vm::crypto_functions::sha256(data.as_slice()).to_vec()
}

/// Big-endian bytes of a 32-bit number.
pub open spec fn be32(x: u32) -> Seq<u8> {
    seq![
        (x / 16777216) as u8,
        ((x / 65536) % 256) as u8,
        ((x / 256) % 256) as u8,
        (x % 256) as u8,
    ]
}

/// Encodes an address and a percentage the way the contracts serialise an
/// address-percentage pair (`multiversx_sc_codec::top_encode_to_vec_u8_or_panic`
/// on the pair): the 32 address bytes, then the percentage as a big-endian
/// 32-bit number, which is the codec's documented nested format for a byte
/// array and a `usize`.
#[verifier::external_body]
pub(crate) fn encode_address_percentage(address: &Vec<u8>, percentage: usize) -> (r: Vec<u8>)
    requires
        address@.len() == 32,
    ensures
        r@ == address@ + be32(percentage as u32),
{
    let bytes: [u8; 32] = address.as_slice().try_into().unwrap();
    multiversx_sc::codec::top_encode_to_vec_u8_or_panic(&(bytes, percentage))
}

} // verus!

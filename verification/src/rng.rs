use vstd::prelude::*;
use vstd::bytes::{spec_u64_from_le_bytes, spec_u64_to_le_bytes, u64_from_le_bytes, u64_to_le_bytes};
use vstd::slice::slice_subrange;

verus! {

/// The 32-byte collision-resistant digest that the ledger's hashing
/// primitive assigns to a byte sequence; a function of the bytes alone.
pub uninterp spec fn sha256_of(bytes: Seq<u8>) -> Seq<u8>;

/// Relies on anchor_lang::solana_program::hash::hashv: the SHA-256 digest
/// of the concatenated input slices, 32 bytes, a function of the input
/// bytes alone.
#[verifier::external_body]
fn sha256_digest(bytes: &Vec<u8>) -> (digest: Vec<u8>)
    ensures
        digest@ == sha256_of(bytes@),
        digest@.len() == 32,
{
    anchor_lang::solana_program::hash::hashv(&[bytes.as_slice()]).to_bytes().to_vec()
}

/// The entropy preimage for one draw: ordinal-tick bytes followed by
/// wall-clock timestamp bytes, both little endian.
pub open spec fn entropy_preimage(slot: u64, unix_timestamp: u64) -> Seq<u8> {
    spec_u64_to_le_bytes(slot) + spec_u64_to_le_bytes(unix_timestamp)
}

/// The contract's move for the given chain state: the first 8 bytes of the
/// digest of the entropy preimage, read little endian and reduced to 1..=6.
pub open spec fn spec_contract_choice(slot: u64, unix_timestamp: u64) -> u8 {
    (spec_u64_from_le_bytes(sha256_of(entropy_preimage(slot, unix_timestamp)).take(8)) % 6 + 1) as u8
}

/// Draws the contract's move from the supplied chain state. The outcome is
/// a pure function of the two oracle values; it is unpredictable only to a
/// caller that cannot foresee them.
pub fn generate_contract_choice(slot: u64, unix_timestamp: u64) -> (choice: u8)
    ensures
        choice == spec_contract_choice(slot, unix_timestamp),
        1 <= choice <= 6,
{
    let mut preimage = u64_to_le_bytes(slot);
    let mut timestamp_bytes = u64_to_le_bytes(unix_timestamp);
    preimage.append(&mut timestamp_bytes);
    let digest = sha256_digest(&preimage);
    let first8 = slice_subrange(digest.as_slice(), 0, 8);
    let num = u64_from_le_bytes(first8);
    proof {
        assert(first8@ == sha256_of(entropy_preimage(slot, unix_timestamp)).take(8));
    }
    ((num % 6) + 1) as u8
}

} // verus!

//! Wiring of an EdDSA signature check into a plonky2 constraint graph.
//!
//! The library decides which wires of the graph are tied together: the
//! inputs of the hash sub-circuit to the signature and public-key bits, the
//! recompressed bits of a decompressed point to its encoding, and the bit
//! orders that the hash and integer gadgets expect.

mod bits;
mod circuit;
mod eddsa;
mod witness;

pub use bits::{bits_in_le, le_index, le_order, lemma_bits_in_le_involutive};
pub use circuit::{
    connect_all, copy_range, holds, lemma_pairwise_equal, lemma_satisfies_concat, pairwise,
    satisfies, Connection, WireRef,
};
pub use eddsa::{
    hash_input_bits, hash_len, lemma_decompress_round_trip, lemma_hash_reads_signature_and_key,
    lemma_one_source_per_bit, make_verify_circuits, point_decompress, signature_wiring,
    EddsaTargets, VerifyWiring, DIGEST_BITS, POINT_BITS, SIGNATURE_BITS,
};
pub use witness::{
    assignments, bind_signature, bit_value, byte_bits, bytes_to_bits, carries,
    lemma_hash_reads_r_key_message, msb_bit, POINT_BYTES, SIGNATURE_BYTES,
};

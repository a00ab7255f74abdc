use vstd::prelude::*;

use crate::circuit::WireRef;
use crate::circuit::satisfies;
use crate::eddsa::{
    hash_len, lemma_hash_reads_signature_and_key, signature_wiring, EddsaTargets, POINT_BITS,
    SIGNATURE_BITS,
};

verus! {

/// Bytes of a compressed curve point.
pub const POINT_BYTES: usize = 32;

/// Bytes of a signature.
pub const SIGNATURE_BYTES: usize = 64;

/// Bit `j` of byte `x`, counting from the most significant bit.
pub open spec fn msb_bit(x: u8, j: int) -> bool {
    (x >> ((7 - j) as u8)) & 1u8 == 1u8
}

/// The bits of `b`, byte after byte, most significant bit of each byte first.
pub open spec fn byte_bits(b: Seq<u8>) -> Seq<bool> {
    Seq::new(8 * b.len(), |k: int| msb_bit(b[k / 8], k % 8))
}

/// The value that each wire of `wires` is given, index by index.
pub open spec fn assignments(wires: Seq<WireRef>, values: Seq<bool>) -> Seq<(WireRef, bool)>
    recommends
        wires.len() == values.len(),
{
    Seq::new(wires.len(), |i: int| (wires[i], values[i]))
}

/// Splits bytes into bits, most significant bit of each byte first.
pub fn bytes_to_bits(b: &[u8]) -> (r: Vec<bool>)
    requires
        8 * b.len() <= usize::MAX,
    ensures
        r@ == byte_bits(b@),
{
    let mut r: Vec<bool> = Vec::new();
    let mut i: usize = 0;
    while i < b.len()
        invariant
            8 * b.len() <= usize::MAX,
            i <= b.len(),
            r.len() == 8 * i,
            forall|k: int| 0 <= k < r.len() ==> r[k] == msb_bit(b@[k / 8], k % 8),
        decreases b.len() - i,
    {
        let x = b[i];
        let mut j: usize = 0;
        while j < 8
            invariant
                8 * b.len() <= usize::MAX,
                i < b.len(),
                x == b@[i as int],
                j <= 8,
                r.len() == 8 * i + j,
                forall|k: int| 0 <= k < r.len() ==> r[k] == msb_bit(b@[k / 8], k % 8),
            decreases 8 - j,
        {
            proof {
                let k = (8 * i + j) as int;
                assert(k / 8 == i && k % 8 == j) by (nonlinear_arith)
                    requires
                        k == 8 * i + j,
                        j < 8,
                ;
            }
            r.push((x >> (7 - j as u8)) & 1u8 == 1u8);
            j = j + 1;
        }
        i = i + 1;
    }
    assert(r@ =~= byte_bits(b@));
    r
}

/// Appends to `out` the pairs `(wires[i], values[i])`.
fn assign_all(out: &mut Vec<(WireRef, bool)>, wires: &[WireRef], values: &[bool])
    requires
        wires.len() == values.len(),
    ensures
        final(out)@ == old(out)@ + assignments(wires@, values@),
{
    let ghost start = old(out)@;
    let mut i: usize = 0;
    while i < wires.len()
        invariant
            wires.len() == values.len(),
            i <= wires.len(),
            out@ == start + assignments(
                wires@.subrange(0, i as int),
                values@.subrange(0, i as int),
            ),
        decreases wires.len() - i,
    {
        out.push((wires[i], values[i]));
        i = i + 1;
        assert(out@ =~= start + assignments(
            wires@.subrange(0, i as int),
            values@.subrange(0, i as int),
        ));
    }
    assert(wires@.subrange(0, wires.len() as int) =~= wires@);
    assert(values@.subrange(0, values.len() as int) =~= values@);
}

/// The values that a witness gives the targets of a signature check for the
/// message `msg`, the signature `sig` (`R` then `s`) and the public key `pk`:
/// each target gets the matching bit of the bytes, most significant bit of
/// each byte first.
pub fn bind_signature(t: &EddsaTargets, msg: &[u8], sig: &[u8], pk: &[u8]) -> (r: Vec<
    (WireRef, bool),
>)
    requires
        t.msg.len() == 8 * msg.len(),
        t.sig.len() == SIGNATURE_BITS,
        t.pk.len() == POINT_BITS,
        sig.len() == SIGNATURE_BYTES,
        pk.len() == POINT_BYTES,
    ensures
        r@ == assignments(t.msg@, byte_bits(msg@)) + assignments(t.sig@, byte_bits(sig@))
            + assignments(t.pk@, byte_bits(pk@)),
{
    let mut r: Vec<(WireRef, bool)> = Vec::new();
    let msg_bits = bytes_to_bits(msg);
    assign_all(&mut r, t.msg.as_slice(), msg_bits.as_slice());
    let sig_bits = bytes_to_bits(sig);
    assign_all(&mut r, t.sig.as_slice(), sig_bits.as_slice());
    let pk_bits = bytes_to_bits(pk);
    assign_all(&mut r, t.pk.as_slice(), pk_bits.as_slice());
    r
}

/// The field value of a bit.
pub open spec fn bit_value(b: bool) -> int {
    if b { 1 } else { 0 }
}

/// Whether the witness `w` gives each wire of `wires` the matching bit of
/// `bits`.
pub open spec fn carries(w: spec_fn(WireRef) -> int, wires: Seq<WireRef>, bits: Seq<bool>) -> bool {
    wires.len() == bits.len() && forall|i: int|
        0 <= i < wires.len() ==> w(#[trigger] wires[i]) == bit_value(bits[i])
}

/// Once the signature wiring holds and the signature, key and message wires
/// carry the bits of their bytes, the hash sub-circuit reads exactly
/// `R ∥ A ∥ M`: the 32 bytes of `R`, the public key, then the message.
pub proof fn lemma_hash_reads_r_key_message(
    w: spec_fn(WireRef) -> int,
    msg_len: int,
    hash_input: Seq<WireRef>,
    sig: Seq<WireRef>,
    pk: Seq<WireRef>,
    msg_bytes: Seq<u8>,
    sig_bytes: Seq<u8>,
    pk_bytes: Seq<u8>,
)
    requires
        msg_len >= 0,
        hash_input.len() == hash_len(msg_len),
        msg_bytes.len() == msg_len,
        sig_bytes.len() == SIGNATURE_BYTES,
        pk_bytes.len() == POINT_BYTES,
        satisfies(w, signature_wiring(hash_input, sig, pk)),
        carries(w, sig, byte_bits(sig_bytes)),
        carries(w, pk, byte_bits(pk_bytes)),
        carries(w, hash_input.subrange(512, hash_input.len() as int), byte_bits(msg_bytes)),
    ensures
        carries(
            w,
            hash_input,
            byte_bits(sig_bytes.subrange(0, 32)) + byte_bits(pk_bytes) + byte_bits(msg_bytes),
        ),
{
    lemma_hash_reads_signature_and_key(w, hash_input, sig, pk);
    let bits = byte_bits(sig_bytes.subrange(0, 32)) + byte_bits(pk_bytes) + byte_bits(msg_bytes);
    let m = hash_input.subrange(512, hash_input.len() as int);
    assert forall|i: int| 0 <= i < hash_input.len() implies w(#[trigger] hash_input[i])
        == bit_value(bits[i]) by {
        if i < 256 {
            assert(w(hash_input[i]) == w(sig[i]));
            assert(byte_bits(sig_bytes)[i] == byte_bits(sig_bytes.subrange(0, 32))[i]);
        } else if i < 512 {
            assert(w(hash_input[i]) == w(pk[i - 256]));
        } else {
            assert(m[i - 512] == hash_input[i]);
        }
    }
}

} // verus!

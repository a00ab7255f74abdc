use vstd::prelude::*;

use crate::bits::{bits_in_le, le_order};
use crate::circuit::{
    connect_all, copy_range, lemma_pairwise_equal, lemma_satisfies_concat, pairwise, satisfies,
    Connection, WireRef,
};

verus! {

/// Bits of a compressed curve point, and of each half of a signature.
pub const POINT_BITS: usize = 256;

/// Bits of a signature: the compressed point `R`, then the scalar `s`.
pub const SIGNATURE_BITS: usize = 512;

/// Bits of a SHA-512 digest.
pub const DIGEST_BITS: usize = 512;

/// The wires that a caller binds when witnessing a signature check: the
/// message bits, the signature bits (`R` then `s`) and the public-key bits.
#[derive(Clone, Debug)]
pub struct EddsaTargets {
    pub msg: Vec<WireRef>,
    pub sig: Vec<WireRef>,
    pub pk: Vec<WireRef>,
}

/// What the signature check ties together, and the operands it hands to the
/// integer and curve gadgets, each in little-endian byte order.
#[derive(Clone, Debug)]
pub struct VerifyWiring {
    pub targets: EddsaTargets,
    /// Copy constraints from the hash inputs to the bits of `R` and `A`.
    pub connections: Vec<Connection>,
    /// The digest, to be read as the integer that is reduced to `h`.
    pub digest_le: Vec<WireRef>,
    /// The scalar `s` of the signature.
    pub s_le: Vec<WireRef>,
    /// The public key `A`, to be decompressed.
    pub pk_le: Vec<WireRef>,
    /// The point `R` of the signature, to be decompressed.
    pub r_le: Vec<WireRef>,
}

/// Number of input bits of the hash over `R ∥ A ∥ M` for a message of
/// `msg_len` bytes.
pub open spec fn hash_len(msg_len: int) -> int {
    msg_len * 8 + 512
}

/// The copy constraints that make the hash read `R` from its first 256 input
/// bits and the public key from the next 256.
pub open spec fn signature_wiring(
    hash_input: Seq<WireRef>,
    sig: Seq<WireRef>,
    pk: Seq<WireRef>,
) -> Seq<Connection> {
    pairwise(hash_input.subrange(0, 256), sig.subrange(0, 256)) + pairwise(
        hash_input.subrange(256, 512),
        pk,
    )
}

/// Input length of the hash sub-circuit for a message of `msg_len` bytes,
/// or `None` where it does not fit in a `usize`.
pub fn hash_input_bits(msg_len: usize) -> (r: Option<usize>)
    ensures
        hash_len(msg_len as int) <= usize::MAX ==> r == Some(hash_len(msg_len as int) as usize),
        hash_len(msg_len as int) > usize::MAX ==> r.is_none(),
{
    if msg_len > (usize::MAX - 512) / 8 {
        None
    } else {
        Some(msg_len * 8 + 512)
    }
}

/// Plans the EdDSA check `s·G == R + h·A` with `h = hash(R ∥ A ∥ M) mod q`.
///
/// `hash_input` and `digest` are the input bits and the digest of a SHA-512
/// sub-circuit sized for `msg_len` message bytes; `sig` and `pk` are fresh
/// bit wires. The hash reads `R` and `A` through copy constraints, and the
/// message bits are the hash inputs that follow them.
pub fn make_verify_circuits(
    msg_len: usize,
    hash_input: &Vec<WireRef>,
    digest: &Vec<WireRef>,
    sig: &Vec<WireRef>,
    pk: &Vec<WireRef>,
) -> (r: VerifyWiring)
    requires
        hash_input.len() == hash_len(msg_len as int),
        digest.len() == DIGEST_BITS,
        sig.len() == SIGNATURE_BITS,
        pk.len() == POINT_BITS,
    ensures
        r.targets.msg@ == hash_input@.subrange(512, hash_input.len() as int),
        r.targets.sig@ == sig@,
        r.targets.pk@ == pk@,
        r.connections@ == signature_wiring(hash_input@, sig@, pk@),
        r.digest_le@ == le_order(digest@),
        r.s_le@ == le_order(sig@.subrange(256, 512)),
        r.pk_le@ == le_order(pk@),
        r.r_le@ == le_order(sig@.subrange(0, 256)),
{
    let msg = copy_range(hash_input, SIGNATURE_BITS, hash_input.len());

    let mut connections: Vec<Connection> = Vec::new();
    let h_r = copy_range(hash_input, 0, POINT_BITS);
    let h_pk = copy_range(hash_input, POINT_BITS, SIGNATURE_BITS);
    let r_bits = copy_range(sig, 0, POINT_BITS);
    let s_bits = copy_range(sig, POINT_BITS, SIGNATURE_BITS);
    connect_all(&mut connections, h_r.as_slice(), r_bits.as_slice());
    connect_all(&mut connections, h_pk.as_slice(), pk.as_slice());
    assert(connections@ =~= signature_wiring(hash_input@, sig@, pk@));

    let digest_le = bits_in_le(digest.clone());
    let s_le = bits_in_le(s_bits);
    let pk_le = bits_in_le(pk.clone());
    let r_le = bits_in_le(r_bits);

    VerifyWiring {
        targets: EddsaTargets { msg, sig: sig.clone(), pk: pk.clone() },
        connections,
        digest_le,
        s_le,
        pk_le,
        r_le,
    }
}

/// The in-circuit check of a point recovered outside the circuit from its
/// 256-bit encoding `pv`: each bit of the point's recompression
/// `recompressed` is tied to the matching bit of `pv`, so that no witness can
/// supply a point other than the one encoded.
pub fn point_decompress(pv: &Vec<WireRef>, recompressed: &Vec<WireRef>) -> (r: Vec<Connection>)
    requires
        pv.len() == POINT_BITS,
        recompressed.len() == POINT_BITS,
    ensures
        r@ == pairwise(pv@, recompressed@),
{
    let mut r: Vec<Connection> = Vec::new();
    connect_all(&mut r, pv.as_slice(), recompressed.as_slice());
    r
}

/// A witness meets the check of a decompressed point exactly when the
/// recompressed point reproduces every bit of the encoding: a point whose
/// recompression differs in any bit leaves the constraints unsatisfiable.
pub proof fn lemma_decompress_round_trip(
    w: spec_fn(WireRef) -> int,
    pv: Seq<WireRef>,
    recompressed: Seq<WireRef>,
)
    requires
        pv.len() == POINT_BITS,
        recompressed.len() == POINT_BITS,
    ensures
        satisfies(w, pairwise(pv, recompressed)) <==> forall|i: int|
            0 <= i < POINT_BITS ==> w(#[trigger] pv[i]) == w(recompressed[i]),
{
    lemma_pairwise_equal(w, pv, recompressed);
}

/// A witness meets the signature wiring exactly when the hash reads the
/// signature's `R` from its first 256 input bits and the public key from the
/// next 256.
pub proof fn lemma_hash_reads_signature_and_key(
    w: spec_fn(WireRef) -> int,
    hash_input: Seq<WireRef>,
    sig: Seq<WireRef>,
    pk: Seq<WireRef>,
)
    requires
        hash_input.len() >= 512,
        sig.len() == SIGNATURE_BITS,
        pk.len() == POINT_BITS,
    ensures
        satisfies(w, signature_wiring(hash_input, sig, pk)) <==> (forall|i: int|
            0 <= i < 256 ==> w(#[trigger] hash_input[i]) == w(sig[i])) && (forall|i: int|
            256 <= i < 512 ==> w(#[trigger] hash_input[i]) == w(pk[i - 256])),
{
    let a = hash_input.subrange(0, 256);
    let b = hash_input.subrange(256, 512);
    let s = sig.subrange(0, 256);
    lemma_satisfies_concat(w, pairwise(a, s), pairwise(b, pk));
    lemma_pairwise_equal(w, a, s);
    lemma_pairwise_equal(w, b, pk);
    if satisfies(w, signature_wiring(hash_input, sig, pk)) {
        assert forall|i: int| 256 <= i < 512 implies w(#[trigger] hash_input[i]) == w(
            pk[i - 256],
        ) by {
            assert(b[i - 256] == hash_input[i]);
        }
        assert forall|i: int| 0 <= i < 256 implies w(#[trigger] hash_input[i]) == w(sig[i]) by {
            assert(a[i] == hash_input[i]);
        }
    }
    if (forall|i: int| 0 <= i < 256 ==> w(#[trigger] hash_input[i]) == w(sig[i])) && (forall|
        i: int,
    |
        256 <= i < 512 ==> w(#[trigger] hash_input[i]) == w(pk[i - 256])) {
        assert forall|i: int| 0 <= i < 256 implies w(#[trigger] a[i]) == w(s[i]) by {
            assert(w(hash_input[i]) == w(sig[i]));
        }
        assert forall|i: int| 0 <= i < 256 implies w(#[trigger] b[i]) == w(pk[i]) by {
            assert(w(hash_input[i + 256]) == w(pk[i + 256 - 256]));
        }
    }
}

/// Each bit of `R` and of the public key has exactly one source: where those
/// bits are distinct wires, no two constraints of the signature wiring end at
/// the same wire.
pub proof fn lemma_one_source_per_bit(hash_input: Seq<WireRef>, sig: Seq<WireRef>, pk: Seq<WireRef>)
    requires
        hash_input.len() >= 512,
        sig.len() == SIGNATURE_BITS,
        pk.len() == POINT_BITS,
        (sig.subrange(0, 256) + pk).no_duplicates(),
    ensures
        signature_wiring(hash_input, sig, pk).len() == 512,
        forall|j: int, k: int|
            0 <= j < k < 512 ==> #[trigger] signature_wiring(hash_input, sig, pk)[j].right
                != #[trigger] signature_wiring(hash_input, sig, pk)[k].right,
{
    let cs = signature_wiring(hash_input, sig, pk);
    let targets = sig.subrange(0, 256) + pk;
    assert forall|k: int| 0 <= k < 512 implies #[trigger] cs[k].right == targets[k] by {}
    assert forall|j: int, k: int| 0 <= j < k < 512 implies #[trigger] cs[j].right
        != #[trigger] cs[k].right by {
        assert(cs[j].right == targets[j]);
        assert(cs[k].right == targets[k]);
    }
}

} // verus!

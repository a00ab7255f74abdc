use vstd::prelude::*;

verus! {

/// Position in the big-endian sequence of length `n` of the bit that lands at
/// position `k` once the byte order is reversed: bytes swap places, the bits
/// of each byte keep theirs.
pub open spec fn le_index(n: int, k: int) -> int {
    n - 8 * (k / 8) - 8 + k % 8
}

/// The sequence `s` with its byte order reversed.
pub open spec fn le_order<T>(s: Seq<T>) -> Seq<T> {
    Seq::new(s.len(), |k: int| s[le_index(s.len() as int, k)])
}

/// Reorders a byte-aligned bit sequence from big-endian to little-endian byte
/// order. The bits inside each byte keep their order; no constraint is added.
pub fn bits_in_le<T: Copy>(input: Vec<T>) -> (r: Vec<T>)
    requires
        input.len() % 8 == 0,
    ensures
        r@ == le_order(input@),
{
    let n = input.len();
    let bytes = n / 8;
    let mut r: Vec<T> = Vec::new();
    let mut i: usize = 0;
    while i < bytes
        invariant
            n == input.len(),
            bytes * 8 == n,
            i <= bytes,
            r.len() == 8 * i,
            forall|k: int| 0 <= k < r.len() ==> r[k] == input[le_index(n as int, k)],
        decreases bytes - i,
    {
        let base: usize = (bytes - 1 - i) * 8;
        let mut j: usize = 0;
        while j < 8
            invariant
                n == input.len(),
                bytes * 8 == n,
                i < bytes,
                base == (bytes - 1 - i) * 8,
                j <= 8,
                r.len() == 8 * i + j,
                forall|k: int| 0 <= k < r.len() ==> r[k] == input[le_index(n as int, k)],
            decreases 8 - j,
        {
            proof {
                let k = (8 * i + j) as int;
                assert(k / 8 == i && k % 8 == j) by (nonlinear_arith)
                    requires
                        k == 8 * i + j,
                        j < 8,
                ;
                assert(base + j < n) by (nonlinear_arith)
                    requires
                        base == (bytes - 1 - i) * 8,
                        i < bytes,
                        j < 8,
                        bytes * 8 == n,
                ;
            }
            r.push(input[base + j]);
            j = j + 1;
        }
        i = i + 1;
    }
    assert(r@ =~= le_order(input@));
    r
}

/// Reversing the byte order twice gives back the original sequence.
pub proof fn lemma_bits_in_le_involutive<T>(s: Seq<T>)
    requires
        s.len() % 8 == 0,
    ensures
        le_order(le_order(s)) == s,
{
    let n = s.len() as int;
    assert forall|k: int| 0 <= k < n implies #[trigger] le_order(le_order(s))[k] == s[k] by {
        lemma_le_index_involutive(n, k);
    }
    assert(le_order(le_order(s)) =~= s);
}

proof fn lemma_le_index_involutive(n: int, k: int)
    requires
        n >= 0,
        n % 8 == 0,
        0 <= k < n,
    ensures
        0 <= le_index(n, k) < n,
        le_index(n, le_index(n, k)) == k,
{
    let m = le_index(n, k);
    assert(0 <= m < n && m / 8 == n / 8 - 1 - k / 8 && m % 8 == k % 8) by (nonlinear_arith)
        requires
            n % 8 == 0,
            0 <= k < n,
            m == n - 8 * (k / 8) - 8 + k % 8,
    ;
    assert(le_index(n, m) == k) by (nonlinear_arith)
        requires
            n % 8 == 0,
            m / 8 == n / 8 - 1 - k / 8,
            m % 8 == k % 8,
            0 <= k,
    ;
}

} // verus!

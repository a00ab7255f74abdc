use vstd::prelude::*;

verus! {

/// A wire of the constraint graph, named by plain indices: either a fixed
/// cell of the witness grid or a floating ("virtual") value holder.
#[derive(Clone, Copy, Debug, PartialEq, Eq, Structural)]
pub enum WireRef {
    Wire { row: usize, column: usize },
    Virtual { index: usize },
}

/// A copy constraint: both wires must carry the same value.
#[derive(Clone, Copy, Debug, PartialEq, Eq, Structural)]
pub struct Connection {
    pub left: WireRef,
    pub right: WireRef,
}

/// Whether an assignment of values to wires meets one copy constraint.
pub open spec fn holds(w: spec_fn(WireRef) -> int, c: Connection) -> bool {
    w(c.left) == w(c.right)
}

/// Whether an assignment of values to wires meets every copy constraint of
/// `cs`.
pub open spec fn satisfies(w: spec_fn(WireRef) -> int, cs: Seq<Connection>) -> bool {
    forall|i: int| 0 <= i < cs.len() ==> holds(w, #[trigger] cs[i])
}

/// The constraints that tie `a[i]` to `b[i]` for each `i`, in order.
pub open spec fn pairwise(a: Seq<WireRef>, b: Seq<WireRef>) -> Seq<Connection>
    recommends
        a.len() == b.len(),
{
    Seq::new(a.len(), |i: int| Connection { left: a[i], right: b[i] })
}

/// Appends to `out` one constraint per index, tying `a[i]` to `b[i]`.
pub fn connect_all(out: &mut Vec<Connection>, a: &[WireRef], b: &[WireRef])
    requires
        a.len() == b.len(),
    ensures
        final(out)@ == old(out)@ + pairwise(a@, b@),
{
    let ghost start = old(out)@;
    let mut i: usize = 0;
    while i < a.len()
        invariant
            a.len() == b.len(),
            i <= a.len(),
            out@ == start + pairwise(a@.subrange(0, i as int), b@.subrange(0, i as int)),
        decreases a.len() - i,
    {
        out.push(Connection { left: a[i], right: b[i] });
        i = i + 1;
        assert(out@ =~= start + pairwise(a@.subrange(0, i as int), b@.subrange(0, i as int)));
    }
    assert(a@.subrange(0, a.len() as int) =~= a@);
    assert(b@.subrange(0, b.len() as int) =~= b@);
}

/// A witness meets a batch of pairwise constraints exactly when it gives
/// equal values to the two sides at every index.
pub proof fn lemma_pairwise_equal(w: spec_fn(WireRef) -> int, a: Seq<WireRef>, b: Seq<WireRef>)
    requires
        a.len() == b.len(),
    ensures
        satisfies(w, pairwise(a, b)) <==> forall|i: int|
            0 <= i < a.len() ==> w(#[trigger] a[i]) == w(b[i]),
{
    if satisfies(w, pairwise(a, b)) {
        assert forall|i: int| 0 <= i < a.len() implies w(#[trigger] a[i]) == w(b[i]) by {
            assert(holds(w, pairwise(a, b)[i]));
        }
    }
}

/// Satisfying two batches of constraints in a row is satisfying each.
pub proof fn lemma_satisfies_concat(w: spec_fn(WireRef) -> int, x: Seq<Connection>, y: Seq<Connection>)
    ensures
        satisfies(w, x + y) <==> satisfies(w, x) && satisfies(w, y),
{
    if satisfies(w, x + y) {
        assert forall|i: int| 0 <= i < x.len() implies holds(w, #[trigger] x[i]) by {
            assert((x + y)[i] == x[i]);
        }
        assert forall|i: int| 0 <= i < y.len() implies holds(w, #[trigger] y[i]) by {
            assert((x + y)[x.len() + i] == y[i]);
        }
    }
    if satisfies(w, x) && satisfies(w, y) {
        assert forall|i: int| 0 <= i < (x + y).len() implies holds(w, #[trigger] (x + y)[i]) by {
            if i < x.len() {
                assert(holds(w, x[i]));
            } else {
                assert(holds(w, y[i - x.len()]));
            }
        }
    }
}

/// Copies `v[lo..hi]` into a new vector.
pub fn copy_range<T: Copy>(v: &Vec<T>, lo: usize, hi: usize) -> (r: Vec<T>)
    requires
        lo <= hi <= v.len(),
    ensures
        r@ == v@.subrange(lo as int, hi as int),
{
    let mut r: Vec<T> = Vec::new();
    let mut i: usize = lo;
    while i < hi
        invariant
            lo <= i <= hi <= v.len(),
            r@ == v@.subrange(lo as int, i as int),
        decreases hi - i,
    {
        r.push(v[i]);
        i = i + 1;
        assert(r@ =~= v@.subrange(lo as int, i as int));
    }
    r
}

} // verus!

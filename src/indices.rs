use vstd::prelude::*;

verus! {

/// The positions below `n` at which `p` holds, in increasing order.
pub open spec fn indices_where(p: spec_fn(int) -> bool, n: int) -> Seq<int>
    decreases n,
{
    if n <= 0 {
        Seq::empty()
    } else {
        let r = indices_where(p, n - 1);
        if p(n - 1) {
            r.push(n - 1)
        } else {
            r
        }
    }
}

/// The first position below `n` at which `p` holds.
pub open spec fn first_where(p: spec_fn(int) -> bool, n: int) -> Option<int> {
    let m = indices_where(p, n);
    if m.len() == 0 {
        None
    } else {
        Some(m[0])
    }
}

/// Each position listed is below `n` and satisfies `p`, the list increases, and every
/// position below `n` that satisfies `p` is listed.
pub proof fn lemma_indices_where(p: spec_fn(int) -> bool, n: int)
    ensures
        forall|k: int|
            0 <= k < indices_where(p, n).len() ==> 0 <= #[trigger] indices_where(p, n)[k] < n
                && p(indices_where(p, n)[k]),
        forall|k: int, l: int|
            0 <= k < l < indices_where(p, n).len() ==> #[trigger] indices_where(p, n)[k]
                < #[trigger] indices_where(p, n)[l],
        forall|i: int| 0 <= i < n && #[trigger] p(i) ==> indices_where(p, n).contains(i),
    decreases n,
{
    if n > 0 {
        lemma_indices_where(p, n - 1);
        let r = indices_where(p, n - 1);
        if p(n - 1) {
            assert forall|i: int| 0 <= i < n && #[trigger] p(i) implies indices_where(
                p,
                n,
            ).contains(i) by {
                if i == n - 1 {
                    assert(indices_where(p, n)[r.len() as int] == i);
                } else {
                    let k = choose|k: int| 0 <= k < r.len() && r[k] == i;
                    assert(indices_where(p, n)[k] == i);
                }
            }
        }
    }
}

/// No position is listed exactly when `p` holds nowhere below `n`.
pub proof fn lemma_indices_where_empty(p: spec_fn(int) -> bool, n: int)
    ensures
        indices_where(p, n).len() == 0 <==> forall|i: int| 0 <= i < n ==> !#[trigger] p(i),
{
    lemma_indices_where(p, n);
    if indices_where(p, n).len() > 0 {
        let i = indices_where(p, n)[0];
        assert(0 <= i < n && p(i));
    }
}

/// Two predicates that agree below `n` list the same positions.
pub proof fn lemma_indices_where_agree(p: spec_fn(int) -> bool, q: spec_fn(int) -> bool, n: int)
    requires
        forall|i: int| 0 <= i < n ==> #[trigger] p(i) == q(i),
    ensures
        indices_where(p, n) == indices_where(q, n),
    decreases n,
{
    if n > 0 {
        lemma_indices_where_agree(p, q, n - 1);
    }
}

/// The positions below `n + 1` where `p` fails at `n` are those below `n`.
pub proof fn lemma_indices_where_skip(p: spec_fn(int) -> bool, n: int)
    requires
        0 <= n,
        !p(n),
    ensures
        indices_where(p, n + 1) == indices_where(p, n),
{
}

} // verus!

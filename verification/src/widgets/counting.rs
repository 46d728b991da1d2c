//! Counting over a history of received frames, and summing the counts of a map.
use vstd::prelude::*;
use crate::events::CanPacketIn;

verus! {

/// How many frames of `ps` satisfy `f`.
pub open spec fn count_where(ps: Seq<CanPacketIn>, f: spec_fn(CanPacketIn) -> bool) -> nat
    decreases ps.len(),
{
    if ps.len() == 0 {
        0
    } else {
        count_where(ps.drop_last(), f) + if f(ps.last()) {
            1nat
        } else {
            0nat
        }
    }
}

/// The position of the last frame of `ps` that satisfies `f`, or -1 when none does.
pub open spec fn last_where(ps: Seq<CanPacketIn>, f: spec_fn(CanPacketIn) -> bool) -> int
    decreases ps.len(),
{
    if ps.len() == 0 {
        -1
    } else if f(ps.last()) {
        ps.len() - 1
    } else {
        last_where(ps.drop_last(), f)
    }
}

/// No more frames satisfy `f` than there are frames; some do exactly when
/// there is a last one that does, and that one satisfies `f`.
pub proof fn lemma_count_where(ps: Seq<CanPacketIn>, f: spec_fn(CanPacketIn) -> bool)
    ensures
        count_where(ps, f) <= ps.len(),
        count_where(ps, f) > 0 <==> last_where(ps, f) >= 0,
        last_where(ps, f) < ps.len(),
        last_where(ps, f) >= 0 ==> f(ps[last_where(ps, f)]),
    decreases ps.len(),
{
    if ps.len() > 0 {
        lemma_count_where(ps.drop_last(), f);
    }
}

/// The sum of the values of `m` at the keys in `keys`.
pub open spec fn sum_over(m: Map<u64, u64>, keys: Set<u64>) -> int
    decreases keys.len(),
    when keys.finite()
{
    if keys.len() > 0 {
        let k = keys.choose();
        m[k] + sum_over(m, keys.remove(k))
    } else {
        0
    }
}

/// The sum of all the values of `m`.
pub open spec fn sum_values(m: Map<u64, u64>) -> int {
    sum_over(m, m.dom())
}

/// Any key can be taken out of the sum first.
pub proof fn lemma_sum_over_remove(m: Map<u64, u64>, keys: Set<u64>, a: u64)
    requires
        keys.finite(),
        keys.contains(a),
    ensures
        sum_over(m, keys) == m[a] + sum_over(m, keys.remove(a)),
    decreases keys.len(),
{
    let c = keys.choose();
    if c != a {
        lemma_sum_over_remove(m, keys.remove(c), a);
        lemma_sum_over_remove(m, keys.remove(a), c);
        assert(keys.remove(c).remove(a) =~= keys.remove(a).remove(c));
    }
}

/// Two maps that agree on `keys` have the same sum over them.
pub proof fn lemma_sum_over_agree(m1: Map<u64, u64>, m2: Map<u64, u64>, keys: Set<u64>)
    requires
        keys.finite(),
        forall|k: u64| #[trigger] keys.contains(k) ==> m1[k] == m2[k],
    ensures
        sum_over(m1, keys) == sum_over(m2, keys),
    decreases keys.len(),
{
    if keys.len() > 0 {
        let c = keys.choose();
        lemma_sum_over_agree(m1, m2, keys.remove(c));
    }
}

/// Setting the value at `k` to `v` changes the sum by `v` minus the old value
/// (zero when `k` was absent).
pub proof fn lemma_sum_values_insert(m: Map<u64, u64>, k: u64, v: u64)
    requires
        m.dom().finite(),
    ensures
        sum_values(m.insert(k, v)) == sum_values(m) + v - (if m.contains_key(k) {
            m[k] as int
        } else {
            0
        }),
{
    let n = m.insert(k, v);
    lemma_sum_over_remove(n, n.dom(), k);
    assert(n.dom().remove(k) =~= m.dom().remove(k));
    lemma_sum_over_agree(n, m, m.dom().remove(k));
    if m.contains_key(k) {
        lemma_sum_over_remove(m, m.dom(), k);
    } else {
        assert(m.dom().remove(k) =~= m.dom());
    }
}

} // verus!

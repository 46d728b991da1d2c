//! Listing the contents of an ordered map in key order.
use vstd::prelude::*;
use std::collections::BTreeMap;
use vstd::std_specs::btree::increasing_seq;
use vstd::std_specs::iter::IteratorSpec;
use vstd::std_specs::cmp::OrdSpec;

verus! {

/// `s` lists every entry of `m` exactly once, in increasing key order.
pub open spec fn lists_in_key_order<K, V>(m: Map<K, V>, s: Seq<(K, V)>) -> bool {
    &&& s.len() == m.dom().len()
    &&& forall|i: int| 0 <= i < s.len() ==> #[trigger] m.contains_key(s[i].0) && m[s[i].0] == s[i].1
    &&& forall|k: K| #[trigger] m.contains_key(k) ==> exists|i: int| 0 <= i < s.len() && s[i].0 == k
    &&& increasing_seq(s.map_values(|p: (K, V)| p.0))
}

/// The entries of `m` in increasing key order.
pub fn pairs_in_key_order<K: Copy + Ord, V: Copy>(m: &BTreeMap<K, V>) -> (v: Vec<(K, V)>)
    requires
        vstd::laws_cmp::obeys_cmp::<K>(),
    ensures
        lists_in_key_order(m@, v@),
{
    let iter = m.iter();
    let ghost r = iter.remaining();
    proof {
        broadcast use vstd::std_specs::btree::axiom_key_obeys_cmp_spec_meaning;
        broadcast use vstd::std_specs::btree::axiom_spec_btree_map_iter;
        assert(vstd::std_specs::btree::key_obeys_cmp_spec::<K>());
        assert(r == vstd::std_specs::btree::spec_btree_map_iter(m).remaining());
    }
    let mut v: Vec<(K, V)> = Vec::new();
    for p in it: iter
        invariant
            it.seq() == r,
            v@.len() == it.index(),
            forall|i: int| 0 <= i < it.index() ==> v@[i] == (*r[i].0, *r[i].1),
    {
        v.push((*p.0, *p.1));
    }
    proof {
        broadcast use vstd::std_specs::btree::axiom_spec_btree_map_iter;
        assert(v@.len() == r.len());
        assert forall|i: int| 0 <= i < v@.len() implies #[trigger] m@.contains_key(v@[i].0)
            && m@[v@[i].0] == v@[i].1 by {
            assert(m@.contains_key(*r[i].0));
        }
        assert forall|k: K| #[trigger] m@.contains_key(k) implies exists|i: int|
            0 <= i < v@.len() && v@[i].0 == k by {
            assert(r.contains((&k, &m@[k])));
            let j = choose|j: int| 0 <= j < r.len() && r[j] == (&k, &m@[k]);
            assert(v@[j].0 == k);
        }
        assert(v@.map_values(|p: (K, V)| p.0) =~= r.map_values(|kv: (&K, &V)| *kv.0));
    }
    v
}

/// The keys of `s` strictly increase.
pub open spec fn keys_increase_u32<V>(s: Seq<(u32, V)>) -> bool {
    forall|i: int, j: int| 0 <= i < j < s.len() ==> s[i].0 < s[j].0
}

/// The keys of `s` strictly increase.
pub open spec fn keys_increase_u64<V>(s: Seq<(u64, V)>) -> bool {
    forall|i: int, j: int| 0 <= i < j < s.len() ==> s[i].0 < s[j].0
}

/// For integer keys, increasing in the order of `Ord` is increasing in `<`.
pub proof fn lemma_increasing_u32<V>(s: Seq<(u32, V)>)
    requires
        increasing_seq(s.map_values(|p: (u32, V)| p.0)),
    ensures
        keys_increase_u32(s),
{
    broadcast use vstd::std_specs::btree::axiom_increasing_seq_meaning;
    broadcast use vstd::laws_cmp::group_laws_cmp;
    assert(vstd::laws_cmp::obeys_cmp::<u32>());
    let ks = s.map_values(|p: (u32, V)| p.0);
    assert forall|i: int, j: int| 0 <= i < j < s.len() implies s[i].0 < s[j].0 by {
        assert(ks[i] == s[i].0 && ks[j] == s[j].0);
        assert(ks[i].cmp_spec(&ks[j]) is Less);
    }
}

/// For integer keys, increasing in the order of `Ord` is increasing in `<`.
pub proof fn lemma_increasing_u64<V>(s: Seq<(u64, V)>)
    requires
        increasing_seq(s.map_values(|p: (u64, V)| p.0)),
    ensures
        keys_increase_u64(s),
{
    broadcast use vstd::std_specs::btree::axiom_increasing_seq_meaning;
    broadcast use vstd::laws_cmp::group_laws_cmp;
    assert(vstd::laws_cmp::obeys_cmp::<u64>());
    let ks = s.map_values(|p: (u64, V)| p.0);
    assert forall|i: int, j: int| 0 <= i < j < s.len() implies s[i].0 < s[j].0 by {
        assert(ks[i] == s[i].0 && ks[j] == s[j].0);
        assert(ks[i].cmp_spec(&ks[j]) is Less);
    }
}

} // verus!

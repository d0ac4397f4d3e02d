//! Facts about ordered maps keyed by block number: the keys obey the order
//! that the map's specification assumes, and the map yields its entries in
//! increasing order of key.

use vstd::prelude::*;
use vstd::std_specs::btree::{axiom_increasing_seq_meaning, increasing_seq, key_obeys_cmp_spec};
use vstd::std_specs::cmp::OrdSpec;

verus! {

/// Block numbers obey the order that ordered maps are specified for.
pub proof fn lemma_u64_keys_ordered()
    ensures
        key_obeys_cmp_spec::<u64>(),
        vstd::laws_cmp::obeys_cmp::<u64>(),
{
    broadcast use vstd::laws_cmp::group_laws_cmp;
}

/// The entries of an ordered map as its iterator yields them come in
/// strictly increasing order of key.
pub proof fn lemma_entries_increasing<V>(s: Seq<(&u64, &V)>)
    requires
        increasing_seq(s.map_values(|kv: (&u64, &V)| *kv.0)),
    ensures
        forall|i: int, j: int| 0 <= i < j < s.len() ==> *s[i].0 < *s[j].0,
{
    broadcast use vstd::laws_cmp::group_laws_cmp;
    let ks = s.map_values(|kv: (&u64, &V)| *kv.0);
    axiom_increasing_seq_meaning::<u64>(ks);
    assert forall|i: int, j: int| 0 <= i < j < s.len() implies *s[i].0 < *s[j].0 by {
        assert(ks[i] == *s[i].0);
        assert(ks[j] == *s[j].0);
        assert(ks[i].cmp_spec(&ks[j]) is Less);
    }
}

} // verus!

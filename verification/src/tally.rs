use std::collections::HashMap;
use vstd::prelude::*;
use vstd::std_specs::iter::IteratorSpec;

verus! {

/// The entries of `m` whose key is at least `floor`.
pub open spec fn keep_from<V>(m: Map<u64, V>, floor: u64) -> Map<u64, V> {
    m.restrict(Set::new(|k: u64| k >= floor))
}

/// Drops every entry of `m` whose key is below `floor`.
pub fn retain_from<V>(m: &mut HashMap<u64, V>, floor: u64)
    ensures
        final(m)@ == keep_from(old(m)@, floor),
{
    let mut stale: Vec<u64> = Vec::new();
    let ghost keys = m@.dom();
    proof {
        assert forall|k: u64| #[trigger] keys.contains(k) implies m.keys().remaining().unref().to_set().contains(k) by {}
    }
    for k in it: m.keys()
        invariant
            keys == m@.dom(),
            forall|i: int| 0 <= i < stale@.len() ==> #[trigger] stale@[i] < floor && m@.contains_key(stale@[i]),
            forall|k: u64| #[trigger] keys.contains(k) && k < floor ==> stale@.contains(k)
                || exists|i: int| it.index() <= i < it.seq().len() && *it.seq()[i] == k,
    {
        let ghost before = stale@;
        let ghost idx = it.index();
        if *k < floor {
            stale.push(*k);
        }
        proof {
            assert forall|kk: u64| #[trigger] keys.contains(kk) && kk < floor implies stale@.contains(kk)
                || exists|i: int| idx + 1 <= i < it.seq().len() && *it.seq()[i] == kk by {
                if before.contains(kk) {
                    let w = choose|w: int| 0 <= w < before.len() && before[w] == kk;
                    assert(stale@[w] == kk);
                } else {
                    let i = choose|i: int| idx <= i < it.seq().len() && *it.seq()[i] == kk;
                    if i == idx {
                        assert(stale@[stale@.len() - 1] == kk);
                    }
                }
            }
        }
    }
    let ghost orig = m@;
    let mut j: usize = 0;
    while j < stale.len()
        invariant
            j <= stale@.len(),
            forall|i: int| 0 <= i < stale@.len() ==> #[trigger] stale@[i] < floor && orig.contains_key(stale@[i]),
            forall|k: u64| #[trigger] orig.contains_key(k) && k < floor ==> stale@.contains(k),
            m@ == orig.remove_keys(stale@.subrange(0, j as int).to_set()),
        decreases stale.len() - j,
    {
        let k = stale[j];
        m.remove(&k);
        proof {
            let pre = stale@.subrange(0, j as int);
            assert(stale@.subrange(0, j + 1) == pre.push(k));
            pre.lemma_push_to_set_commute(k);
            assert(m@ == orig.remove_keys(stale@.subrange(0, j + 1).to_set()));
        }
        j = j + 1;
    }
    proof {
        assert(stale@.subrange(0, j as int) == stale@);
        assert(m@ == keep_from(orig, floor));
    }
}

} // verus!

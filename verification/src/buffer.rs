use std::collections::BTreeMap;
use vstd::prelude::*;
use vstd::std_specs::iter::IteratorSpec;
use crate::types::NetworkPackage;

verus! {

/// How a package's view stands to the current view.
#[derive(Clone, Copy, Debug, PartialEq, Eq, Structural)]
pub enum ViewClass {
    /// More than one view behind: dropped.
    Stale,
    /// Ahead of the current view: kept for later.
    Future,
    /// The current view or the one before it: processed now.
    Current,
}

pub open spec fn spec_classify(view: u64, current_view: u64) -> ViewClass {
    if view < current_view - 1 {
        ViewClass::Stale
    } else if view > current_view {
        ViewClass::Future
    } else {
        ViewClass::Current
    }
}

/// Tells how a package of `view` is to be handled while the voter is in `current_view`.
pub fn classify_view(view: u64, current_view: u64) -> (c: ViewClass)
    requires
        current_view >= 1,
    ensures
        c == spec_classify(view, current_view),
{
    if view < current_view - 1 {
        ViewClass::Stale
    } else if view > current_view {
        ViewClass::Future
    } else {
        ViewClass::Current
    }
}

/// The packages held for `view`, in arrival order.
pub open spec fn held_for(m: Map<u64, Seq<NetworkPackage>>, view: int) -> Seq<NetworkPackage> {
    if 0 <= view && m.contains_key(view as u64) {
        m[view as u64]
    } else {
        Seq::empty()
    }
}

/// The entries of `m` for views after `view`.
pub open spec fn held_after(m: Map<u64, Seq<NetworkPackage>>, view: u64) -> Map<u64, Seq<NetworkPackage>> {
    m.restrict(Set::new(|k: u64| k > view))
}

/// Packages that arrived for views the voter has not reached yet, by view.
pub struct PackageBuffer {
    pending: BTreeMap<u64, Vec<NetworkPackage>>,
}

impl View for PackageBuffer {
    type V = Map<u64, Seq<NetworkPackage>>;

    closed spec fn view(&self) -> Map<u64, Seq<NetworkPackage>> {
        self.pending@.map_values(|v: Vec<NetworkPackage>| v@)
    }
}

/// Drops every entry of `m` whose key is at most `view`.
fn retain_after(m: &mut BTreeMap<u64, Vec<NetworkPackage>>, view: u64)
    ensures
        final(m)@ == old(m)@.restrict(Set::new(|k: u64| k > view)),
{
    let mut done: Vec<u64> = Vec::new();
    let ghost keys = m@.dom();
    proof {
        assert forall|k: u64| #[trigger] keys.contains(k) implies m.keys().remaining().unref().to_set().contains(k) by {}
    }
    for k in it: m.keys()
        invariant
            keys == m@.dom(),
            forall|i: int| 0 <= i < done@.len() ==> #[trigger] done@[i] <= view && m@.contains_key(done@[i]),
            forall|k: u64| #[trigger] keys.contains(k) && k <= view ==> done@.contains(k)
                || exists|i: int| it.index() <= i < it.seq().len() && *it.seq()[i] == k,
    {
        let ghost before = done@;
        let ghost idx = it.index();
        if *k <= view {
            done.push(*k);
        }
        proof {
            assert forall|kk: u64| #[trigger] keys.contains(kk) && kk <= view implies done@.contains(kk)
                || exists|i: int| idx + 1 <= i < it.seq().len() && *it.seq()[i] == kk by {
                if before.contains(kk) {
                    let w = choose|w: int| 0 <= w < before.len() && before[w] == kk;
                    assert(done@[w] == kk);
                } else {
                    let i = choose|i: int| idx <= i < it.seq().len() && *it.seq()[i] == kk;
                    if i == idx {
                        assert(done@[done@.len() - 1] == kk);
                    }
                }
            }
        }
    }
    let ghost orig = m@;
    let mut j: usize = 0;
    while j < done.len()
        invariant
            j <= done@.len(),
            forall|i: int| 0 <= i < done@.len() ==> #[trigger] done@[i] <= view && orig.contains_key(done@[i]),
            forall|k: u64| #[trigger] orig.contains_key(k) && k <= view ==> done@.contains(k),
            m@ == orig.remove_keys(done@.subrange(0, j as int).to_set()),
        decreases done.len() - j,
    {
        let k = done[j];
        m.remove(&k);
        proof {
            let pre = done@.subrange(0, j as int);
            assert(done@.subrange(0, j + 1) == pre.push(k));
            pre.lemma_push_to_set_commute(k);
        }
        j = j + 1;
    }
    proof {
        assert(done@.subrange(0, j as int) == done@);
        assert(m@ =~= orig.restrict(Set::new(|k: u64| k > view)));
    }
}

impl PackageBuffer {
    pub fn new() -> (b: Self)
        ensures
            b@ == Map::<u64, Seq<NetworkPackage>>::empty(),
    {
        let b = PackageBuffer { pending: BTreeMap::new() };
        proof {
            assert(b@ =~= Map::<u64, Seq<NetworkPackage>>::empty());
        }
        b
    }

    pub fn is_empty(&self) -> (r: bool)
        ensures
            r == self@.is_empty(),
    {
        proof {
            assert(self@.dom() == self.pending@.dom());
        }
        self.pending.is_empty()
    }

    /// Holds `pkg` until the voter reaches `view`.
    pub fn push(&mut self, view: u64, pkg: NetworkPackage)
        ensures
            final(self)@ == old(self)@.insert(view, held_for(old(self)@, view as int).push(pkg)),
    {
        let ghost pre = self@;
        let mut held = match self.pending.remove(&view) {
            Some(v) => v,
            None => Vec::new(),
        };
        proof {
            assert(held@ == held_for(pre, view as int));
        }
        held.push(pkg);
        let ghost pushed = held@;
        self.pending.insert(view, held);
        proof {
            assert(self@ =~= pre.insert(view, pushed));
        }
    }

    /// Takes out what is due in `current_view`: packages of views more than one
    /// behind are dropped, those of the previous and of the current view are
    /// returned in that order, those of later views stay.
    pub fn drain_ready(&mut self, current_view: u64) -> (ready: Vec<NetworkPackage>)
        requires
            current_view >= 1 || old(self)@.is_empty(),
        ensures
            ready@ == held_for(old(self)@, current_view - 1) + held_for(old(self)@, current_view as int),
            final(self)@ == held_after(old(self)@, current_view),
    {
        let ghost pre = self@;
        let mut ready: Vec<NetworkPackage> = Vec::new();
        if current_view >= 1 {
            if let Some(mut previous) = self.pending.remove(&(current_view - 1)) {
                ready.append(&mut previous);
            }
        }
        proof {
            assert(ready@ == held_for(pre, current_view - 1));
        }
        if let Some(mut current) = self.pending.remove(&current_view) {
            ready.append(&mut current);
        }
        proof {
            assert(ready@ == held_for(pre, current_view - 1) + held_for(pre, current_view as int));
        }
        retain_after(&mut self.pending, current_view);
        proof {
            assert(self@ =~= held_after(pre, current_view));
        }
        ready
    }
}

} // verus!

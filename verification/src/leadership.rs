use vstd::prelude::*;
use vstd::arithmetic::div_mod::{lemma_add_mod_noop, lemma_div_multiples_vanish, lemma_fundamental_div_mod, lemma_mod_pos_bound};
use crate::types::PublicKey;
use crate::laws::lemma_leader_is_member;
use crate::voter_set::VoterSet;

verus! {

/// The leader of `view` when each voter leads `rotation` consecutive views in turn.
pub open spec fn leader_at(voters: Seq<PublicKey>, rotation: nat, view: int) -> PublicKey {
    voters[(view / rotation as int) % voters.len() as int]
}

/// Who leads which view.
#[derive(Clone, Debug)]
pub struct Leadership {
    voters: VoterSet,
    leader_rotation: usize,
}

impl Leadership {
    /// The committee, in rotation order.
    pub closed spec fn committee(&self) -> Seq<PublicKey> {
        self.voters@.voters
    }

    /// How many consecutive views each leader keeps.
    pub closed spec fn rotation(&self) -> nat {
        self.leader_rotation as nat
    }

    /// The leader of `view`.
    pub open spec fn leader_of(&self, view: int) -> PublicKey {
        leader_at(self.committee(), self.rotation(), view)
    }

    /// Leaders can be told: the committee is not empty and each leader keeps at least one view.
    pub open spec fn well_formed(&self) -> bool {
        &&& self.committee().len() > 0
        &&& self.rotation() > 0
    }

    pub fn new(voters: VoterSet, leader_rotation: usize) -> (l: Self)
        ensures
            l.committee() == voters@.voters,
            l.rotation() == leader_rotation,
    {
        Leadership { voters, leader_rotation }
    }

    /// The leader of `view`.
    pub fn get_leader(&self, view: u64) -> (leader: PublicKey)
        requires
            self.well_formed(),
        ensures
            leader == self.leader_of(view as int),
    {
        let n = self.voters.voters_len();
        let slot = (view / (self.leader_rotation as u64)) % (n as u64);
        self.voters.voter_at(slot as usize)
    }
}

/// A view after `view` whose leader differs from the leader of `view`, within one
/// full turn of the committee, where some member differs from that leader.
pub proof fn lemma_other_leader_within_turn(voters: Seq<PublicKey>, rotation: nat, view: int) -> (w: int)
    requires
        voters.len() > 0,
        rotation > 0,
        view >= 0,
        exists|j: int| 0 <= j < voters.len() && voters[j] != leader_at(voters, rotation, view),
    ensures
        view < w < view + rotation * voters.len(),
        leader_at(voters, rotation, w) != leader_at(voters, rotation, view),
{
    let n = voters.len() as int;
    let r = rotation as int;
    let b = view / r;
    assert(b >= 0) by (nonlinear_arith)
        requires view >= 0, r > 0, b == view / r;
    lemma_mod_pos_bound(b, n);
    let c = b % n;
    let j = choose|j: int| 0 <= j < n && voters[j] != leader_at(voters, rotation, view);
    assert(j != c);
    vstd::arithmetic::div_mod::lemma_mod_bound(j - c, n);
    let k = (j - c) % n;
    lemma_fundamental_div_mod(j - c, n);
    assert(k != 0) by {
        if k == 0 {
            let q = (j - c) / n;
            assert(j - c == n * q);
            assert(q == 0) by (nonlinear_arith)
                requires j - c == n * q, -n < j - c < n, n > 0;
        }
    }
    let w = r * (b + k);
    lemma_div_multiples_vanish(b + k, r);
    lemma_add_mod_noop(b, k, n);
    lemma_add_mod_noop(c, j - c, n);
    lemma_mod_pos_bound(k, n);
    assert(k % n == k) by {
        vstd::arithmetic::div_mod::lemma_small_mod(k as nat, n as nat);
    }
    assert(c % n == c) by {
        vstd::arithmetic::div_mod::lemma_small_mod(c as nat, n as nat);
    }
    assert(j % n == j) by {
        vstd::arithmetic::div_mod::lemma_small_mod(j as nat, n as nat);
    }
    assert((b + k) % n == j);
    lemma_fundamental_div_mod(view, r);
    lemma_mod_pos_bound(view, r);
    assert(view < w < view + r * n) by (nonlinear_arith)
        requires
            view == r * b + view % r,
            0 <= view % r < r,
            w == r * (b + k),
            1 <= k < n,
            r > 0,
            b >= 0,
    ;
    w
}

/// The first view after `view` whose leader differs from the leader of `view`,
/// with that leader; such a view must exist within the range of `u64`.
pub fn get_next_leader(leadership: &Leadership, view: u64) -> (r: (PublicKey, u64))
    requires
        leadership.well_formed(),
        exists|w: int| view < w <= u64::MAX && leadership.leader_of(w) != leadership.leader_of(view as int),
    ensures
        view < r.1 < view + leadership.rotation() * leadership.committee().len(),
        r.0 == leadership.leader_of(r.1 as int),
        r.0 != leadership.leader_of(view as int),
        forall|u: int| view < u < r.1 ==> #[trigger] leadership.leader_of(u) == leadership.leader_of(view as int),
{
    let ghost w = choose|w: int| view < w <= u64::MAX && leadership.leader_of(w) != leadership.leader_of(view as int);
    let ghost turn = {
        let voters = leadership.committee();
        let rotation = leadership.rotation();
        lemma_leader_is_member(voters, rotation, w);
        let j = choose|j: int| 0 <= j < voters.len() && voters[j] == leader_at(voters, rotation, w);
        assert(voters[j] != leader_at(voters, rotation, view as int));
        lemma_other_leader_within_turn(voters, rotation, view as int)
    };
    let current_leader = leadership.get_leader(view);
    let mut v: u64 = view;
    loop
        invariant
            leadership.well_formed(),
            current_leader == leadership.leader_of(view as int),
            view <= v < w,
            w <= u64::MAX,
            leadership.leader_of(w) != current_leader,
            v < turn < view + leadership.rotation() * leadership.committee().len(),
            leadership.leader_of(turn) != current_leader,
            forall|u: int| view < u <= v ==> leadership.leader_of(u) == current_leader,
        decreases w - v,
    {
        v = v + 1;
        let next_leader = leadership.get_leader(v);
        if next_leader != current_leader {
            return (next_leader, v);
        }
        assert(v != turn);
    }
}

/// The first view after `view` whose leader differs from the leader of `view`, with
/// that leader, or `None` when every later view up to `u64::MAX` has the same leader.
pub fn checked_next_leader(leadership: &Leadership, view: u64) -> (r: Option<(PublicKey, u64)>)
    requires
        leadership.well_formed(),
    ensures
        r is None <==> !exists|w: int| view < w <= u64::MAX && leadership.leader_of(w) != leadership.leader_of(view as int),
        r matches Some(p) ==> {
            &&& view < p.1
            &&& p.0 == leadership.leader_of(p.1 as int)
            &&& p.0 != leadership.leader_of(view as int)
            &&& forall|u: int| view < u < p.1 ==> #[trigger] leadership.leader_of(u) == leadership.leader_of(view as int)
        },
{
    let current_leader = leadership.get_leader(view);
    let mut v: u64 = view;
    while v < u64::MAX
        invariant
            leadership.well_formed(),
            current_leader == leadership.leader_of(view as int),
            view <= v,
            forall|u: int| view < u <= v ==> #[trigger] leadership.leader_of(u) == current_leader,
        decreases u64::MAX - v,
    {
        v = v + 1;
        let next_leader = leadership.get_leader(v);
        if next_leader != current_leader {
            return Some((next_leader, v));
        }
    }
    None
}

} // verus!

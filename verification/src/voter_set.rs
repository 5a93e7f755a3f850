use std::collections::HashMap;
use vstd::prelude::*;
use vstd::std_specs::iter::IteratorSpec;
use crate::types::PublicKey;

verus! {

/// Number of votes that make a quorum among `n` voters: all but the
/// tolerated third, `n - floor(n / 3)`.
pub open spec fn quorum_size(n: nat) -> nat {
    (n - n / 3) as nat
}

/// For each voter, the position of its last occurrence in `voters`.
pub open spec fn last_index_map(voters: Seq<PublicKey>) -> Map<PublicKey, usize>
    decreases voters.len(),
{
    if voters.len() == 0 {
        Map::empty()
    } else {
        last_index_map(voters.drop_last()).insert(voters.last(), (voters.len() - 1) as usize)
    }
}

/// What a voter set holds: the voters in committee order, and the index it
/// answers lookups from.
pub struct VoterSetView {
    pub voters: Seq<PublicKey>,
    pub index: Map<PublicKey, usize>,
}

/// The committee of replicas.
#[derive(Clone, Debug)]
pub struct VoterSet {
    voters: Vec<PublicKey>,
    id_to_index: HashMap<PublicKey, usize>,
}

impl View for VoterSet {
    type V = VoterSetView;

    closed spec fn view(&self) -> VoterSetView {
        VoterSetView { voters: self.voters@, index: self.id_to_index@ }
    }
}

impl VoterSet {
    /// Builds the committee; a voter that occurs twice is found at its last position.
    pub fn new(voters: Vec<PublicKey>) -> (s: Self)
        ensures
            s@.voters == voters@,
            s@.index == last_index_map(voters@),
    {
        let mut id_to_index: HashMap<PublicKey, usize> = HashMap::new();
        let mut i: usize = 0;
        while i < voters.len()
            invariant
                i <= voters.len(),
                id_to_index@ == last_index_map(voters@.subrange(0, i as int)),
            decreases voters.len() - i,
        {
            let voter = voters[i];
            id_to_index.insert(voter, i);
            proof {
                let pre = voters@.subrange(0, i + 1);
                assert(pre.drop_last() == voters@.subrange(0, i as int));
                assert(pre.last() == voter);
            }
            i = i + 1;
        }
        proof {
            assert(voters@.subrange(0, voters@.len() as int) == voters@);
        }
        VoterSet { voters, id_to_index }
    }

    /// The number of votes that make a quorum in this committee.
    pub fn threshold(&self) -> (t: usize)
        ensures
            t == quorum_size(self@.voters.len()),
            t <= self@.voters.len(),
            3 * t >= 2 * self@.voters.len(),
            self@.voters.len() > 0 ==> 3 * (t - 1) < 2 * self@.voters.len(),
    {
        proof {
            if self@.voters.len() > 0 {
                crate::laws::lemma_threshold_is_least_quorum(self@.voters.len());
            }
        }
        self.voters.len() - self.voters.len() / 3
    }

    /// The voters, in committee order.
    pub fn iter(&self) -> (it: std::slice::Iter<'_, PublicKey>)
        ensures
            it.remaining().unref() == self@.voters,
    {
        self.voters.as_slice().iter()
    }

    /// The position of `voter_id` in the committee, if it is a member.
    pub fn get_index(&self, voter_id: PublicKey) -> (r: Option<usize>)
        ensures
            r == self@.index.get(voter_id),
    {
        match self.id_to_index.get(&voter_id) {
            Some(i) => Some(*i),
            None => None,
        }
    }

    /// The number of voters.
    pub fn voters_len(&self) -> (n: usize)
        ensures
            n == self@.voters.len(),
    {
        self.voters.len()
    }

    /// The voter at position `i` of the committee.
    pub fn voter_at(&self, i: usize) -> (v: PublicKey)
        requires
            i < self@.voters.len(),
        ensures
            v == self@.voters[i as int],
    {
        self.voters[i]
    }

    /// A copy of the lookup index, for a voter's own score slots.
    pub fn index_map(&self) -> (m: HashMap<PublicKey, usize>)
        ensures
            m@ == self@.index,
    {
        self.id_to_index.clone()
    }

    /// Takes the last voter off the committee list; lookups are not rebuilt.
    pub fn next(&mut self) -> (r: Option<PublicKey>)
        ensures
            old(self)@.voters.len() == 0 ==> r is None && final(self)@ == old(self)@,
            old(self)@.voters.len() > 0 ==> r == Some(old(self)@.voters.last())
                && final(self)@.voters == old(self)@.voters.drop_last()
                && final(self)@.index == old(self)@.index,
    {
        self.voters.pop()
    }
}

} // verus!

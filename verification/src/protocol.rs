use vstd::prelude::*;
use crate::leadership::Leadership;
use crate::types::{Digest, Message, NetworkPackage, PublicKey, QC, Signature, package_message, spec_package};
use crate::laws::lemma_index_within_committee;
use crate::voter_set::{last_index_map, quorum_size, VoterSet};
use crate::voter_state::{view_before, VoterModel, VoterState, zeros};

verus! {

/// The view change that a package of `view` completes: the voter has prepared a
/// jump to `view_cp`, and the package shows that the jump took place (the voter
/// leads `view_cp` and gets a vote of the view before it, or another replica
/// leads it and sent something of it).
pub open spec fn jump_due(s: VoterModel, l: Leadership, view: u64) -> bool {
    &&& (view == s.view_cp - 1 && l.leader_of(s.view_cp as int) == s.id)
        || (view == s.view_cp && l.leader_of(s.view_cp as int) != s.id)
    &&& s.view_cp > s.view
}

/// Whether a proposal of `view` whose certificate is `justify` gets this voter's vote.
pub open spec fn will_vote(s: VoterModel, view: u64, justify: QC, safety: bool, voted_view: u64) -> bool {
    view > voted_view && (safety || justify.view >= s.locked_qc.view)
}

/// The state after voting for a proposal of `from`: another replica's proposal
/// counts for its reputation, and the scores go to the reputation tracker.
pub open spec fn after_leader_scored(s: VoterModel, from: PublicKey) -> VoterModel {
    if from != s.id {
        let marked = s.marked(from);
        VoterModel { abse_info: marked, scores: zeros(marked.len()), ..s }
    } else {
        s
    }
}

/// Whether the `i`-th view after `current_view` has a leader with a known slot
/// whom the reputation tracker accepts.
pub open spec fn jump_candidate_ok(s: VoterModel, l: Leadership, current_view: u64, judgements: Seq<bool>, i: int) -> bool {
    let leader = l.leader_of(current_view + i);
    s.id_to_index.contains_key(leader) && judgements[s.id_to_index[leader] as int]
}

/// The first offset from `i` on, up to `maxjmp`, whose view has an accepted leader,
/// or one when there is none.
pub open spec fn jump_from(s: VoterModel, l: Leadership, current_view: u64, judgements: Seq<bool>, i: int) -> u64
    decreases s.maxjmp + 1 - i,
{
    if i < 1 || i > s.maxjmp {
        1
    } else if jump_candidate_ok(s, l, current_view, judgements, i) {
        i as u64
    } else {
        jump_from(s, l, current_view, judgements, i + 1)
    }
}

/// The jump after `current_view`: the first of the next `maxjmp` views whose leader
/// is accepted, or one.
pub open spec fn spec_jump(s: VoterModel, l: Leadership, current_view: u64, judgements: Seq<bool>) -> u64 {
    jump_from(s, l, current_view, judgements, 1)
}

/// Every view that the search for the jump looks at is a `u64`: the offsets up to
/// the first accepted one.
pub open spec fn jump_offsets_fit(s: VoterModel, l: Leadership, current_view: u64, judgements: Seq<bool>) -> bool {
    forall|i: int| 1 <= i <= s.maxjmp
        && (forall|k: int| 1 <= k < i ==> !#[trigger] jump_candidate_ok(s, l, current_view, judgements, k))
        ==> #[trigger] (current_view + i) <= u64::MAX
}

/// The vote for block `hash`, sent to the leader of the view after the jump.
pub open spec fn spec_vote_package(
    l: Leadership,
    id: PublicKey,
    hash: Digest,
    signature: Signature,
    current_view: u64,
    jmp: u64,
) -> NetworkPackage {
    if jmp > 1 {
        spec_package(id, Message::Vote(hash, id, signature), (current_view + jmp - 1) as u64,
            Some(l.leader_of(current_view + jmp)))
    } else {
        spec_package(id, Message::Vote(hash, id, signature), current_view,
            Some(l.leader_of(current_view + 1)))
    }
}

/// What the block tree and the signer answer about a proposal whose block is
/// certified by `justify`: the block certified there (the parent) holds
/// `parent_justify`, which certifies the grandparent, whose own certificate
/// certifies `great_grandparent`.
#[derive(Clone, Copy, Debug, PartialEq, Eq, Structural)]
pub struct ProposalFacts {
    pub block_hash: Digest,
    pub justify: QC,
    /// This replica's signature over `block_hash`.
    pub signature: Signature,
    pub parent_justify: QC,
    pub great_grandparent: Digest,
    /// The grandparent is the parent's parent in the block tree.
    pub parent_linked: bool,
    /// The great-grandparent is the grandparent's parent in the block tree.
    pub grandparent_linked: bool,
}

/// What handling a proposal did: the vote to send, whether the highest certificate
/// moved, the block to finalise, and whether to wake whoever waits for a view change.
#[derive(Clone, Copy, Debug, PartialEq, Eq, Structural)]
pub struct ProposalOutcome {
    pub vote: Option<NetworkPackage>,
    pub qc_high_updated: bool,
    pub commit: Option<Digest>,
    pub notify: bool,
}

/// The jump a proposal leads to: the chosen one if the replica voted, else one.
pub open spec fn proposal_jump(s: VoterModel, l: Leadership, current_view: u64, voted: bool, judgements: Seq<bool>) -> u64 {
    if voted {
        spec_jump(s, l, current_view, judgements)
    } else {
        1
    }
}

/// The rest of a proposal after the voting decision `voted`: the vote goes to the
/// leader after the jump, the proposal's certificate may become the highest, the
/// parent's certificate may become the lock, a chain of three direct parents
/// finalises the oldest block, and the view ends.
pub open spec fn after_proposal(
    s: VoterModel,
    l: Leadership,
    current_view: u64,
    voted: bool,
    facts: ProposalFacts,
    judgements: Seq<bool>,
) -> (VoterModel, ProposalOutcome) {
    let jmp = proposal_jump(s, l, current_view, voted, judgements);
    let vote = if voted {
        Some(spec_vote_package(l, s.id, facts.block_hash, facts.signature, current_view, jmp))
    } else {
        None
    };
    let (s1, updated) = s.after_update_qc_high(facts.justify);
    let (s2, locked) = s1.after_update_locked_qc(facts.parent_justify);
    let commit = if facts.parent_linked && facts.grandparent_linked {
        Some(facts.great_grandparent)
    } else {
        None
    };
    let s3 = if jmp > 1 {
        s2.after_view_add_multi((current_view + jmp) as u64)
    } else {
        s2.after_view_add_one()
    };
    (s3, ProposalOutcome { vote, qc_high_updated: updated, commit, notify: jmp <= 1 })
}

/// What a vote did: the certificate it completed, whether that became the highest
/// certificate, and, for a new-view message, whether a quorum now asks for the view.
#[derive(Clone, Copy, Debug, PartialEq, Eq, Structural)]
pub struct VoteOutcome {
    pub qc: Option<QC>,
    pub qc_high_updated: bool,
    pub new_view_ready: bool,
}

/// Counts a vote; a certificate it completes may become the highest one, and
/// its view becomes the best view.
pub open spec fn after_vote(s: VoterModel, view: u64, digest: Digest, from: PublicKey) -> (VoterModel, Option<QC>, bool) {
    let (s1, qc) = s.after_add_vote(view, digest, from);
    match qc {
        Some(q) => {
            let (s2, updated) = s1.after_update_qc_high(q);
            (VoterModel { best_view: view, ..s2 }, qc, updated)
        },
        None => (s1, None, false),
    }
}

/// The state after a timeout: the prepared jump is abandoned and the voter moves
/// to `next_view`.
pub open spec fn after_timeout(s: VoterModel, next_view: u64) -> VoterModel {
    VoterModel { view: next_view, view_cp: s.view, last_view: view_before(next_view) as i32, ..s }
}

/// Sends the leader of a new view to wait for the view change (the last
/// certificate is from a view too far behind).
pub fn awaiting_view_change(collect_view: u64, view: u64) -> (wait: bool)
    requires
        collect_view < u64::MAX,
    ensures
        wait == (collect_view + 1 < view),
{
    collect_view + 1 < view
}

/// The pacemaker's decision after sleeping: a timeout happened when the view did
/// not change; the sleep factor then grows by one, else it starts over at one.
pub fn backoff(past_view: u64, current_view: u64, multiplexer: u64) -> (r: (bool, u64))
    requires
        current_view == past_view ==> multiplexer < u64::MAX,
    ensures
        r.0 == (current_view == past_view),
        r.1 == if r.0 { multiplexer + 1 } else { 1 },
{
    if current_view != past_view {
        (false, 1)
    } else {
        (true, multiplexer + 1)
    }
}

/// The vote for block `hash`: with a jump, for the view before the jump target and
/// to its leader; otherwise for the current view and to the next leader.
pub fn vote_package(
    leadership: &Leadership,
    id: PublicKey,
    hash: Digest,
    signature: Signature,
    current_view: u64,
    jmp: u64,
) -> (pkg: NetworkPackage)
    requires
        leadership.well_formed(),
        jmp > 1 ==> current_view + jmp <= u64::MAX,
        jmp <= 1 ==> current_view < u64::MAX,
    ensures
        pkg == spec_vote_package(*leadership, id, hash, signature, current_view, jmp),
{
    if jmp > 1 {
        package_message(
            id,
            Message::Vote(hash, id, signature),
            current_view + jmp - 1,
            Some(leadership.get_leader(current_view + jmp)),
        )
    } else {
        package_message(
            id,
            Message::Vote(hash, id, signature),
            current_view,
            Some(leadership.get_leader(current_view + 1)),
        )
    }
}

impl VoterState {
    /// The voting state a replica starts with in committee `voters`, with the
    /// committee's threshold and score slots, and the number of faulty replicas
    /// the committee tolerates.
    pub fn for_committee(id: PublicKey, view: u64, maxjmp: usize, generic_qc: QC, voters: &VoterSet) -> (r: (VoterState, u64))
        requires
            (view as i32) > i32::MIN,
        ensures
            r.0@ == VoterModel::initial(id, view, maxjmp, generic_qc, quorum_size(voters@.voters.len()) as usize,
                voters@.index, voters@.voters.len()),
            r.1 == voters@.voters.len() - quorum_size(voters@.voters.len()),
            voters@.index == last_index_map(voters@.voters) ==> r.0@.wf(),
    {
        let lenn = voters.voters_len();
        let threshold = voters.threshold();
        let state = VoterState::new(id, view, maxjmp, generic_qc, threshold, voters.index_map(), lenn);
        proof {
            if voters@.index == last_index_map(voters@.voters) {
                lemma_index_within_committee(voters@.voters);
            }
        }
        (state, (lenn - threshold) as u64)
    }

    /// Completes a prepared view jump when a package of `view` shows it took place.
    pub fn try_view_jump(&mut self, leadership: &Leadership, view: u64) -> (jumped: bool)
        requires
            leadership.well_formed(),
            old(self).view_cp >= 1,
            jump_due(old(self)@, *leadership, view) ==> (old(self).view_cp as i32) > i32::MIN,
        ensures
            jumped == jump_due(old(self)@, *leadership, view),
            final(self)@ == if jumped { old(self)@.after_success_jmp() } else { old(self)@ },
            jumped <==> old(self).view_cp > old(self).view && (
                (leadership.leader_of(old(self).view_cp as int) == old(self).id && view + 1 == old(self).view_cp)
                || (leadership.leader_of(old(self).view_cp as int) != old(self).id && view == old(self).view_cp)),
            jumped ==> final(self).view == old(self).view_cp && final(self).view_cp == old(self).view_cp,
            !jumped ==> final(self).view == old(self).view,
    {
        proof {
            crate::laws::lemma_jump_completes_exactly(self@, *leadership, view);
        }
        let viewc = self.view_cp;
        let cview = self.view;
        let id = self.id;
        if ((view == viewc - 1 && leadership.get_leader(viewc) == id) || (view == viewc
            && leadership.get_leader(viewc) != id)) && viewc > cview {
            self.success_jmp();
            true
        } else {
            false
        }
    }

    /// A proposal of a view before the current one is ignored.
    pub fn proposal_is_stale(&self, view: u64) -> (stale: bool)
        ensures
            stale == (view < self@.view),
    {
        view < self.view
    }

    /// Decides whether to vote for a proposal of `view` from `from` whose
    /// certificate is `justify`; `safety` tells whether the block extends the
    /// locked block. A vote is cast for a later view than the last vote only.
    pub fn proposal_vote(
        &mut self,
        view: u64,
        from: PublicKey,
        justify: QC,
        safety: bool,
        voted_view: &mut u64,
    ) -> (vote: bool)
        requires
            old(self)@.wf(),
        ensures
            vote == will_vote(old(self)@, view, justify, safety, *old(voted_view)),
            vote ==> *final(voted_view) == view && final(self)@ == after_leader_scored(old(self)@, from),
            !vote ==> *final(voted_view) == *old(voted_view) && final(self)@ == old(self)@,
    {
        let liveness = justify.view >= self.locked_qc.view;
        if view > *voted_view && (safety || liveness) {
            if from != self.id {
                self.set_voter_id(from);
                let s_array = vstd::slice::slice_to_vec(self.get_array());
                self.abse_info = s_array;
                self.reset_array();
            }
            *voted_view = view;
            true
        } else {
            false
        }
    }

    /// The jump after `current_view`: the first of the next `maxjmp` views whose
    /// leader the reputation tracker accepts (`judgements`, by score slot), or one.
    pub fn choose_jump(&self, leadership: &Leadership, current_view: u64, judgements: &Vec<bool>) -> (jmp: u64)
        requires
            self@.wf(),
            leadership.well_formed(),
            judgements@.len() == self@.scores.len(),
            jump_offsets_fit(self@, *leadership, current_view, judgements@),
        ensures
            jmp == spec_jump(self@, *leadership, current_view, judgements@),
            1 <= jmp,
            jmp == 1 || jmp <= self.maxjmp,
            jmp > 1 ==> current_view + jmp <= u64::MAX,
            jmp > 1 ==> self@.id_to_index.contains_key(leadership.leader_of(current_view + jmp))
                && judgements@[self@.id_to_index[leadership.leader_of(current_view + jmp)] as int],
            forall|k: int| 1 <= k < jmp ==> {
                let skipped = #[trigger] leadership.leader_of(current_view + k);
                !(self@.id_to_index.contains_key(skipped) && judgements@[self@.id_to_index[skipped] as int])
            },
            (exists|i: int| 1 <= i <= self.maxjmp && jump_candidate_ok(self@, *leadership, current_view, judgements@, i))
                ==> jump_candidate_ok(self@, *leadership, current_view, judgements@, jmp as int)
                && forall|i: int| 1 <= i < jmp ==> !jump_candidate_ok(self@, *leadership, current_view, judgements@, i),
            !(exists|i: int| 1 <= i <= self.maxjmp && jump_candidate_ok(self@, *leadership, current_view, judgements@, i))
                ==> jmp == 1,
    {
        proof {
            crate::laws::lemma_jump_targets_accepted_leader(self@, *leadership, current_view, judgements@);
        }
        let mjmp = self.maxjmp as u64;
        let mut k: u64 = 0;
        while k < mjmp
            invariant
                self@.wf(),
                leadership.well_formed(),
                judgements@.len() == self@.scores.len(),
                jump_offsets_fit(self@, *leadership, current_view, judgements@),
                mjmp == self.maxjmp,
                k <= mjmp,
                forall|i: int| 1 <= i <= k ==> !jump_candidate_ok(self@, *leadership, current_view, judgements@, i),
                spec_jump(self@, *leadership, current_view, judgements@)
                    == jump_from(self@, *leadership, current_view, judgements@, k + 1),
            decreases mjmp - k,
        {
            let i = k + 1;
            assert(current_view + i <= u64::MAX);
            let leader = leadership.get_leader(current_view + i);
            if let Some(index) = self.get_index(leader) {
                if judgements[index] {
                    proof {
                        assert(jump_from(self@, *leadership, current_view, judgements@, i as int) == i);
                        crate::laws::lemma_jump_targets_accepted_leader(self@, *leadership, current_view, judgements@);
                    }
                    return i;
                }
            }
            assert(!jump_candidate_ok(self@, *leadership, current_view, judgements@, i as int));
            k = i;
        }
        1
    }

    /// The jump after `current_view` when every view its search looks at is a
    /// `u64`, and `None` when one is not.
    pub fn checked_jump(&self, leadership: &Leadership, current_view: u64, judgements: &Vec<bool>) -> (r: Option<u64>)
        requires
            self@.wf(),
            leadership.well_formed(),
            judgements@.len() == self@.scores.len(),
        ensures
            r is Some <==> jump_offsets_fit(self@, *leadership, current_view, judgements@),
            r is Some ==> r == Some(spec_jump(self@, *leadership, current_view, judgements@)),
    {
        let mjmp = self.maxjmp as u64;
        let mut k: u64 = 0;
        while k < mjmp
            invariant
                self@.wf(),
                leadership.well_formed(),
                judgements@.len() == self@.scores.len(),
                mjmp == self.maxjmp,
                k <= mjmp,
                forall|i: int| 1 <= i <= k ==> !jump_candidate_ok(self@, *leadership, current_view, judgements@, i),
                current_view + k <= u64::MAX,
                spec_jump(self@, *leadership, current_view, judgements@)
                    == jump_from(self@, *leadership, current_view, judgements@, k + 1),
            decreases mjmp - k,
        {
            let i = k + 1;
            if current_view > u64::MAX - i {
                proof {
                    assert(forall|j: int| 1 <= j < i ==> !jump_candidate_ok(self@, *leadership, current_view, judgements@, j));
                    assert(!(current_view + i <= u64::MAX));
                }
                return None;
            }
            let leader = leadership.get_leader(current_view + i);
            if let Some(index) = self.get_index(leader) {
                if judgements[index] {
                    proof {
                        assert forall|j: int| 1 <= j <= self.maxjmp
                            && (forall|m: int| 1 <= m < j ==> !#[trigger] jump_candidate_ok(self@, *leadership, current_view, judgements@, m))
                            implies #[trigger] (current_view + j) <= u64::MAX by {
                            if j > i {
                                assert(!jump_candidate_ok(self@, *leadership, current_view, judgements@, i as int));
                            }
                        }
                    }
                    return Some(i);
                }
            }
            k = i;
        }
        Some(1)
    }

    /// Completes a proposal of the current view `current_view` after the voting
    /// decision `voted` (see `proposal_vote`), with the block tree's answers and
    /// the reputation tracker's `judgements` (by score slot).
    pub fn complete_proposal(
        &mut self,
        leadership: &Leadership,
        current_view: u64,
        voted: bool,
        facts: ProposalFacts,
        judgements: &Vec<bool>,
    ) -> (out: ProposalOutcome)
        requires
            old(self)@.wf(),
            leadership.well_formed(),
            judgements@.len() == old(self)@.scores.len(),
            voted ==> jump_offsets_fit(old(self)@, *leadership, current_view, judgements@),
            old(self).last_view < i32::MAX,
            proposal_jump(old(self)@, *leadership, current_view, voted, judgements@) <= 1 ==> {
                &&& old(self).view < u64::MAX
                &&& old(self).view_cp < u64::MAX
                &&& voted ==> current_view < u64::MAX
            },
        ensures
            (final(self)@, out) == after_proposal(old(self)@, *leadership, current_view, voted, facts, judgements@),
            out.commit is Some <==> facts.parent_linked && facts.grandparent_linked,
            out.commit is Some ==> out.commit == Some(facts.great_grandparent),
            out.vote is Some <==> voted,
            final(self).locked_qc == if facts.parent_justify.view > old(self).locked_qc.view {
                facts.parent_justify
            } else {
                old(self).locked_qc
            },
    {
        proof {
            crate::laws::lemma_proposal_outcome(self@, *leadership, current_view, voted, facts, judgements@);
        }
        let jmp = if voted { self.choose_jump(leadership, current_view, judgements) } else { 1 };
        let vote = if voted {
            Some(vote_package(leadership, self.id, facts.block_hash, facts.signature, current_view, jmp))
        } else {
            None
        };
        let updated = self.update_qc_high(facts.justify);
        self.update_locked_qc(facts.parent_justify);
        let commit = if facts.parent_linked && facts.grandparent_linked {
            Some(facts.great_grandparent)
        } else {
            None
        };
        let notify = self.finish_view(current_view, jmp);
        ProposalOutcome { vote, qc_high_updated: updated, commit, notify }
    }

    /// Ends the view of a proposal: with a jump, prepares the jump to
    /// `current_view + jmp`; otherwise moves to the next view. Returns whether the
    /// caller wakes whoever waits for a view change (only in the second case).
    pub fn finish_view(&mut self, current_view: u64, jmp: u64) -> (notify: bool)
        requires
            jmp > 1 ==> current_view + jmp <= u64::MAX && old(self).last_view < i32::MAX,
            jmp <= 1 ==> old(self).view < u64::MAX && old(self).view_cp < u64::MAX
                && old(self).last_view < i32::MAX,
        ensures
            notify == (jmp <= 1),
            final(self)@ == if jmp > 1 {
                old(self)@.after_view_add_multi((current_view + jmp) as u64)
            } else {
                old(self)@.after_view_add_one()
            },
    {
        if jmp > 1 {
            self.view_add_multi(current_view + jmp);
            false
        } else {
            self.view_add_one();
            true
        }
    }

    /// Counts a vote of `from` for `digest` in `view`.
    pub fn on_vote(&mut self, view: u64, digest: Digest, from: PublicKey) -> (out: VoteOutcome)
        requires
            old(self)@.wf(),
        ensures
            (final(self)@, out.qc, out.qc_high_updated) == after_vote(old(self)@, view, digest, from),
            !out.new_view_ready,
    {
        let qc = self.add_vote(view, digest, from);
        match qc {
            Some(q) => {
                let updated = self.update_qc_high(q);
                self.set_best_view(view);
                VoteOutcome { qc, qc_high_updated: updated, new_view_ready: false }
            },
            None => VoteOutcome { qc: None, qc_high_updated: false, new_view_ready: false },
        }
    }

    /// Counts the vote carried by a new-view message of `from` for `view`, then the
    /// message itself.
    pub fn on_new_view(&mut self, view: u64, digest: Digest, from: PublicKey) -> (out: VoteOutcome)
        requires
            old(self)@.wf(),
        ensures
            ({
                let (s1, qc, updated) = after_vote(old(self)@, view, digest, from);
                let (s2, ready) = s1.after_add_new_view(view, from);
                &&& final(self)@ == s2
                &&& out == (VoteOutcome { qc, qc_high_updated: updated, new_view_ready: ready })
            }),
    {
        let out = self.on_vote(view, digest, from);
        let ready = self.add_new_view(view, from);
        VoteOutcome { new_view_ready: ready, ..out }
    }

    /// Whether this replica proposes now: it leads the current view and has not
    /// finished it yet.
    pub fn should_propose(&self, leadership: &Leadership) -> (propose: bool)
        requires
            leadership.well_formed(),
        ensures
            propose == (leadership.leader_of(self@.view as int) == self@.id
                && (self@.view as i32) > self@.last_view),
    {
        leadership.get_leader(self.view) == self.id && (self.view as i32) > self.last_view
    }

    /// On a timeout: abandons the prepared jump and moves to `next_view`, the view
    /// of the next leader (see `get_next_leader`).
    pub fn on_timeout(&mut self, next_view: u64)
        requires
            (next_view as i32) > i32::MIN,
        ensures
            final(self)@ == after_timeout(old(self)@, next_view),
    {
        self.fail_jmp();
        self.view = next_view;
        self.last_view = (next_view as i32) - 1;
    }

    /// The new-view message this replica sends to `next_leader` for `view`, carrying
    /// its highest certificate and its signed latest vote.
    pub fn new_view_package(&self, view: u64, next_leader: PublicKey, digest: Digest, signature: Signature) -> (pkg: NetworkPackage)
        ensures
            pkg == spec_package(self@.id, Message::NewView(self@.generic_qc, digest, self@.id, signature), view,
                Some(next_leader)),
    {
        package_message(
            self.id,
            Message::NewView(self.generic_qc, digest, self.id, signature),
            view,
            Some(next_leader),
        )
    }
}

} // verus!

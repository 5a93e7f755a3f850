use std::collections::HashMap;
use vstd::prelude::*;
use vstd::std_specs::iter::IteratorSpec;
use crate::tally::{keep_from, retain_from};
use crate::types::{Digest, PublicKey, QC};

verus! {

/// What a voter knows, as mathematical values.
pub struct VoterModel {
    pub id: PublicKey,
    pub view: u64,
    pub view_cp: u64,
    pub last_view: i32,
    pub maxjmp: usize,
    pub threshold: usize,
    pub generic_qc: QC,
    pub locked_qc: QC,
    /// view -> block digest -> voters, in arrival order
    pub votes: Map<u64, Map<Digest, Seq<PublicKey>>>,
    pub best_view: u64,
    /// view -> senders of new-view messages, in arrival order
    pub new_views: Map<u64, Seq<PublicKey>>,
    /// the scores last handed to the reputation tracker
    pub abse_info: Seq<u64>,
    pub id_to_index: Map<PublicKey, usize>,
    pub scores: Seq<u64>,
}

/// A score vector of `n` zeros.
pub open spec fn zeros(n: nat) -> Seq<u64> {
    Seq::new(n, |i: int| 0u64)
}

/// The view a voter reports as the last one it finished before `view`.
pub open spec fn view_before(view: u64) -> int {
    (view as i32) - 1
}

impl VoterModel {
    /// Every index the voter can look up names a slot of the score array.
    pub open spec fn wf(self) -> bool {
        forall|k: PublicKey| #[trigger] self.id_to_index.contains_key(k)
            ==> (self.id_to_index[k] as int) < self.scores.len()
    }

    /// The state of a voter that starts in `view`.
    pub open spec fn initial(
        id: PublicKey,
        view: u64,
        maxjmp: usize,
        generic_qc: QC,
        threshold: usize,
        id_to_index: Map<PublicKey, usize>,
        lenn: nat,
    ) -> VoterModel {
        VoterModel {
            id,
            view,
            view_cp: view,
            last_view: view_before(view) as i32,
            maxjmp,
            threshold,
            generic_qc,
            locked_qc: generic_qc,
            votes: Map::empty(),
            best_view: 0,
            new_views: Map::empty(),
            abse_info: Seq::empty(),
            id_to_index,
            scores: zeros(lenn),
        }
    }

    /// The voters recorded for `digest` in `view`, in arrival order.
    pub open spec fn tally(self, view: u64, digest: Digest) -> Seq<PublicKey> {
        if self.votes.contains_key(view) && self.votes[view].contains_key(digest) {
            self.votes[view][digest]
        } else {
            Seq::empty()
        }
    }

    /// The block votes recorded for `view`.
    pub open spec fn votes_in(self, view: u64) -> Map<Digest, Seq<PublicKey>> {
        if self.votes.contains_key(view) {
            self.votes[view]
        } else {
            Map::empty()
        }
    }

    /// The senders of new-view messages recorded for `view`.
    pub open spec fn new_views_in(self, view: u64) -> Seq<PublicKey> {
        if self.new_views.contains_key(view) {
            self.new_views[view]
        } else {
            Seq::empty()
        }
    }

    /// The score array after `who` has taken part: its slot is set to 1 if it is known.
    pub open spec fn marked(self, who: PublicKey) -> Seq<u64> {
        if self.id_to_index.contains_key(who) {
            self.scores.update(self.id_to_index[who] as int, 1u64)
        } else {
            self.scores
        }
    }

    pub open spec fn with_voter_marked(self, who: PublicKey) -> VoterModel {
        VoterModel { scores: self.marked(who), ..self }
    }

    pub open spec fn with_scores_reset(self) -> VoterModel {
        VoterModel { scores: zeros(self.scores.len()), ..self }
    }

    /// Votes and new-view messages of views before the current view are dropped.
    pub open spec fn pruned(self) -> VoterModel {
        VoterModel {
            votes: keep_from(self.votes, self.view),
            new_views: keep_from(self.new_views, self.view),
            ..self
        }
    }

    /// Prepares a jump to `multiview`.
    pub open spec fn after_view_add_multi(self, multiview: u64) -> VoterModel {
        VoterModel { view_cp: multiview, last_view: (self.last_view + 1) as i32, ..self.pruned() }
    }

    /// Moves to the prepared view.
    pub open spec fn after_success_jmp(self) -> VoterModel {
        VoterModel { view: self.view_cp, last_view: view_before(self.view_cp) as i32, ..self }
    }

    /// Abandons the prepared view.
    pub open spec fn after_fail_jmp(self) -> VoterModel {
        VoterModel { view_cp: self.view, ..self }
    }

    /// Moves to the next view.
    pub open spec fn after_view_add_one(self) -> VoterModel {
        VoterModel {
            view: (self.view + 1) as u64,
            last_view: (self.last_view + 1) as i32,
            view_cp: (self.view_cp + 1) as u64,
            ..self.pruned()
        }
    }

    /// Records that `who` asked for a new view `view`; the flag tells that
    /// exactly a quorum has now asked for it.
    pub open spec fn after_add_new_view(self, view: u64, who: PublicKey) -> (VoterModel, bool) {
        let senders = self.new_views_in(view).push(who);
        let ready = senders.len() == self.threshold;
        let s = VoterModel { new_views: self.new_views.insert(view, senders), ..self };
        if ready {
            (VoterModel { best_view: view, ..s }, true)
        } else {
            (s, false)
        }
    }

    /// Records the vote of `who` for `digest` in `view`. When the vote completes
    /// a quorum, the certificate is returned, the scores (with the voter marked)
    /// go to the reputation tracker and are reset.
    pub open spec fn after_add_vote(self, view: u64, digest: Digest, who: PublicKey) -> (VoterModel, Option<QC>) {
        let voters = self.tally(view, digest).push(who);
        let votes = self.votes.insert(view, self.votes_in(view).insert(digest, voters));
        let marked = self.marked(who);
        if voters.len() == self.threshold {
            (
                VoterModel { votes, abse_info: marked, scores: zeros(marked.len()), ..self },
                Some(QC { node: digest, view }),
            )
        } else {
            (VoterModel { votes, scores: marked, ..self }, None)
        }
    }

    /// Adopts `qc` as the highest certificate if it is for a later view.
    pub open spec fn after_update_qc_high(self, qc: QC) -> (VoterModel, bool) {
        if qc.view > self.generic_qc.view {
            (VoterModel { generic_qc: qc, ..self }, true)
        } else {
            (self, false)
        }
    }

    /// Locks on `qc` if it is for a later view than the current lock.
    pub open spec fn after_update_locked_qc(self, qc: QC) -> (VoterModel, bool) {
        if qc.view > self.locked_qc.view {
            (VoterModel { locked_qc: qc, ..self }, true)
        } else {
            (self, false)
        }
    }
}

/// The vote tallies of a voter, as values.
pub open spec fn votes_view(votes: Map<u64, HashMap<Digest, Vec<PublicKey>>>) -> Map<u64, Map<Digest, Seq<PublicKey>>> {
    votes.map_values(|m: HashMap<Digest, Vec<PublicKey>>| m@.map_values(|v: Vec<PublicKey>| v@))
}

/// The new-view senders of a voter, as values.
pub open spec fn senders_view(new_views: Map<u64, Vec<PublicKey>>) -> Map<u64, Seq<PublicKey>> {
    new_views.map_values(|v: Vec<PublicKey>| v@)
}

/// The state of one replica's voting logic.
pub struct VoterState {
    pub id: PublicKey,
    pub view: u64,
    pub view_cp: u64,
    pub last_view: i32,
    pub maxjmp: usize,
    pub threshold: usize,
    pub generic_qc: QC,
    pub locked_qc: QC,
    /// <view, (what, whos)>
    pub votes: HashMap<u64, HashMap<Digest, Vec<PublicKey>>>,
    pub best_view: u64,
    /// <view, (whos)>
    pub new_views: HashMap<u64, Vec<PublicKey>>,
    pub abse_info: Vec<u64>,
    pub id_to_index: HashMap<PublicKey, usize>,
    pub score_array: Vec<u64>,
}

impl View for VoterState {
    type V = VoterModel;

    open spec fn view(&self) -> VoterModel {
        VoterModel {
            id: self.id,
            view: self.view,
            view_cp: self.view_cp,
            last_view: self.last_view,
            maxjmp: self.maxjmp,
            threshold: self.threshold,
            generic_qc: self.generic_qc,
            locked_qc: self.locked_qc,
            votes: votes_view(self.votes@),
            best_view: self.best_view,
            new_views: senders_view(self.new_views@),
            abse_info: self.abse_info@,
            id_to_index: self.id_to_index@,
            scores: self.score_array@,
        }
    }
}

/// Pruning the stored vectors and then taking their values is taking the values and then pruning.
proof fn lemma_keep_from_commutes<V, W>(m: Map<u64, V>, f: spec_fn(V) -> W, floor: u64)
    ensures
        keep_from(m, floor).map_values(f) == keep_from(m.map_values(f), floor),
{
    assert(keep_from(m, floor).map_values(f) =~= keep_from(m.map_values(f), floor));
}

impl VoterState {
    pub fn new(
        id: PublicKey,
        view: u64,
        maxjmp: usize,
        generic_qc: QC,
        threshold: usize,
        id_to_index: HashMap<PublicKey, usize>,
        lenn: usize,
    ) -> (s: Self)
        requires
            (view as i32) > i32::MIN,
        ensures
            s@ == VoterModel::initial(id, view, maxjmp, generic_qc, threshold, id_to_index@, lenn as nat),
    {
        let mut score_array: Vec<u64> = Vec::new();
        let mut i: usize = 0;
        while i < lenn
            invariant
                i <= lenn,
                score_array@ == zeros(i as nat),
            decreases lenn - i,
        {
            score_array.push(0);
            i = i + 1;
            proof {
                assert(score_array@ =~= zeros(i as nat));
            }
        }
        let s = VoterState {
            id,
            view_cp: view,
            last_view: (view as i32) - 1,
            view,
            maxjmp,
            threshold,
            generic_qc,
            locked_qc: generic_qc,
            votes: HashMap::new(),
            best_view: 0,
            new_views: HashMap::new(),
            abse_info: Vec::new(),
            id_to_index,
            score_array,
        };
        proof {
            assert(votes_view(s.votes@) =~= Map::empty());
            assert(senders_view(s.new_views@) =~= Map::empty());
        }
        s
    }

    /// Whether every lookup names a slot of the score array (`wf` of the model).
    pub fn well_formed(&self) -> (r: bool)
        ensures
            r == self@.wf(),
    {
        let n = self.score_array.len();
        let ghost m = self.id_to_index@;
        proof {
            let entries = self.id_to_index.iter().remaining();
            assert forall|i: int| 0 <= i < entries.len() implies #[trigger] m.contains_key(*entries[i].0)
                && m[*entries[i].0] == *entries[i].1 by {}
            assert forall|k: PublicKey| #[trigger] m.contains_key(k) implies entries.contains((&k, &m[k])) by {}
        }
        for kv in it: self.id_to_index.iter()
            invariant
                n == self.score_array@.len(),
                m == self.id_to_index@,
                forall|i: int| 0 <= i < it.seq().len() ==> #[trigger] m.contains_key(*it.seq()[i].0)
                    && m[*it.seq()[i].0] == *it.seq()[i].1,
                forall|k: PublicKey| #[trigger] m.contains_key(k) && (m[k] as int) >= n
                    ==> exists|i: int| it.index() <= i < it.seq().len() && *it.seq()[i].0 == k,
        {
            if *kv.1 >= n {
                proof {
                    assert(kv == it.seq()[it.index()]);
                    assert(m.contains_key(*kv.0) && m[*kv.0] == *kv.1);
                    assert(self@.id_to_index.contains_key(*kv.0));
                    assert(!self@.wf());
                }
                return false;
            }
            proof {
                let idx = it.index();
                assert forall|k: PublicKey| #[trigger] m.contains_key(k) && (m[k] as int) >= n
                    implies exists|i: int| idx + 1 <= i < it.seq().len() && *it.seq()[i].0 == k by {
                    let i = choose|i: int| idx <= i < it.seq().len() && *it.seq()[i].0 == k;
                    if i == idx {
                        assert(m[*it.seq()[i].0] == *it.seq()[i].1);
                    }
                }
            }
        }
        true
    }

    /// The score slot of `voter_id`, if it is a member.
    pub fn get_index(&self, voter_id: PublicKey) -> (r: Option<usize>)
        ensures
            r == self@.id_to_index.get(voter_id),
    {
        match self.id_to_index.get(&voter_id) {
            Some(i) => Some(*i),
            None => None,
        }
    }

    /// Clears every score.
    pub fn reset_array(&mut self)
        ensures
            final(self)@ == old(self)@.with_scores_reset(),
    {
        let ghost n = self.score_array@.len();
        let mut i: usize = 0;
        while i < self.score_array.len()
            invariant
                i <= self.score_array@.len(),
                self.score_array@.len() == n,
                forall|j: int| 0 <= j < i ==> self.score_array@[j] == 0,
                self@ == (VoterModel { scores: self.score_array@, ..old(self)@ }),
            decreases self.score_array@.len() - i,
        {
            self.score_array.set(i, 0);
            i = i + 1;
        }
        proof {
            assert(self.score_array@ =~= zeros(n));
        }
    }

    /// The scores gathered since the last reset.
    pub fn get_array(&self) -> (a: &[u64])
        ensures
            a@ == self@.scores,
    {
        self.score_array.as_slice()
    }

    /// Marks `voter_id` as having taken part, if it is a member.
    pub fn set_voter_id(&mut self, voter_id: PublicKey)
        requires
            old(self)@.wf(),
        ensures
            final(self)@ == old(self)@.with_voter_marked(voter_id),
    {
        if let Some(index) = self.get_index(voter_id) {
            self.score_array.set(index, 1);
        }
    }

    fn prune(&mut self)
        ensures
            final(self)@ == old(self)@.pruned(),
    {
        let ghost old_votes = self.votes@;
        let ghost old_new_views = self.new_views@;
        retain_from(&mut self.votes, self.view);
        retain_from(&mut self.new_views, self.view);
        proof {
            lemma_keep_from_commutes(
                old_votes,
                |m: HashMap<Digest, Vec<PublicKey>>| m@.map_values(|v: Vec<PublicKey>| v@),
                self.view,
            );
            lemma_keep_from_commutes(old_new_views, |v: Vec<PublicKey>| v@, self.view);
        }
    }

    /// Drops votes and new-view messages of views before the current view.
    pub fn multi_retain(&mut self)
        ensures
            final(self)@ == old(self)@.pruned(),
    {
        self.prune();
    }

    /// Prepares a jump to `multiview`.
    pub fn view_add_multi(&mut self, multiview: u64)
        requires
            old(self).last_view < i32::MAX,
        ensures
            final(self)@ == old(self)@.after_view_add_multi(multiview),
    {
        self.prune();
        self.view_cp = multiview;
        self.last_view = self.last_view + 1;
    }

    /// Moves to the prepared view.
    pub fn success_jmp(&mut self)
        requires
            (old(self).view_cp as i32) > i32::MIN,
        ensures
            final(self)@ == old(self)@.after_success_jmp(),
    {
        self.view = self.view_cp;
        self.last_view = (self.view_cp as i32) - 1;
    }

    /// Abandons the prepared view.
    pub fn fail_jmp(&mut self)
        ensures
            final(self)@ == old(self)@.after_fail_jmp(),
    {
        self.view_cp = self.view;
    }

    /// Moves to the next view; the caller wakes whoever waits for a view change.
    pub fn view_add_one(&mut self)
        requires
            old(self).view < u64::MAX,
            old(self).view_cp < u64::MAX,
            old(self).last_view < i32::MAX,
        ensures
            final(self)@ == old(self)@.after_view_add_one(),
    {
        self.prune();
        self.view = self.view + 1;
        self.last_view = self.last_view + 1;
        self.view_cp = self.view_cp + 1;
    }

    /// Records that `who` asked for a new view `view`. Returns whether exactly a
    /// quorum has now asked for it; then `best_view` is `view`, and the caller
    /// wakes whoever waits for it.
    pub fn add_new_view(&mut self, view: u64, who: PublicKey) -> (ready: bool)
        ensures
            (final(self)@, ready) == old(self)@.after_add_new_view(view, who),
            final(self)@.new_views_in(view) == old(self)@.new_views_in(view).push(who),
            ready <==> final(self)@.new_views_in(view).len() == old(self).threshold,
            ready ==> final(self).best_view == view,
            !ready ==> final(self).best_view == old(self).best_view,
    {
        proof {
            crate::laws::lemma_new_view_reports_quorum(self@, view, who);
        }
        let ghost pre = self@;
        let mut senders = match self.new_views.remove(&view) {
            Some(v) => v,
            None => Vec::new(),
        };
        proof {
            assert(senders@ == pre.new_views_in(view));
        }
        senders.push(who);
        let count = senders.len();
        let ghost pushed = senders@;
        self.new_views.insert(view, senders);
        proof {
            assert(senders_view(self.new_views@) =~= pre.new_views.insert(view, pushed));
        }
        if count == self.threshold {
            self.best_view = view;
            true
        } else {
            false
        }
    }

    /// Records the vote of `voter_id` for `block_hash` in `msg_view`. Returns the
    /// certificate when this vote completes the quorum.
    pub fn add_vote(&mut self, msg_view: u64, block_hash: Digest, voter_id: PublicKey) -> (qc: Option<QC>)
        requires
            old(self)@.wf(),
        ensures
            (final(self)@, qc) == old(self)@.after_add_vote(msg_view, block_hash, voter_id),
    {
        let ghost pre = self@;
        self.set_voter_id(voter_id);
        let mut view_map = match self.votes.remove(&msg_view) {
            Some(m) => m,
            None => HashMap::new(),
        };
        proof {
            assert(view_map@.map_values(|v: Vec<PublicKey>| v@) =~= pre.votes_in(msg_view));
        }
        let mut voters = match view_map.remove(&block_hash) {
            Some(v) => v,
            None => Vec::new(),
        };
        proof {
            assert(voters@ == pre.tally(msg_view, block_hash));
        }
        voters.push(voter_id);
        let count = voters.len();
        let ghost pushed = voters@;
        view_map.insert(block_hash, voters);
        let ghost inner = view_map@;
        self.votes.insert(msg_view, view_map);
        proof {
            assert(inner.map_values(|v: Vec<PublicKey>| v@) =~= pre.votes_in(msg_view).insert(block_hash, pushed));
            assert(votes_view(self.votes@) =~= pre.votes.insert(msg_view, pre.votes_in(msg_view).insert(block_hash, pushed)));
        }
        if count == self.threshold {
            let s_array = vstd::slice::slice_to_vec(self.get_array());
            self.abse_info = s_array;
            self.reset_array();
            Some(QC::new(block_hash, msg_view))
        } else {
            None
        }
    }

    /// Records the best view a quorum asked for.
    pub fn set_best_view(&mut self, view: u64)
        ensures
            final(self)@ == (VoterModel { best_view: view, ..old(self)@ }),
    {
        self.best_view = view;
    }

    /// Hands `info` to the reputation tracker.
    pub fn set_abse_info(&mut self, info: Vec<u64>)
        ensures
            final(self)@ == (VoterModel { abse_info: info@, ..old(self)@ }),
    {
        self.abse_info = info;
    }

    /// Adopts `new_qc` as the highest certificate if it is for a later view; the
    /// caller then moves the latest key block to `new_qc.node`.
    pub fn update_qc_high(&mut self, new_qc: QC) -> (updated: bool)
        ensures
            (final(self)@, updated) == old(self)@.after_update_qc_high(new_qc),
    {
        if new_qc.view > self.generic_qc.view {
            self.generic_qc = new_qc;
            true
        } else {
            false
        }
    }

    /// Locks on `qc` if it is for a later view than the current lock.
    pub fn update_locked_qc(&mut self, qc: QC) -> (updated: bool)
        ensures
            (final(self)@, updated) == old(self)@.after_update_locked_qc(qc),
    {
        if qc.view > self.locked_qc.view {
            self.locked_qc = qc;
            true
        } else {
            false
        }
    }
}

} // verus!

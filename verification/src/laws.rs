use vstd::prelude::*;
use crate::buffer::{held_after, held_for, spec_classify, ViewClass};
use crate::leadership::{leader_at, Leadership};
use crate::protocol::{
    after_leader_scored, after_proposal, after_timeout, after_vote, jump_due, jump_from, spec_jump,
    spec_vote_package, will_vote, ProposalFacts,
};
use crate::tally::keep_from;
use crate::types::{Digest, Message, NetworkPackage, PublicKey, QC, Signature};
use crate::voter_set::{last_index_map, quorum_size};
use crate::voter_state::{view_before, zeros, VoterModel};

verus! {

/// A quorum is at most the committee, any two quorums of a committee share a
/// member, and the members outside a quorum are at most a third of the committee:
/// `3 * quorum >= 2 * n`.
pub proof fn lemma_quorums_intersect(n: nat)
    requires
        n > 0,
    ensures
        quorum_size(n) <= n,
        2 * quorum_size(n) > n,
        3 * quorum_size(n) >= 2 * n,
        3 * (n - quorum_size(n)) <= n,
{
}

/// The committee index finds exactly the members, each at its last position.
pub proof fn lemma_index_finds_last_position(voters: Seq<PublicKey>, k: PublicKey)
    requires
        voters.len() <= usize::MAX,
    ensures
        last_index_map(voters).contains_key(k) <==> voters.contains(k),
        last_index_map(voters).contains_key(k) ==> {
            let i = last_index_map(voters)[k] as int;
            &&& 0 <= i < voters.len()
            &&& voters[i] == k
            &&& forall|j: int| i < j < voters.len() ==> voters[j] != k
        },
    decreases voters.len(),
{
    if voters.len() > 0 {
        let init = voters.drop_last();
        lemma_index_finds_last_position(init, k);
        if voters.last() != k {
            if init.contains(k) {
                let w = choose|w: int| 0 <= w < init.len() && init[w] == k;
                assert(voters[w] == k);
            }
            if voters.contains(k) {
                let w = choose|w: int| 0 <= w < voters.len() && voters[w] == k;
                assert(init[w] == k);
            }
            if last_index_map(voters).contains_key(k) {
                let i = last_index_map(voters)[k] as int;
                assert(voters[i] == init[i]);
                assert forall|j: int| i < j < voters.len() implies voters[j] != k by {
                    if j < voters.len() - 1 {
                        assert(init[j] == voters[j]);
                    }
                }
            }
        } else {
            assert(voters[voters.len() - 1] == k);
        }
    }
}

/// Every position the committee index gives is a position of the committee.
pub proof fn lemma_index_within_committee(voters: Seq<PublicKey>)
    requires
        voters.len() <= usize::MAX,
    ensures
        forall|k: PublicKey| #[trigger] last_index_map(voters).contains_key(k)
            ==> (last_index_map(voters)[k] as int) < voters.len(),
{
    assert forall|k: PublicKey| #[trigger] last_index_map(voters).contains_key(k)
        implies (last_index_map(voters)[k] as int) < voters.len() by {
        lemma_index_finds_last_position(voters, k);
    }
}

/// In a committee without repeated members, looking up the member at position `i`
/// gives `i`.
pub proof fn lemma_index_round_trip(voters: Seq<PublicKey>, i: int)
    requires
        voters.len() <= usize::MAX,
        voters.no_duplicates(),
        0 <= i < voters.len(),
    ensures
        last_index_map(voters).contains_key(voters[i]),
        last_index_map(voters)[voters[i]] as int == i,
{
    lemma_index_finds_last_position(voters, voters[i]);
    assert(voters.contains(voters[i]));
}

/// A leader is a member of the committee.
pub proof fn lemma_leader_is_member(voters: Seq<PublicKey>, rotation: nat, view: int)
    requires
        voters.len() > 0,
        rotation > 0,
        view >= 0,
    ensures
        voters.contains(leader_at(voters, rotation, view)),
{
    let q = view / rotation as int;
    assert(q >= 0) by (nonlinear_arith)
        requires view >= 0, rotation > 0, q == view / rotation as int;
    vstd::arithmetic::div_mod::lemma_mod_pos_bound(q, voters.len() as int);
    assert(voters[q % voters.len() as int] == leader_at(voters, rotation, view));
}

/// Views of one rotation block have the same leader.
pub proof fn lemma_leader_fixed_within_rotation(voters: Seq<PublicKey>, rotation: nat, v1: int, v2: int)
    requires
        v1 / rotation as int == v2 / rotation as int,
    ensures
        leader_at(voters, rotation, v1) == leader_at(voters, rotation, v2),
{
}

/// Leadership comes back every full turn of the committee: the view
/// `view + rotation * n` has the leader of `view`.
pub proof fn lemma_leader_periodic(voters: Seq<PublicKey>, rotation: nat, view: int)
    requires
        voters.len() > 0,
        rotation > 0,
    ensures
        leader_at(voters, rotation, view + rotation * voters.len()) == leader_at(voters, rotation, view),
{
    let r = rotation as int;
    let n = voters.len() as int;
    let q = view / r;
    vstd::arithmetic::div_mod::lemma_fundamental_div_mod(view, r);
    vstd::arithmetic::div_mod::lemma_mod_bound(view, r);
    assert((view + r * n) / r == q + n) by {
        vstd::arithmetic::div_mod::lemma_div_multiples_vanish_fancy(q + n, view % r, r);
        assert(view + r * n == r * (q + n) + view % r) by (nonlinear_arith)
            requires view == r * q + view % r;
    }
    vstd::arithmetic::div_mod::lemma_mod_add_multiples_vanish(q, n);
}

/// In a committee of distinct members, the leader changes exactly at the start of
/// the next rotation block: a view after `view` whose leader differs, with the
/// leader of `view` in every view between, is `(view / rotation + 1) * rotation`.
pub proof fn lemma_next_leader_is_next_block(voters: Seq<PublicKey>, rotation: nat, view: int, next: int)
    requires
        voters.len() >= 2,
        voters.no_duplicates(),
        rotation > 0,
        view >= 0,
        next > view,
        leader_at(voters, rotation, next) != leader_at(voters, rotation, view),
        forall|u: int| view < u < next ==> #[trigger] leader_at(voters, rotation, u) == leader_at(voters, rotation, view),
    ensures
        next == (view / rotation as int + 1) * rotation as int,
{
    let r = rotation as int;
    let n = voters.len() as int;
    let q = view / r;
    let w = (q + 1) * r;
    vstd::arithmetic::div_mod::lemma_fundamental_div_mod(view, r);
    vstd::arithmetic::div_mod::lemma_mod_pos_bound(view, r);
    assert(q >= 0) by (nonlinear_arith)
        requires view >= 0, r > 0, q == view / r;
    assert(view < w) by (nonlinear_arith)
        requires view == r * q + view % r, view % r < r, w == (q + 1) * r;
    // views before the next block keep the leader of `view`
    assert forall|u: int| view <= u < w implies #[trigger] (u / r) == q by {
        assert(0 <= u - q * r < r) by (nonlinear_arith)
            requires view == r * q + view % r, 0 <= view % r, view <= u, u < w, w == (q + 1) * r;
        vstd::arithmetic::div_mod::lemma_fundamental_div_mod_converse(u, r, q, u - q * r);
    }
    // the next block has another leader
    assert(w / r == q + 1) by {
        vstd::arithmetic::div_mod::lemma_fundamental_div_mod_converse(w, r, q + 1, 0);
    }
    vstd::arithmetic::div_mod::lemma_mod_pos_bound(q, n);
    vstd::arithmetic::div_mod::lemma_mod_pos_bound(q + 1, n);
    vstd::arithmetic::div_mod::lemma_add_mod_noop(q, 1, n);
    vstd::arithmetic::div_mod::lemma_small_mod(1, n as nat);
    let a = q % n;
    let b = (q + 1) % n;
    assert(a != b) by {
        if a + 1 < n {
            vstd::arithmetic::div_mod::lemma_small_mod((a + 1) as nat, n as nat);
        } else {
            vstd::arithmetic::div_mod::lemma_mod_self_0(n);
        }
    }
    assert(leader_at(voters, rotation, w) != leader_at(voters, rotation, view));
    if next < w {
        assert(next / r == q);
    } else if next > w {
        assert(leader_at(voters, rotation, w) == leader_at(voters, rotation, view));
    }
}

/// A vote adds its voter at the end of the tally of its block and view, and
/// leaves every other tally as it was.
pub proof fn lemma_vote_extends_tally(s: VoterModel, view: u64, digest: Digest, who: PublicKey, v: u64, d: Digest)
    ensures
        s.after_add_vote(view, digest, who).0.tally(view, digest) == s.tally(view, digest).push(who),
        (v, d) != (view, digest) ==> s.after_add_vote(view, digest, who).0.tally(v, d) == s.tally(v, d),
{
}

/// A certificate is formed when, and only when, the tally reaches the threshold.
pub proof fn lemma_certificate_at_threshold(s: VoterModel, view: u64, digest: Digest, who: PublicKey)
    ensures
        ({
            let (s1, qc) = s.after_add_vote(view, digest, who);
            &&& (qc is Some) == (s1.tally(view, digest).len() == s.threshold)
            &&& qc is Some ==> qc == Some(QC { node: digest, view })
        }),
{
}

/// Two successive votes for the same block and view never both form a
/// certificate (see `lemma_certificate_once_in_run` for any run of votes).
pub proof fn lemma_certificate_formed_once(s: VoterModel, view: u64, digest: Digest, a: PublicKey, b: PublicKey)
    ensures
        ({
            let (s1, q1) = s.after_add_vote(view, digest, a);
            let (s2, q2) = s1.after_add_vote(view, digest, b);
            !(q1 is Some && q2 is Some)
        }),
{
}

/// The state after the votes of `votes` (view, block, voter), counted in order.
pub open spec fn replay_votes(s: VoterModel, votes: Seq<(u64, Digest, PublicKey)>) -> VoterModel
    decreases votes.len(),
{
    if votes.len() == 0 {
        s
    } else {
        let last = votes.last();
        replay_votes(s, votes.drop_last()).after_add_vote(last.0, last.1, last.2).0
    }
}

/// What the `i`-th vote of `votes` returns when the votes are counted in order.
pub open spec fn certificate_at(s: VoterModel, votes: Seq<(u64, Digest, PublicKey)>, i: int) -> Option<QC> {
    replay_votes(s, votes.take(i)).after_add_vote(votes[i].0, votes[i].1, votes[i].2).1
}

/// How many of `votes` are for `digest` in `view`.
pub open spec fn votes_for(votes: Seq<(u64, Digest, PublicKey)>, view: u64, digest: Digest) -> nat
    decreases votes.len(),
{
    if votes.len() == 0 {
        0
    } else {
        let last = votes.last();
        votes_for(votes.drop_last(), view, digest) + if last.0 == view && last.1 == digest { 1nat } else { 0nat }
    }
}

/// Counting votes in order adds each voter to the tally of its block and view.
pub proof fn lemma_replay_tally(s: VoterModel, votes: Seq<(u64, Digest, PublicKey)>, view: u64, digest: Digest)
    ensures
        replay_votes(s, votes).tally(view, digest).len() == s.tally(view, digest).len() + votes_for(votes, view, digest),
        replay_votes(s, votes).threshold == s.threshold,
    decreases votes.len(),
{
    if votes.len() > 0 {
        let last = votes.last();
        lemma_replay_tally(s, votes.drop_last(), view, digest);
        lemma_vote_extends_tally(replay_votes(s, votes.drop_last()), last.0, last.1, last.2, view, digest);
    }
}

/// Later prefixes of a run hold at least as many votes for a block and view.
proof fn lemma_votes_for_grows(votes: Seq<(u64, Digest, PublicKey)>, i: int, j: int, view: u64, digest: Digest)
    requires
        0 <= i <= j <= votes.len(),
    ensures
        votes_for(votes.take(i), view, digest) <= votes_for(votes.take(j), view, digest),
    decreases j - i,
{
    if i < j {
        lemma_votes_for_grows(votes, i, j - 1, view, digest);
        assert(votes.take(j).drop_last() == votes.take(j - 1));
    }
}

/// In any run of votes, counted in order, no certificate is returned twice: the
/// tally of a block and view only grows, and a certificate is returned only when
/// it reaches the threshold.
pub proof fn lemma_certificate_once_in_run(s: VoterModel, votes: Seq<(u64, Digest, PublicKey)>, i: int, j: int)
    requires
        0 <= i < j < votes.len(),
    ensures
        !(certificate_at(s, votes, i) is Some && certificate_at(s, votes, i) == certificate_at(s, votes, j)),
{
    if certificate_at(s, votes, i) is Some && certificate_at(s, votes, i) == certificate_at(s, votes, j) {
        let v = votes[i].0;
        let d = votes[i].1;
        let pre_i = replay_votes(s, votes.take(i));
        let pre_j = replay_votes(s, votes.take(j));
        lemma_certificate_at_threshold(pre_i, v, d, votes[i].2);
        lemma_certificate_at_threshold(pre_j, votes[j].0, votes[j].1, votes[j].2);
        assert(votes[j].0 == v && votes[j].1 == d);
        lemma_vote_extends_tally(pre_i, v, d, votes[i].2, v, d);
        lemma_vote_extends_tally(pre_j, v, d, votes[j].2, v, d);
        lemma_replay_tally(s, votes.take(i), v, d);
        lemma_replay_tally(s, votes.take(j), v, d);
        lemma_votes_for_grows(votes, i + 1, j, v, d);
        assert(votes.take(i + 1).drop_last() == votes.take(i));
        assert(votes_for(votes.take(i + 1), v, d) == votes_for(votes.take(i), v, d) + 1);
    }
}

/// When a vote forms a certificate, the reputation tracker gets the scores with the
/// voter marked, and the scores start over at zero.
pub proof fn lemma_certificate_hands_over_scores(s: VoterModel, view: u64, digest: Digest, who: PublicKey)
    requires
        s.wf(),
    ensures
        ({
            let (s1, qc) = s.after_add_vote(view, digest, who);
            &&& qc is Some ==> s1.abse_info == s.marked(who) && s1.scores == zeros(s.scores.len())
            &&& qc is None ==> s1.abse_info == s.abse_info && s1.scores == s.marked(who)
        }),
{
}

/// Marking a voter changes its own slot only, to 1, and keeps the length.
pub proof fn lemma_marking_touches_one_slot(s: VoterModel, who: PublicKey, i: int)
    requires
        s.wf(),
        0 <= i < s.scores.len(),
    ensures
        s.marked(who).len() == s.scores.len(),
        (s.id_to_index.contains_key(who) && i == s.id_to_index[who] as int) ==> s.marked(who)[i] == 1,
        !(s.id_to_index.contains_key(who) && i == s.id_to_index[who] as int) ==> s.marked(who)[i] == s.scores[i],
{
}

/// A quorum of new-view messages for a view is reported once: two successive
/// messages for the same view never both report it.
pub proof fn lemma_new_view_ready_once(s: VoterModel, view: u64, a: PublicKey, b: PublicKey)
    ensures
        ({
            let (s1, r1) = s.after_add_new_view(view, a);
            let (s2, r2) = s1.after_add_new_view(view, b);
            &&& !(r1 && r2)
            &&& r1 ==> s1.best_view == view
        }),
{
}

/// The highest certificate only moves to later views, to the later of the two,
/// and offering the same certificate again changes nothing.
pub proof fn lemma_qc_high_monotone(s: VoterModel, qc: QC)
    ensures
        ({
            let (s1, updated) = s.after_update_qc_high(qc);
            &&& s1.generic_qc.view >= s.generic_qc.view
            &&& s1.generic_qc.view >= qc.view
            &&& (s1.generic_qc.view == s.generic_qc.view || s1.generic_qc.view == qc.view)
            &&& updated == (s1.generic_qc != s.generic_qc || qc.view > s.generic_qc.view)
            &&& s1.after_update_qc_high(qc) == (s1, false)
        }),
{
}

/// The lock only moves to later views, and offering the same certificate again
/// changes nothing.
pub proof fn lemma_lock_monotone(s: VoterModel, qc: QC)
    ensures
        ({
            let (s1, updated) = s.after_update_locked_qc(qc);
            &&& s1.locked_qc.view >= s.locked_qc.view
            &&& s1.locked_qc.view >= qc.view
            &&& updated ==> s1.locked_qc == qc
            &&& s1.after_update_locked_qc(qc) == (s1, false)
        }),
{
}

/// After pruning, only votes and new-view messages of the current view and later
/// remain, unchanged; pruning again changes nothing.
pub proof fn lemma_pruning_keeps_current(s: VoterModel, v: u64, d: Digest)
    ensures
        forall|k: u64| #[trigger] s.pruned().votes.contains_key(k) ==> k >= s.view,
        forall|k: u64| #[trigger] s.pruned().new_views.contains_key(k) ==> k >= s.view,
        v >= s.view ==> s.pruned().tally(v, d) == s.tally(v, d),
        v >= s.view ==> s.pruned().new_views_in(v) == s.new_views_in(v),
        v < s.view ==> s.pruned().tally(v, d) == Seq::<PublicKey>::empty(),
        s.pruned().pruned() == s.pruned(),
{
    assert(keep_from(keep_from(s.votes, s.view), s.view) =~= keep_from(s.votes, s.view));
    assert(keep_from(keep_from(s.new_views, s.view), s.view) =~= keep_from(s.new_views, s.view));
}

/// Moving to the next view advances the view, the prepared view and the last
/// finished view by one each.
pub proof fn lemma_view_add_one_advances(s: VoterModel)
    requires
        s.view < u64::MAX,
        s.view_cp < u64::MAX,
        s.last_view < i32::MAX,
    ensures
        s.after_view_add_one().view == s.view + 1,
        s.after_view_add_one().view_cp == s.view_cp + 1,
        s.after_view_add_one().last_view == s.last_view + 1,
{
}

/// A completed view jump never takes the voter back.
pub proof fn lemma_jump_moves_forward(s: VoterModel, l: Leadership, view: u64)
    requires
        jump_due(s, l, view),
    ensures
        s.after_success_jmp().view > s.view,
        s.after_success_jmp().view == s.view_cp,
{
}

/// No step changes which replicas have score slots or how many slots there are,
/// so a voter that can look up every member keeps that property.
pub proof fn lemma_steps_keep_wf(s: VoterModel, view: u64, digest: Digest, who: PublicKey, qc: QC, m: u64)
    requires
        s.wf(),
    ensures
        s.with_voter_marked(who).wf(),
        s.with_scores_reset().wf(),
        s.pruned().wf(),
        s.after_view_add_multi(m).wf(),
        s.after_view_add_one().wf(),
        s.after_success_jmp().wf(),
        s.after_fail_jmp().wf(),
        s.after_add_vote(view, digest, who).0.wf(),
        s.after_add_new_view(view, who).0.wf(),
        s.after_update_qc_high(qc).0.wf(),
        s.after_update_locked_qc(qc).0.wf(),
        after_leader_scored(s, who).wf(),
        after_vote(s, view, digest, who).0.wf(),
        after_timeout(s, m).wf(),
{
}

/// A timeout towards a later view moves the voter forward and abandons the
/// prepared jump.
pub proof fn lemma_timeout_moves_forward(s: VoterModel, next_view: u64)
    requires
        next_view > s.view,
    ensures
        after_timeout(s, next_view).view > s.view,
        after_timeout(s, next_view).view_cp == s.view,
{
}

/// A voter votes at most once per view: after voting for a proposal of `view`,
/// no proposal of that view or an earlier one gets its vote.
pub proof fn lemma_vote_once_per_view(s: VoterModel, view: u64, justify: QC, safety: bool, voted_view: u64, later: VoterModel, other: QC, other_safety: bool, v2: u64)
    requires
        will_vote(s, view, justify, safety, voted_view),
        v2 <= view,
    ensures
        view > voted_view,
        !will_vote(later, v2, other, other_safety, view),
{
}

/// A package pushed into the buffer is returned by the next drain when it is due,
/// is still held when it is for a later view, and is dropped only when it is more
/// than one view behind.
pub proof fn lemma_push_then_drain(m: Map<u64, Seq<NetworkPackage>>, v: u64, pkg: NetworkPackage, current_view: u64)
    requires
        current_view >= 1,
    ensures
        ({
            let m1 = m.insert(v, held_for(m, v as int).push(pkg));
            let drained = held_for(m1, current_view - 1) + held_for(m1, current_view as int);
            &&& spec_classify(v, current_view) == ViewClass::Current ==> drained.contains(pkg)
            &&& spec_classify(v, current_view) == ViewClass::Future ==> held_after(m1, current_view).contains_key(v)
                && held_after(m1, current_view)[v].contains(pkg)
            &&& spec_classify(v, current_view) == ViewClass::Stale ==> !held_after(m1, current_view).contains_key(v)
        }),
{
    let m1 = m.insert(v, held_for(m, v as int).push(pkg));
    let held = held_for(m, v as int).push(pkg);
    assert(held[held.len() - 1] == pkg);
    if v == current_view - 1 {
        let drained = held_for(m1, current_view - 1) + held_for(m1, current_view as int);
        assert(drained[held.len() - 1] == pkg);
    } else if v == current_view {
        let drained = held_for(m1, current_view - 1) + held_for(m1, current_view as int);
        assert(drained[held_for(m1, current_view - 1).len() + held.len() - 1] == pkg);
    }
}

/// Whatever a drain leaves in the buffer is for a later view than the current one.
pub proof fn lemma_drain_leaves_future(m: Map<u64, Seq<NetworkPackage>>, current_view: u64)
    ensures
        forall|k: u64| #[trigger] held_after(m, current_view).contains_key(k)
            ==> k > current_view && held_after(m, current_view)[k] == m[k],
{
}

/// The threshold is the least quorum: at least two thirds of the committee, and
/// one vote fewer would be less than two thirds.
pub proof fn lemma_threshold_is_least_quorum(n: nat)
    requires
        n > 0,
    ensures
        3 * quorum_size(n) >= 2 * n,
        3 * (quorum_size(n) - 1) < 2 * n,
        quorum_size(n) <= n,
{
    vstd::arithmetic::div_mod::lemma_fundamental_div_mod(n as int, 3);
    vstd::arithmetic::div_mod::lemma_mod_pos_bound(n as int, 3);
}

/// Whether the leader of view `current_view + i` has a score slot that the
/// reputation tracker accepts.
spec fn accepted_at(s: VoterModel, l: Leadership, current_view: u64, judgements: Seq<bool>, i: int) -> bool {
    let leader = l.leader_of(current_view + i);
    &&& s.id_to_index.contains_key(leader)
    &&& judgements[s.id_to_index[leader] as int]
}

proof fn lemma_jump_from_accepted(s: VoterModel, l: Leadership, current_view: u64, judgements: Seq<bool>, i: int)
    requires
        i >= 1,
    ensures
        ({
            let r = jump_from(s, l, current_view, judgements, i) as int;
            &&& r != 1 ==> i <= r <= s.maxjmp && accepted_at(s, l, current_view, judgements, r)
                && forall|k: int| i <= k < r ==> !accepted_at(s, l, current_view, judgements, k)
            &&& r == 1 ==> (i == 1 && 1 <= s.maxjmp && accepted_at(s, l, current_view, judgements, 1))
                || forall|k: int| i <= k <= s.maxjmp ==> !accepted_at(s, l, current_view, judgements, k)
        }),
    decreases s.maxjmp + 1 - i,
{
    if i <= s.maxjmp && !accepted_at(s, l, current_view, judgements, i) {
        lemma_jump_from_accepted(s, l, current_view, judgements, i + 1);
    }
}

/// The jump goes to an accepted leader: a jump of more than one view lands on a
/// view whose leader has a score slot judged acceptable, every view skipped on the
/// way has a leader without such a slot, and without any accepted leader among the
/// next `maxjmp` views there is no jump. A leader whose slot is judged false, the
/// replica itself included, is never a target.
pub proof fn lemma_jump_targets_accepted_leader(s: VoterModel, l: Leadership, current_view: u64, judgements: Seq<bool>)
    ensures
        ({
            let j = spec_jump(s, l, current_view, judgements) as int;
            let target = l.leader_of(current_view + j);
            &&& j >= 1
            &&& j == 1 || j <= s.maxjmp
            &&& j > 1 ==> s.id_to_index.contains_key(target) && judgements[s.id_to_index[target] as int]
            &&& forall|k: int| 1 <= k < j ==> {
                let skipped = #[trigger] l.leader_of(current_view + k);
                !(s.id_to_index.contains_key(skipped) && judgements[s.id_to_index[skipped] as int])
            }
            &&& (forall|k: int| 1 <= k <= s.maxjmp ==> {
                let other = #[trigger] l.leader_of(current_view + k);
                !(s.id_to_index.contains_key(other) && judgements[s.id_to_index[other] as int])
            }) ==> j == 1
        }),
{
    lemma_jump_from_accepted(s, l, current_view, judgements, 1);
    let j = spec_jump(s, l, current_view, judgements) as int;
    assert forall|k: int| 1 <= k < j implies {
        let skipped = #[trigger] l.leader_of(current_view + k);
        !(s.id_to_index.contains_key(skipped) && judgements[s.id_to_index[skipped] as int])
    } by {
        assert(!accepted_at(s, l, current_view, judgements, k));
    }
    if forall|k: int| 1 <= k <= s.maxjmp ==> {
        let other = #[trigger] l.leader_of(current_view + k);
        !(s.id_to_index.contains_key(other) && judgements[s.id_to_index[other] as int])
    } {
        assert forall|k: int| 1 <= k <= s.maxjmp implies !accepted_at(s, l, current_view, judgements, k) by {
            let other = l.leader_of(current_view + k);
            assert(!(s.id_to_index.contains_key(other) && judgements[s.id_to_index[other] as int]));
        }
    }
}

/// A prepared jump to `view_cp` completes on a package of `view` exactly when the
/// jump goes forward and either this replica leads `view_cp` and the package is of
/// the view just before it, or another replica leads `view_cp` and the package is
/// of `view_cp` itself.
pub proof fn lemma_jump_completes_exactly(s: VoterModel, l: Leadership, view: u64)
    ensures
        jump_due(s, l, view) <==> {
            &&& s.view_cp > s.view
            &&& (l.leader_of(s.view_cp as int) == s.id && view + 1 == s.view_cp)
                || (l.leader_of(s.view_cp as int) != s.id && view == s.view_cp)
        },
        jump_due(s, l, view) ==> s.after_success_jmp().view == s.view_cp
            && s.after_success_jmp().last_view == view_before(s.view_cp) as i32
            && s.after_success_jmp().view_cp == s.view_cp,
{
}

/// A new-view message adds its sender to the view's senders, and the quorum is
/// reported exactly when the number of senders reaches the threshold, whoever
/// sends; then the best view is that view, otherwise it stays.
pub proof fn lemma_new_view_reports_quorum(s: VoterModel, view: u64, who: PublicKey)
    ensures
        ({
            let (s1, ready) = s.after_add_new_view(view, who);
            &&& s1.new_views_in(view) == s.new_views_in(view).push(who)
            &&& ready <==> s.new_views_in(view).len() + 1 == s.threshold
            &&& ready ==> s1.best_view == view
            &&& !ready ==> s1.best_view == s.best_view
            &&& forall|v: u64| v != view ==> #[trigger] s1.new_views_in(v) == s.new_views_in(v)
        }),
{
}

/// The three-chain rule: handling a proposal finalises the great-grandparent
/// exactly when the grandparent is the parent's direct parent and the
/// great-grandparent is the grandparent's direct parent; if either link is
/// missing nothing is finalised. The highest certificate and the lock follow the
/// proposal's and the parent's certificates, and a vote is sent iff the replica voted.
pub proof fn lemma_proposal_outcome(
    s: VoterModel,
    l: Leadership,
    current_view: u64,
    voted: bool,
    facts: ProposalFacts,
    judgements: Seq<bool>,
)
    ensures
        ({
            let (s1, out) = after_proposal(s, l, current_view, voted, facts, judgements);
            &&& out.commit is Some <==> facts.parent_linked && facts.grandparent_linked
            &&& out.commit is Some ==> out.commit == Some(facts.great_grandparent)
            &&& out.vote is Some <==> voted
            &&& out.qc_high_updated <==> facts.justify.view > s.generic_qc.view
            &&& s1.generic_qc.view == if facts.justify.view > s.generic_qc.view { facts.justify.view } else { s.generic_qc.view }
            &&& s1.locked_qc == if facts.parent_justify.view > s.locked_qc.view { facts.parent_justify } else { s.locked_qc }
            &&& !voted ==> out.notify
            &&& out.notify <==> crate::protocol::proposal_jump(s, l, current_view, voted, judgements) <= 1
            &&& out.notify ==> s1.view == (s.view + 1) as u64 && s1.view_cp == (s.view_cp + 1) as u64
            &&& !out.notify ==> s1.view == s.view
                && s1.view_cp == (current_view + crate::protocol::proposal_jump(s, l, current_view, voted, judgements)) as u64
        }),
{
}

/// A vote is sent by its voter, for the block, and addressed to the leader of the
/// view after the one it is for; without a jump it is for the current view.
pub proof fn lemma_vote_addressed_to_next_leader(
    l: Leadership,
    id: PublicKey,
    hash: Digest,
    signature: Signature,
    current_view: u64,
    jmp: u64,
)
    requires
        current_view + jmp <= u64::MAX,
    ensures
        ({
            let pkg = spec_vote_package(l, id, hash, signature, current_view, jmp);
            &&& pkg.from == id
            &&& pkg.message == Message::Vote(hash, id, signature)
            &&& pkg.signature == 0
            &&& pkg.view matches Some(v) && pkg.to == Some(l.leader_of(v + 1))
            &&& jmp <= 1 ==> pkg.view == Some(current_view)
            &&& jmp > 1 ==> pkg.view == Some((current_view + jmp - 1) as u64)
        }),
{
}

/// The voting rule: a proposal for a view after the last vote gets a vote when it
/// extends the lock or carries a certificate at least as recent as the lock, and
/// otherwise it does not; no proposal for the last voted view or an earlier one gets one.
pub proof fn lemma_voting_rule(s: VoterModel, view: u64, justify: QC, safety: bool, voted_view: u64)
    ensures
        view > voted_view && safety ==> will_vote(s, view, justify, safety, voted_view),
        view > voted_view && justify.view >= s.locked_qc.view ==> will_vote(s, view, justify, safety, voted_view),
        !safety && justify.view < s.locked_qc.view ==> !will_vote(s, view, justify, safety, voted_view),
        view <= voted_view ==> !will_vote(s, view, justify, safety, voted_view),
{
}

/// Everything a voter knows besides its vote tallies and scores, unchanged.
pub open spec fn same_besides_votes_and_scores(a: VoterModel, b: VoterModel) -> bool {
    &&& a.id == b.id
    &&& a.view == b.view
    &&& a.view_cp == b.view_cp
    &&& a.last_view == b.last_view
    &&& a.maxjmp == b.maxjmp
    &&& a.threshold == b.threshold
    &&& a.generic_qc == b.generic_qc
    &&& a.locked_qc == b.locked_qc
    &&& a.best_view == b.best_view
    &&& a.new_views == b.new_views
    &&& a.id_to_index == b.id_to_index
}

/// Counting a vote changes only the tallies, the scores and what the reputation
/// tracker was handed; marking and resetting change only the scores, keeping
/// their number.
pub proof fn lemma_vote_counting_frame(s: VoterModel, view: u64, digest: Digest, who: PublicKey)
    requires
        s.wf(),
    ensures
        same_besides_votes_and_scores(s.after_add_vote(view, digest, who).0, s),
        s.after_add_vote(view, digest, who).0.scores.len() == s.scores.len(),
        s.with_voter_marked(who) == (VoterModel { scores: s.with_voter_marked(who).scores, ..s }),
        s.with_scores_reset() == (VoterModel { scores: s.with_scores_reset().scores, ..s }),
        s.with_scores_reset().scores.len() == s.scores.len(),
        forall|i: int| 0 <= i < s.scores.len() ==> #[trigger] s.with_scores_reset().scores[i] == 0,
{
}

/// A replica starts in `view` with the jump target at `view`, `view - 1` as the last
/// finished view, locked on the certificate it starts from, with no votes, no
/// new-view messages, no handed-over scores, and every score slot at zero.
pub proof fn lemma_initial_state(
    id: PublicKey,
    view: u64,
    maxjmp: usize,
    generic_qc: QC,
    threshold: usize,
    id_to_index: Map<PublicKey, usize>,
    lenn: nat,
)
    requires
        (view as i32) > i32::MIN,
    ensures
        ({
            let s = VoterModel::initial(id, view, maxjmp, generic_qc, threshold, id_to_index, lenn);
            &&& s.id == id && s.view == view && s.view_cp == view
            &&& s.last_view as int == (view as i32) - 1
            &&& s.maxjmp == maxjmp && s.threshold == threshold
            &&& s.generic_qc == generic_qc && s.locked_qc == generic_qc
            &&& s.best_view == 0
            &&& forall|v: u64, d: Digest| #[trigger] s.tally(v, d).len() == 0
            &&& forall|v: u64| #[trigger] s.new_views_in(v).len() == 0
            &&& s.abse_info.len() == 0
            &&& s.id_to_index == id_to_index
            &&& s.scores.len() == lenn
            &&& forall|i: int| 0 <= i < lenn ==> #[trigger] s.scores[i] == 0
        }),
{
}

/// The view moves: preparing a jump keeps the view, targets `multiview` and counts
/// one more finished view; moving to the next view advances all three counters by
/// one; abandoning a jump targets the current view again. Each drops exactly the
/// tallies of views before the current one.
pub proof fn lemma_view_moves(s: VoterModel, multiview: u64, v: u64, d: Digest)
    requires
        s.view < u64::MAX,
        s.view_cp < u64::MAX,
        s.last_view < i32::MAX,
    ensures
        s.after_view_add_multi(multiview).view == s.view,
        s.after_view_add_multi(multiview).view_cp == multiview,
        s.after_view_add_multi(multiview).last_view == s.last_view + 1,
        s.after_view_add_multi(multiview).generic_qc == s.generic_qc,
        s.after_view_add_multi(multiview).locked_qc == s.locked_qc,
        s.after_view_add_multi(multiview).tally(v, d) == if v >= s.view { s.tally(v, d) } else { Seq::empty() },
        s.after_view_add_one().tally(v, d) == if v >= s.view { s.tally(v, d) } else { Seq::empty() },
        s.after_view_add_one().new_views_in(v) == if v >= s.view { s.new_views_in(v) } else { Seq::empty() },
        s.after_view_add_one().generic_qc == s.generic_qc,
        s.after_view_add_one().locked_qc == s.locked_qc,
        s.after_view_add_one().scores == s.scores,
        s.after_fail_jmp().view_cp == s.view,
        s.after_fail_jmp().view == s.view,
        s.after_fail_jmp().last_view == s.last_view,
        s.pruned().view == s.view && s.pruned().scores == s.scores && s.pruned().generic_qc == s.generic_qc,
{
}

/// Each voter leads a block of `rotation` consecutive views, in committee order:
/// every view of block `k` is led by the member at position `k mod n`.
pub proof fn lemma_leader_of_block(voters: Seq<PublicKey>, rotation: nat, k: int, offset: int)
    requires
        voters.len() > 0,
        rotation > 0,
        k >= 0,
        0 <= offset < rotation,
    ensures
        leader_at(voters, rotation, k * rotation + offset) == voters[k % voters.len() as int],
{
    vstd::arithmetic::div_mod::lemma_fundamental_div_mod_converse(k * rotation + offset, rotation as int, k, offset);
}

/// A certificate becomes the highest exactly when it is for a later view, and a
/// certificate becomes the lock exactly when it is for a later view than the lock;
/// nothing else changes.
pub proof fn lemma_certificate_updates_exact(s: VoterModel, qc: QC)
    ensures
        s.after_update_qc_high(qc).1 <==> qc.view > s.generic_qc.view,
        s.after_update_qc_high(qc).0 == (VoterModel {
            generic_qc: if qc.view > s.generic_qc.view { qc } else { s.generic_qc },
            ..s
        }),
        s.after_update_locked_qc(qc).1 <==> qc.view > s.locked_qc.view,
        s.after_update_locked_qc(qc).0 == (VoterModel {
            locked_qc: if qc.view > s.locked_qc.view { qc } else { s.locked_qc },
            ..s
        }),
{
}

/// A counted vote that completes a certificate makes the certificate's view the
/// best view and offers the certificate as the highest one; otherwise only the
/// tally and the scores change.
pub proof fn lemma_vote_outcome(s: VoterModel, view: u64, digest: Digest, who: PublicKey)
    requires
        s.wf(),
    ensures
        ({
            let (s1, qc, updated) = after_vote(s, view, digest, who);
            &&& s1.tally(view, digest) == s.tally(view, digest).push(who)
            &&& qc is Some <==> s1.tally(view, digest).len() == s.threshold
            &&& qc is Some ==> qc == Some(QC { node: digest, view }) && s1.best_view == view
                && (updated <==> view > s.generic_qc.view)
                && s1.generic_qc.view == if view > s.generic_qc.view { view } else { s.generic_qc.view }
            &&& qc is None ==> !updated && s1.best_view == s.best_view && s1.generic_qc == s.generic_qc
            &&& s1.locked_qc == s.locked_qc && s1.view == s.view
        }),
{
    lemma_certificate_at_threshold(s, view, digest, who);
}

/// Voting for another replica's proposal hands the scores, with that replica
/// marked, to the reputation tracker and resets them; one's own proposal changes
/// nothing.
pub proof fn lemma_leader_scoring(s: VoterModel, from: PublicKey)
    requires
        s.wf(),
    ensures
        from != s.id ==> after_leader_scored(s, from).abse_info == s.marked(from)
            && after_leader_scored(s, from).scores == zeros(s.scores.len())
            && after_leader_scored(s, from) == (VoterModel {
                abse_info: s.marked(from),
                scores: zeros(s.scores.len()),
                ..s
            }),
        from == s.id ==> after_leader_scored(s, from) == s,
{
}

/// A timeout moves the voter to the new view, targets the view it left, and counts
/// the view before the new one as the last finished; certificates and tallies stay.
pub proof fn lemma_timeout_state(s: VoterModel, next_view: u64)
    ensures
        after_timeout(s, next_view).view == next_view,
        after_timeout(s, next_view).view_cp == s.view,
        after_timeout(s, next_view).last_view == view_before(next_view) as i32,
        after_timeout(s, next_view) == (VoterModel {
            view: next_view,
            view_cp: s.view,
            last_view: after_timeout(s, next_view).last_view,
            ..s
        }),
{
}

/// A package more than one view behind is stale, one ahead of the current view is
/// kept for later, and one of the current or the previous view is handled now.
pub proof fn lemma_classification(view: u64, current_view: u64)
    requires
        current_view >= 1,
    ensures
        (spec_classify(view, current_view) == ViewClass::Stale) <==> view + 1 < current_view,
        (spec_classify(view, current_view) == ViewClass::Future) <==> view > current_view,
        (spec_classify(view, current_view) == ViewClass::Current) <==> current_view <= view + 1 && view <= current_view,
{
}

/// A package carries its sender, its view, its addressee and its message as given,
/// with no signature of its own.
pub proof fn lemma_package_fields(id: PublicKey, message: Message, view: u64, to: Option<PublicKey>)
    ensures
        crate::types::spec_package(id, message, view, to).from == id,
        crate::types::spec_package(id, message, view, to).view == Some(view),
        crate::types::spec_package(id, message, view, to).to == to,
        crate::types::spec_package(id, message, view, to).message == message,
        crate::types::spec_package(id, message, view, to).signature == 0,
{
}

} // verus!

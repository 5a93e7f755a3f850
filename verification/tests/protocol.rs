use std::collections::HashMap;

use ach::leadership::{get_next_leader, Leadership};
use ach::protocol::{awaiting_view_change, backoff, vote_package, VoteOutcome};
use ach::types::{package_message, Block, Message, QC};
use ach::voter_set::VoterSet;
use ach::voter_state::VoterState;

fn index(ids: &[u64]) -> HashMap<u64, usize> {
    ids.iter().enumerate().map(|(i, id)| (*id, i)).collect()
}

fn committee() -> Leadership {
    Leadership::new(VoterSet::new(vec![1, 2, 3, 4]), 1)
}

fn state(id: u64, threshold: usize) -> VoterState {
    VoterState::new(id, 1, 3, QC::new(0, 0), threshold, index(&[1, 2, 3, 4]), 4)
}

#[test]
fn leader_of_prepared_view_jumps_on_vote_of_view_before() {
    let l = committee();
    // leader of view 4 is voter 1
    let mut s = state(1, 3);
    s.view_add_multi(4);
    assert!(!s.try_view_jump(&l, 4));
    assert_eq!(s.view, 1);
    assert!(s.try_view_jump(&l, 3));
    assert_eq!(s.view, 4);
    assert_eq!(s.last_view, 3);
    assert!(!s.try_view_jump(&l, 3));
}

#[test]
fn follower_jumps_on_package_of_prepared_view() {
    let l = committee();
    let mut s = state(2, 3);
    s.view_add_multi(4);
    assert!(!s.try_view_jump(&l, 3));
    assert!(s.try_view_jump(&l, 4));
    assert_eq!(s.view, 4);
}

#[test]
fn stale_proposals_are_recognised() {
    let mut s = state(2, 3);
    s.view_add_one();
    assert!(s.proposal_is_stale(1));
    assert!(!s.proposal_is_stale(2));
    assert!(!s.proposal_is_stale(3));
}

#[test]
fn votes_once_per_view_and_scores_leader() {
    let mut s = state(2, 3);
    s.update_locked_qc(QC::new(9, 4));
    let mut voted = 0u64;
    // neither extends the lock nor has a recent enough certificate
    assert!(!s.proposal_vote(5, 3, QC::new(1, 3), false, &mut voted));
    assert_eq!(voted, 0);
    // extends the lock
    assert!(s.proposal_vote(5, 3, QC::new(1, 3), true, &mut voted));
    assert_eq!(voted, 5);
    assert_eq!(s.abse_info, vec![0, 0, 1, 0]);
    assert_eq!(s.get_array(), &[0, 0, 0, 0]);
    // the same view again
    assert!(!s.proposal_vote(5, 3, QC::new(1, 4), true, &mut voted));
    // a later view with a certificate as recent as the lock
    assert!(s.proposal_vote(6, 2, QC::new(1, 4), false, &mut voted));
    assert_eq!(voted, 6);
    // own proposal does not count for reputation
    assert_eq!(s.abse_info, vec![0, 0, 1, 0]);
}

#[test]
fn jump_goes_to_first_accepted_leader() {
    let l = committee();
    let s = state(2, 3);
    // views 2, 3, 4 are led by 3, 4, 1 (slots 2, 3, 0)
    assert_eq!(s.choose_jump(&l, 1, &vec![true, true, true, true]), 1);
    assert_eq!(s.choose_jump(&l, 1, &vec![false, false, false, true]), 2);
    assert_eq!(s.choose_jump(&l, 1, &vec![true, false, false, false]), 3);
    assert_eq!(s.choose_jump(&l, 1, &vec![false, true, false, false]), 1);
}

#[test]
fn jump_skips_leaders_without_slot() {
    let l = Leadership::new(VoterSet::new(vec![1, 7, 3]), 1);
    let s = VoterState::new(1, 1, 2, QC::new(0, 0), 2, index(&[1, 3]), 2);
    // views 2 and 3 are led by 3 (slot 1) and 1 (slot 0); view 1 by 7 (no slot)
    assert_eq!(s.choose_jump(&l, 1, &vec![true, false]), 2);
    assert_eq!(s.choose_jump(&l, 0, &vec![false, true]), 2);
    assert_eq!(s.choose_jump(&l, 0, &vec![true, false]), 1);
}

#[test]
fn votes_go_to_leader_after_jump() {
    let l = committee();
    let plain = vote_package(&l, 2, 0xaa, 77, 5, 1);
    assert_eq!(plain, package_message(2, Message::Vote(0xaa, 2, 77), 5, Some(3)));
    let jumped = vote_package(&l, 2, 0xaa, 77, 5, 3);
    assert_eq!(jumped, package_message(2, Message::Vote(0xaa, 2, 77), 7, Some(1)));
    assert_eq!(jumped.signature, 0);
    assert_eq!(jumped.view, Some(7));
}

#[test]
fn finishing_a_view_moves_or_prepares() {
    let mut s = state(2, 3);
    assert!(s.finish_view(1, 1));
    assert_eq!((s.view, s.view_cp, s.last_view), (2, 2, 1));
    assert!(!s.finish_view(2, 3));
    assert_eq!((s.view, s.view_cp, s.last_view), (2, 5, 2));
}

#[test]
fn votes_form_certificates_and_raise_qc_high() {
    let mut s = state(2, 2);
    let first = s.on_vote(3, 0xcc, 1);
    assert_eq!(first, VoteOutcome { qc: None, qc_high_updated: false, new_view_ready: false });
    let second = s.on_vote(3, 0xcc, 4);
    assert_eq!(second, VoteOutcome { qc: Some(QC::new(0xcc, 3)), qc_high_updated: true, new_view_ready: false });
    assert_eq!(s.generic_qc, QC::new(0xcc, 3));
    assert_eq!(s.best_view, 3);
}

#[test]
fn new_view_messages_count_votes_and_senders() {
    let mut s = state(2, 2);
    s.update_qc_high(QC::new(1, 9));
    let a = s.on_new_view(4, 0xdd, 1);
    assert_eq!(a, VoteOutcome { qc: None, qc_high_updated: false, new_view_ready: false });
    let b = s.on_new_view(4, 0xdd, 3);
    assert_eq!(b, VoteOutcome { qc: Some(QC::new(0xdd, 4)), qc_high_updated: false, new_view_ready: true });
    assert_eq!(s.generic_qc, QC::new(1, 9));
    assert_eq!(s.best_view, 4);
}

#[test]
fn proposes_only_as_leader_of_unfinished_view() {
    let l = committee();
    // leader of view 1 is voter 2
    let s = state(2, 3);
    assert!(s.should_propose(&l));
    let other = state(3, 3);
    assert!(!other.should_propose(&l));
    let mut done = state(2, 3);
    done.view_add_multi(9);
    assert!(!done.should_propose(&l));
}

#[test]
fn leader_waits_for_view_change() {
    assert!(awaiting_view_change(3, 5));
    assert!(!awaiting_view_change(4, 5));
    assert!(!awaiting_view_change(9, 5));
}

#[test]
fn backoff_grows_while_view_is_stuck() {
    assert_eq!(backoff(4, 4, 1), (true, 2));
    assert_eq!(backoff(4, 4, 2), (true, 3));
    assert_eq!(backoff(4, 5, 3), (false, 1));
}

#[test]
fn timeout_moves_to_next_leader() {
    let l = Leadership::new(VoterSet::new(vec![1, 2, 3]), 2);
    let mut s = VoterState::new(1, 2, 3, QC::new(0, 0), 2, index(&[1, 2, 3]), 3);
    s.view_add_multi(6);
    let (leader, view) = get_next_leader(&l, s.view);
    assert_eq!((leader, view), (3, 4));
    s.on_timeout(view);
    assert_eq!(s.view, 4);
    assert_eq!(s.view_cp, 2);
    assert_eq!(s.last_view, 3);
}

#[test]
fn new_view_package_carries_highest_certificate() {
    let mut s = state(2, 3);
    s.update_qc_high(QC::new(5, 3));
    let pkg = s.new_view_package(4, 3, 0xee, 99);
    assert_eq!(pkg, package_message(2, Message::NewView(QC::new(5, 3), 0xee, 2, 99), 4, Some(3)));
}

#[test]
fn block_hash_is_its_digest() {
    let b = Block { digest: 42, justify: QC::new(41, 7) };
    assert_eq!(b.hash(), 42);
}

use ach::protocol::{ProposalFacts, ProposalOutcome};

fn facts(linked: bool) -> ProposalFacts {
    ProposalFacts {
        block_hash: 0x51,
        justify: QC::new(0x50, 4),
        signature: 8,
        parent_justify: QC::new(0x4f, 3),
        great_grandparent: 0x4e,
        parent_linked: linked,
        grandparent_linked: true,
    }
}

#[test]
fn proposal_completes_with_vote_lock_and_commit() {
    let l = committee();
    let mut s = state(2, 3);
    let mut voted = 0u64;
    let cv = s.view;
    assert!(s.proposal_vote(1, 2, QC::new(0x50, 4), false, &mut voted));
    let out = s.complete_proposal(&l, cv, true, facts(true), &vec![true, true, true, true]);
    assert_eq!(out, ProposalOutcome {
        vote: Some(package_message(2, Message::Vote(0x51, 2, 8), 1, Some(3))),
        qc_high_updated: true,
        commit: Some(0x4e),
        notify: true,
    });
    assert_eq!(s.generic_qc, QC::new(0x50, 4));
    assert_eq!(s.locked_qc, QC::new(0x4f, 3));
    assert_eq!((s.view, s.view_cp, s.last_view), (2, 2, 1));
}

#[test]
fn proposal_with_jump_prepares_view_and_skips_commit() {
    let l = committee();
    let mut s = state(2, 3);
    // views 2, 3 led by 3, 4 (slots 2, 3); only slot 3 accepted
    let out = s.complete_proposal(&l, 1, true, facts(false), &vec![false, false, false, true]);
    assert_eq!(out.vote, Some(package_message(2, Message::Vote(0x51, 2, 8), 2, Some(4))));
    assert_eq!(out.commit, None);
    assert!(!out.notify);
    assert_eq!((s.view, s.view_cp, s.last_view), (1, 3, 1));
}

#[test]
fn proposal_without_vote_still_updates() {
    let l = committee();
    let mut s = state(2, 3);
    let out = s.complete_proposal(&l, 1, false, facts(true), &vec![false, false, false, true]);
    assert_eq!(out.vote, None);
    assert_eq!(out.commit, Some(0x4e));
    assert!(out.notify);
    assert_eq!(s.view, 2);
}

#[test]
fn jump_search_near_top_of_view_range() {
    let l = committee();
    let s = state(2, 3);
    let top = u64::MAX - 1;
    // view u64::MAX is led by voter 4 (slot 3); offset 2 would overflow but is never examined
    assert_eq!(s.choose_jump(&l, top, &vec![false, false, false, true]), 1);
    assert_eq!(s.checked_jump(&l, top, &vec![false, false, false, true]), Some(1));
    assert_eq!(s.checked_jump(&l, top, &vec![false, false, false, false]), None);
    assert_eq!(s.checked_jump(&l, 1, &vec![false, false, false, true]), Some(2));
    let plain = vote_package(&l, 2, 1, 1, u64::MAX - 1, 1);
    assert_eq!(plain.to, Some(l.get_leader(u64::MAX)));
}

#[test]
fn well_formed_checks_score_slots() {
    let s = state(2, 3);
    assert!(s.well_formed());
    let bad = VoterState::new(1, 1, 3, QC::new(0, 0), 2, index(&[1, 2, 3]), 2);
    assert!(!bad.well_formed());
}

use std::collections::HashMap;

use ach::leadership::Leadership;
use ach::types::QC;
use ach::voter_set::VoterSet;
use ach::voter_state::VoterState;

fn index(ids: &[u64]) -> HashMap<u64, usize> {
    ids.iter().enumerate().map(|(i, id)| (*id, i)).collect()
}

fn state(threshold: usize) -> VoterState {
    VoterState::new(1, 1, 3, QC::new(0, 0), threshold, index(&[1, 2, 3, 4]), 4)
}

#[test]
fn new_state_starts_in_view() {
    let s = VoterState::new(9, 5, 2, QC::new(3, 4), 3, index(&[9, 8]), 2);
    assert_eq!(s.id, 9);
    assert_eq!(s.view, 5);
    assert_eq!(s.view_cp, 5);
    assert_eq!(s.last_view, 4);
    assert_eq!(s.maxjmp, 2);
    assert_eq!(s.threshold, 3);
    assert_eq!(s.generic_qc, QC::new(3, 4));
    assert_eq!(s.locked_qc, QC::new(3, 4));
    assert!(s.votes.is_empty());
    assert!(s.new_views.is_empty());
    assert_eq!(s.best_view, 0);
    assert_eq!(s.get_array(), &[0, 0]);
    assert!(s.abse_info.is_empty());
}

#[test]
fn get_index_looks_up_score_slots() {
    let s = state(3);
    assert_eq!(s.get_index(3), Some(2));
    assert_eq!(s.get_index(42), None);
}

#[test]
fn set_voter_id_marks_known_voters_only() {
    let mut s = state(3);
    s.set_voter_id(2);
    assert_eq!(s.get_array(), &[0, 1, 0, 0]);
    s.set_voter_id(42);
    assert_eq!(s.get_array(), &[0, 1, 0, 0]);
    s.set_voter_id(4);
    assert_eq!(s.get_array(), &[0, 1, 0, 1]);
    s.reset_array();
    assert_eq!(s.get_array(), &[0, 0, 0, 0]);
}

#[test]
fn quorum_forms_certificate_once() {
    let mut s = state(3);
    assert_eq!(s.add_vote(5, 0xab, 2), None);
    assert_eq!(s.add_vote(5, 0xab, 3), None);
    assert_eq!(s.get_array(), &[0, 1, 1, 0]);
    assert_eq!(s.add_vote(5, 0xab, 4), Some(QC::new(0xab, 5)));
    assert_eq!(s.abse_info, vec![0, 1, 1, 1]);
    assert_eq!(s.get_array(), &[0, 0, 0, 0]);
    assert_eq!(s.add_vote(5, 0xab, 1), None);
    assert_eq!(s.votes[&5][&0xab], vec![2, 3, 4, 1]);
    assert_eq!(s.abse_info, vec![0, 1, 1, 1]);
    assert_eq!(s.get_array(), &[1, 0, 0, 0]);
}

#[test]
fn tallies_are_kept_per_block_and_view() {
    let mut s = state(2);
    assert_eq!(s.add_vote(5, 1, 2), None);
    assert_eq!(s.add_vote(5, 2, 3), None);
    assert_eq!(s.add_vote(6, 1, 4), None);
    assert_eq!(s.votes[&5][&1], vec![2]);
    assert_eq!(s.votes[&5][&2], vec![3]);
    assert_eq!(s.votes[&6][&1], vec![4]);
    assert_eq!(s.add_vote(5, 2, 1), Some(QC::new(2, 5)));
}

#[test]
fn new_views_report_quorum_once() {
    let mut s = state(2);
    assert!(!s.add_new_view(7, 2));
    assert_eq!(s.best_view, 0);
    assert!(s.add_new_view(7, 3));
    assert_eq!(s.best_view, 7);
    assert!(!s.add_new_view(7, 4));
    assert_eq!(s.new_views[&7], vec![2, 3, 4]);
}

#[test]
fn view_add_one_prunes_and_advances() {
    let mut s = state(5);
    s.add_vote(0, 1, 2);
    s.add_vote(1, 1, 2);
    s.add_vote(2, 1, 2);
    s.add_new_view(0, 3);
    s.add_new_view(1, 3);
    s.view_add_one();
    assert_eq!(s.view, 2);
    assert_eq!(s.view_cp, 2);
    assert_eq!(s.last_view, 1);
    assert!(!s.votes.contains_key(&0));
    assert!(s.votes.contains_key(&1));
    assert!(s.votes.contains_key(&2));
    assert!(!s.new_views.contains_key(&0));
    assert!(s.new_views.contains_key(&1));
    s.multi_retain();
    assert!(!s.votes.contains_key(&1));
    assert!(s.votes.contains_key(&2));
    assert!(!s.new_views.contains_key(&1));
}

#[test]
fn view_jump_prepared_then_taken_or_abandoned() {
    let mut s = state(3);
    s.add_vote(0, 1, 2);
    s.view_add_multi(4);
    assert_eq!(s.view, 1);
    assert_eq!(s.view_cp, 4);
    assert_eq!(s.last_view, 1);
    assert!(!s.votes.contains_key(&0));
    s.success_jmp();
    assert_eq!(s.view, 4);
    assert_eq!(s.last_view, 3);
    s.view_add_multi(9);
    s.fail_jmp();
    assert_eq!(s.view_cp, 4);
    assert_eq!(s.view, 4);
}

#[test]
fn highest_certificate_only_moves_forward() {
    let mut s = state(3);
    assert!(s.update_qc_high(QC::new(5, 3)));
    assert_eq!(s.generic_qc, QC::new(5, 3));
    assert!(!s.update_qc_high(QC::new(6, 2)));
    assert!(!s.update_qc_high(QC::new(6, 3)));
    assert!(!s.update_qc_high(QC::new(5, 3)));
    assert_eq!(s.generic_qc, QC::new(5, 3));
    assert!(s.update_locked_qc(QC::new(7, 2)));
    assert!(!s.update_locked_qc(QC::new(8, 2)));
    assert_eq!(s.locked_qc, QC::new(7, 2));
}

#[test]
fn best_view_and_reputation_info_are_set() {
    let mut s = state(3);
    s.set_best_view(12);
    assert_eq!(s.best_view, 12);
    s.set_abse_info(vec![1, 0, 1, 0]);
    assert_eq!(s.abse_info, vec![1, 0, 1, 0]);
}

#[test]
fn state_for_committee_uses_its_threshold() {
    let set = VoterSet::new(vec![10, 20, 30, 40]);
    let (s, faulties) = VoterState::for_committee(20, 1, 6, QC::new(0, 0), &set);
    assert_eq!(s.threshold, 3);
    assert_eq!(faulties, 1);
    assert_eq!(s.get_index(40), Some(3));
    assert_eq!(s.get_array(), &[0, 0, 0, 0]);
    assert_eq!(s.last_view, 0);
    let _ = Leadership::new(set, 1);
}

#[test]
fn any_run_of_votes_certifies_each_block_once() {
    let mut s = state(2);
    let run = [(5u64, 1u64, 1u64), (5, 2, 1), (5, 1, 2), (6, 1, 3), (5, 1, 3), (5, 2, 4), (5, 1, 4), (5, 2, 2)];
    let mut seen: Vec<QC> = Vec::new();
    for (view, digest, who) in run {
        if let Some(qc) = s.add_vote(view, digest, who) {
            assert!(!seen.contains(&qc));
            seen.push(qc);
        }
    }
    assert_eq!(seen, vec![QC::new(1, 5), QC::new(2, 5)]);
}

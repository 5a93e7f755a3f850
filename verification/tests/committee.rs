use ach::leadership::{checked_next_leader, get_next_leader, Leadership};
use ach::voter_set::VoterSet;

#[test]
fn index_finds_members() {
    let set = VoterSet::new(vec![10, 20, 30]);
    assert_eq!(set.get_index(10), Some(0));
    assert_eq!(set.get_index(20), Some(1));
    assert_eq!(set.get_index(30), Some(2));
    assert_eq!(set.get_index(99), None);
}

#[test]
fn repeated_member_found_at_last_position() {
    let set = VoterSet::new(vec![5, 7, 5]);
    assert_eq!(set.get_index(5), Some(2));
    assert_eq!(set.get_index(7), Some(1));
}

#[test]
fn threshold_is_all_but_a_third() {
    assert_eq!(VoterSet::new(vec![]).threshold(), 0);
    assert_eq!(VoterSet::new(vec![1]).threshold(), 1);
    assert_eq!(VoterSet::new(vec![1, 2]).threshold(), 2);
    assert_eq!(VoterSet::new(vec![1, 2, 3]).threshold(), 2);
    assert_eq!(VoterSet::new(vec![1, 2, 3, 4]).threshold(), 3);
    assert_eq!(VoterSet::new((1..=7).collect()).threshold(), 5);
    assert_eq!(VoterSet::new((1..=16).collect()).threshold(), 11);
}

#[test]
fn quorums_intersect_for_small_committees() {
    for n in 1u64..=40 {
        let t = VoterSet::new((0..n).collect()).threshold() as u64;
        assert!(t <= n);
        assert!(2 * t > n);
        assert!(3 * t >= 2 * n);
        assert!(3 * (n - t) <= n);
    }
}

#[test]
fn iter_gives_committee_order() {
    let set = VoterSet::new(vec![4, 8, 15]);
    let seen: Vec<u64> = set.iter().copied().collect();
    assert_eq!(seen, vec![4, 8, 15]);
}

#[test]
fn next_pops_last_and_keeps_index() {
    let mut set = VoterSet::new(vec![4, 8]);
    assert_eq!(set.next(), Some(8));
    assert_eq!(set.voters_len(), 1);
    assert_eq!(set.get_index(8), Some(1));
    assert_eq!(set.next(), Some(4));
    assert_eq!(set.next(), None);
}

#[test]
fn index_map_copies_lookups() {
    let set = VoterSet::new(vec![3, 1]);
    let m = set.index_map();
    assert_eq!(m.get(&3), Some(&0));
    assert_eq!(m.get(&1), Some(&1));
    assert_eq!(m.len(), 2);
}

#[test]
fn leaders_rotate_by_blocks() {
    let l = Leadership::new(VoterSet::new(vec![1, 2, 3]), 2);
    let leaders: Vec<u64> = (0..8).map(|v| l.get_leader(v)).collect();
    assert_eq!(leaders, vec![1, 1, 2, 2, 3, 3, 1, 1]);
}

#[test]
fn leadership_is_periodic() {
    let l = Leadership::new(VoterSet::new(vec![7, 9, 11, 13]), 3);
    for v in 0..50u64 {
        assert_eq!(l.get_leader(v + 3 * 4), l.get_leader(v));
        assert!([7, 9, 11, 13].contains(&l.get_leader(v)));
    }
}

#[test]
fn next_leader_is_first_other_leader() {
    let l = Leadership::new(VoterSet::new(vec![1, 2, 3]), 2);
    assert_eq!(get_next_leader(&l, 0), (2, 2));
    assert_eq!(get_next_leader(&l, 1), (2, 2));
    assert_eq!(get_next_leader(&l, 5), (1, 6));
    let repeated = Leadership::new(VoterSet::new(vec![1, 1, 2]), 1);
    assert_eq!(get_next_leader(&repeated, 0), (2, 2));
    assert_eq!(get_next_leader(&repeated, 2), (1, 3));
}

#[test]
fn next_leader_found_at_top_of_view_range() {
    let l = Leadership::new(VoterSet::new(vec![1, 2]), 1);
    assert_eq!(get_next_leader(&l, u64::MAX - 1), (2, u64::MAX));
    let l3 = Leadership::new(VoterSet::new(vec![1, 2]), 3);
    // view u64::MAX - 3 starts a block of three; the next block starts at u64::MAX
    let v = u64::MAX - 3;
    let (leader, next) = get_next_leader(&l3, v);
    assert_eq!(next, (v / 3 + 1) * 3);
    assert_ne!(leader, l3.get_leader(v));
}

#[test]
fn distinct_committee_changes_leader_at_next_block() {
    let l = Leadership::new(VoterSet::new(vec![5, 6, 7]), 4);
    for v in 0..40u64 {
        let (_, next) = get_next_leader(&l, v);
        assert_eq!(next, (v / 4 + 1) * 4);
    }
}

#[test]
fn checked_next_leader_reports_missing_leader() {
    let single = Leadership::new(VoterSet::new(vec![3, 3]), 1);
    assert_eq!(checked_next_leader(&single, u64::MAX - 5), None);
    let pair = Leadership::new(VoterSet::new(vec![1, 2]), 2);
    assert_eq!(checked_next_leader(&pair, 0), Some((2, 2)));
    assert_eq!(checked_next_leader(&pair, u64::MAX - 1), None);
    assert_eq!(checked_next_leader(&pair, u64::MAX - 2), Some((2, u64::MAX - 1)));
}

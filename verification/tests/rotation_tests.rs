use parachain_host::cores::availability_threshold;
use parachain_host::rotation::{make_validator_groups, GroupRotationInfo};
use parachain_host::types::ValidatorIndex;

fn info(session_start_block: u32, rotation_frequency: u32, now: u32) -> GroupRotationInfo {
    GroupRotationInfo { session_start_block, rotation_frequency, now }
}

#[test]
fn assigned_group_scenario() {
    // 3 cores, 9 validators, 3 groups of 3, rotation every 10 blocks,
    // session started at block 0: at block 25, core 0's group is
    // (0 + 25/10) mod 3 = 2.
    let i = info(0, 10, 25);
    assert_eq!(i.assigned_group(0, 3), 2);
    assert_eq!(i.assigned_group(1, 3), 0);
    assert_eq!(i.assigned_group(2, 3), 1);
}

#[test]
fn assigned_group_periodic() {
    // The assignment repeats with period rotation_frequency * group_count.
    let base = info(0, 10, 25);
    let later = info(0, 10, 25 + 10 * 3);
    for core in 0..3 {
        assert_eq!(base.assigned_group(core, 3), later.assigned_group(core, 3));
    }
    let much_later = info(0, 10, 25 + 7 * 30);
    assert_eq!(base.assigned_group(0, 3), much_later.assigned_group(0, 3));
}

#[test]
fn rotation_boundary() {
    assert!(info(0, 10, 20).is_rotation_boundary());
    assert!(info(0, 10, 0).is_rotation_boundary());
    assert!(!info(0, 10, 25).is_rotation_boundary());
    assert!(info(5, 10, 15).is_rotation_boundary());
}

#[test]
fn groups_even_split() {
    let groups = make_validator_groups(9, 3);
    assert_eq!(groups.len(), 3);
    assert_eq!(groups[0], vec![ValidatorIndex(0), ValidatorIndex(1), ValidatorIndex(2)]);
    assert_eq!(groups[1], vec![ValidatorIndex(3), ValidatorIndex(4), ValidatorIndex(5)]);
    assert_eq!(groups[2], vec![ValidatorIndex(6), ValidatorIndex(7), ValidatorIndex(8)]);
}

#[test]
fn groups_remainder_spread_over_leading() {
    let groups = make_validator_groups(10, 3);
    assert_eq!(groups.len(), 3);
    assert_eq!(groups[0].len(), 4);
    assert_eq!(groups[1].len(), 3);
    assert_eq!(groups[2].len(), 3);
    // Contiguous cover of 0..10, each validator exactly once.
    let flat: Vec<usize> = groups.iter().flatten().map(|v| v.0).collect();
    assert_eq!(flat, (0..10).collect::<Vec<usize>>());
}

#[test]
fn groups_more_groups_than_validators() {
    let groups = make_validator_groups(2, 4);
    assert_eq!(groups.len(), 4);
    assert_eq!(groups[0], vec![ValidatorIndex(0)]);
    assert_eq!(groups[1], vec![ValidatorIndex(1)]);
    assert!(groups[2].is_empty());
    assert!(groups[3].is_empty());
}

#[test]
fn threshold_formula() {
    // floor(2 * v / 3) + 1
    assert_eq!(availability_threshold(0), 1);
    assert_eq!(availability_threshold(1), 1);
    assert_eq!(availability_threshold(2), 2);
    assert_eq!(availability_threshold(3), 3);
    assert_eq!(availability_threshold(4), 3);
    assert_eq!(availability_threshold(6), 5);
    assert_eq!(availability_threshold(9), 7);
    assert_eq!(availability_threshold(100), 67);
}

use parachain_host::cores::CoreState;
use parachain_host::host::HostState;
use parachain_host::registry::CodeRegistry;
use parachain_host::types::{
    HeadData, HostConfig, HostError, OccupiedCoreAssumption, ParaId, PvfCheckStatement, RelayHash,
    SessionInfo, ValidationCode, ValidationCodeHash, ValidatorId, ValidatorIndex,
};

fn sample_state() -> HostState {
    let validators: Vec<ValidatorId> = (0..9).map(ValidatorId).collect();
    let session = SessionInfo {
        validators: validators.clone(),
        assignment_keys: validators.clone(),
        validator_groups: parachain_host::rotation::make_validator_groups(9, 3),
        n_cores: 3,
        needed_approvals: 2,
    };
    let mut registry = CodeRegistry::new();
    registry.register_para(
        ParaId(7),
        HeadData(vec![1, 2, 3]),
        ValidationCode(vec![0xaa, 0xbb]),
        ValidationCodeHash(100),
        9,
    );
    HostState {
        config: HostConfig {
            n_cores: 3,
            group_count: 3,
            rotation_frequency: 10,
            availability_timeout: 5,
            precheck_window: 4,
            max_head_data_size: 32,
            max_code_size: 1024,
            max_hrmp_message_size: 16,
            max_hrmp_messages_per_candidate: 2,
            max_pov_size: 50_000,
        },
        now: 25,
        session_index: 1,
        session_start_block: 0,
        relay_parent_storage_root: RelayHash(77),
        validators,
        earliest_stored_session: 1,
        sessions: vec![session],
        cores: vec![CoreState::Free, CoreState::Free, CoreState::Free],
        registry,
        downward_queues: Vec::new(),
        channels: Vec::new(),
        events: Vec::new(),
        scraped: None,
    }
}

fn statement(accept: bool, subject: u64, session: u32, validator: usize) -> PvfCheckStatement {
    PvfCheckStatement {
        accept,
        subject: ValidationCodeHash(subject),
        session_index: session,
        validator_index: ValidatorIndex(validator),
    }
}

#[test]
fn upgrade_opens_round_once() {
    let mut st = sample_state();
    assert!(st.submit_code_upgrade(ParaId(7), ValidationCode(vec![3]), ValidationCodeHash(200)));
    assert_eq!(st.pvfs_require_precheck(), vec![ValidationCodeHash(200)]);
    // A second submission of the same pending hash opens nothing.
    assert!(!st.submit_code_upgrade(ParaId(7), ValidationCode(vec![3]), ValidationCodeHash(200)));
    // An unregistered para opens nothing.
    assert!(!st.submit_code_upgrade(ParaId(9), ValidationCode(vec![3]), ValidationCodeHash(201)));
    assert_eq!(st.pvfs_require_precheck(), vec![ValidationCodeHash(200)]);
}

#[test]
fn accept_quorum_applies_upgrade_and_clears_round() {
    let mut st = sample_state();
    st.submit_code_upgrade(ParaId(7), ValidationCode(vec![3]), ValidationCodeHash(200));
    // Threshold of 9 validators is 7 affirmative votes.
    for v in 0..6 {
        st.submit_pvf_check_statement(statement(true, 200, 1, v), true).unwrap();
        assert_eq!(st.pvfs_require_precheck(), vec![ValidationCodeHash(200)]);
    }
    st.submit_pvf_check_statement(statement(true, 200, 1, 6), true).unwrap();
    // Quorum: the hash leaves the pending set and the para is rebound.
    assert!(st.pvfs_require_precheck().is_empty());
    assert_eq!(
        st.validation_code_hash(ParaId(7), OccupiedCoreAssumption::Included),
        Ok(ValidationCodeHash(200))
    );
    assert_eq!(
        st.validation_code_by_hash(ValidationCodeHash(200)),
        Ok(&ValidationCode(vec![3]))
    );
}

#[test]
fn resolved_hash_never_reenters_pending() {
    let mut st = sample_state();
    st.submit_code_upgrade(ParaId(7), ValidationCode(vec![3]), ValidationCodeHash(200));
    for v in 0..7 {
        st.submit_pvf_check_statement(statement(true, 200, 1, v), true).unwrap();
    }
    assert!(st.pvfs_require_precheck().is_empty());
    // Resubmitting a hash that reached quorum in an earlier block opens no
    // new round: the pending set never re-lists it.
    assert!(!st.submit_code_upgrade(ParaId(7), ValidationCode(vec![3]), ValidationCodeHash(200)));
    assert!(st.pvfs_require_precheck().is_empty());
}

#[test]
fn reject_quorum_discards_code() {
    let mut st = sample_state();
    st.submit_code_upgrade(ParaId(7), ValidationCode(vec![3]), ValidationCodeHash(300));
    for v in 0..7 {
        st.submit_pvf_check_statement(statement(false, 300, 1, v), true).unwrap();
    }
    assert!(st.pvfs_require_precheck().is_empty());
    // The para keeps its old binding and the code never enters the store.
    assert_eq!(
        st.validation_code_hash(ParaId(7), OccupiedCoreAssumption::Included),
        Ok(ValidationCodeHash(100))
    );
    assert_eq!(
        st.validation_code_by_hash(ValidationCodeHash(300)),
        Err(HostError::NotFound)
    );
}

#[test]
fn statement_error_taxonomy() {
    let mut st = sample_state();
    st.submit_code_upgrade(ParaId(7), ValidationCode(vec![3]), ValidationCodeHash(200));
    // A failing signature is rejected before anything else.
    assert_eq!(
        st.submit_pvf_check_statement(statement(true, 200, 1, 0), false),
        Err(HostError::InvalidSignature)
    );
    // A validator index outside the committee cannot have a valid key.
    assert_eq!(
        st.submit_pvf_check_statement(statement(true, 200, 1, 9), true),
        Err(HostError::InvalidSignature)
    );
    // A statement for another session is stale.
    assert_eq!(
        st.submit_pvf_check_statement(statement(true, 200, 2, 0), true),
        Err(HostError::Stale)
    );
    // A subject with no active round is stale.
    assert_eq!(
        st.submit_pvf_check_statement(statement(true, 999, 1, 0), true),
        Err(HostError::Stale)
    );
    // All of the above failed closed.
    assert_eq!(st.pvfs_require_precheck(), vec![ValidationCodeHash(200)]);
}

#[test]
fn duplicate_vote_is_ignored_not_accumulated() {
    let mut st = sample_state();
    st.submit_code_upgrade(ParaId(7), ValidationCode(vec![3]), ValidationCodeHash(200));
    for _ in 0..20 {
        // The same validator voting over and over accumulates exactly once.
        st.submit_pvf_check_statement(statement(true, 200, 1, 0), true).unwrap();
    }
    assert_eq!(st.pvfs_require_precheck(), vec![ValidationCodeHash(200)]);
    // Six further distinct validators complete the quorum of 7.
    for v in 1..7 {
        st.submit_pvf_check_statement(statement(true, 200, 1, v), true).unwrap();
    }
    assert!(st.pvfs_require_precheck().is_empty());
}

#[test]
fn expiry_counts_as_rejection() {
    let mut st = sample_state();
    st.submit_code_upgrade(ParaId(7), ValidationCode(vec![3]), ValidationCodeHash(400));
    // The round expires at 25 + 4 = 29.
    st.begin_block(28, RelayHash(78));
    st.prune_expired_prechecks();
    assert_eq!(st.pvfs_require_precheck(), vec![ValidationCodeHash(400)]);
    st.begin_block(29, RelayHash(79));
    let expired = st.prune_expired_prechecks();
    assert_eq!(expired, 1);
    assert!(st.pvfs_require_precheck().is_empty());
    // The expired hash resolved as rejected: it can never open a round again.
    assert!(!st.submit_code_upgrade(ParaId(7), ValidationCode(vec![3]), ValidationCodeHash(400)));
    assert_eq!(
        st.validation_code_hash(ParaId(7), OccupiedCoreAssumption::Included),
        Ok(ValidationCodeHash(100))
    );
}

use parachain_host::cores::CoreState;
use parachain_host::host::{HostState, Query, QueryReply};
use parachain_host::registry::CodeRegistry;
use parachain_host::types::{
    BackingVotes, CandidateHash, DisputeStatementSet, HeadData, HostConfig, HostError,
    OccupiedCoreAssumption, ParaId, RelayHash, SessionIndex, SessionInfo, ValidationCode,
    ValidationCodeHash, ValidatorId, ValidatorIndex,
};

fn sample_state() -> HostState {
    let validators: Vec<ValidatorId> = (0..9).map(ValidatorId).collect();
    let session = SessionInfo {
        validators: validators.clone(),
        assignment_keys: validators.clone(),
        validator_groups: parachain_host::rotation::make_validator_groups(9, 3),
        n_cores: 3,
        needed_approvals: 2,
    };
    let mut registry = CodeRegistry::new();
    registry.register_para(
        ParaId(7),
        HeadData(vec![1, 2, 3]),
        ValidationCode(vec![0xaa, 0xbb]),
        ValidationCodeHash(100),
        9,
    );
    HostState {
        config: HostConfig {
            n_cores: 3,
            group_count: 3,
            rotation_frequency: 10,
            availability_timeout: 5,
            precheck_window: 4,
            max_head_data_size: 32,
            max_code_size: 1024,
            max_hrmp_message_size: 16,
            max_hrmp_messages_per_candidate: 2,
            max_pov_size: 50_000,
        },
        now: 25,
        session_index: 1,
        session_start_block: 0,
        relay_parent_storage_root: RelayHash(77),
        validators,
        earliest_stored_session: 1,
        sessions: vec![session],
        cores: vec![CoreState::Free, CoreState::Free, CoreState::Free],
        registry,
        downward_queues: Vec::new(),
        channels: Vec::new(),
        events: Vec::new(),
        scraped: None,
    }
}

#[test]
fn facade_dispatches_each_variant() {
    let st = sample_state();
    match st.execute(Query::Validators) {
        QueryReply::Validators(v) => assert_eq!(v.len(), 9),
        _ => panic!("wrong reply variant"),
    }
    match st.execute(Query::SessionIndexForChild) {
        QueryReply::SessionIndexForChild(s) => assert_eq!(s, 1),
        _ => panic!("wrong reply variant"),
    }
    match st.execute(Query::AvailabilityCores) {
        QueryReply::AvailabilityCores(cores) => assert_eq!(cores.len(), 3),
        _ => panic!("wrong reply variant"),
    }
    match st.execute(Query::ValidationCodeHash {
        para_id: ParaId(7),
        assumption: OccupiedCoreAssumption::Included,
    }) {
        QueryReply::ValidationCodeHash(r) => assert_eq!(r, Ok(ValidationCodeHash(100))),
        _ => panic!("wrong reply variant"),
    }
    match st.execute(Query::ValidationCodeByHash { hash: ValidationCodeHash(100) }) {
        QueryReply::ValidationCodeByHash(r) => {
            assert_eq!(r, Ok(&ValidationCode(vec![0xaa, 0xbb])))
        },
        _ => panic!("wrong reply variant"),
    }
    match st.execute(Query::PvfsRequirePrecheck) {
        QueryReply::PvfsRequirePrecheck(v) => assert!(v.is_empty()),
        _ => panic!("wrong reply variant"),
    }
    match st.execute(Query::CandidatePendingAvailability { para_id: ParaId(7) }) {
        QueryReply::CandidatePendingAvailability(r) => assert_eq!(r, Err(HostError::NotFound)),
        _ => panic!("wrong reply variant"),
    }
    match st.execute(Query::DmqContents { recipient: ParaId(7) }) {
        QueryReply::DmqContents(v) => assert!(v.is_empty()),
        _ => panic!("wrong reply variant"),
    }
    match st.execute(Query::OnChainVotes) {
        QueryReply::OnChainVotes(v) => assert!(v.is_none()),
        _ => panic!("wrong reply variant"),
    }
}

#[test]
fn facade_validator_groups_rotation_info() {
    let st = sample_state();
    match st.execute(Query::ValidatorGroups) {
        QueryReply::ValidatorGroups((groups, info)) => {
            assert_eq!(groups.len(), 3);
            assert_eq!(info.session_start_block, 0);
            assert_eq!(info.rotation_frequency, 10);
            assert_eq!(info.now, 25);
            assert_eq!(info.assigned_group(0, groups.len()), 2);
        },
        _ => panic!("wrong reply variant"),
    }
}

#[test]
fn session_info_window() {
    let st = sample_state();
    let s = st.session_info(1).unwrap();
    assert_eq!(s.validators.len(), 9);
    assert_eq!(s.n_cores, 3);
    assert_eq!(st.session_info(0).unwrap_err(), HostError::NotAvailable);
    assert_eq!(st.session_info(2).unwrap_err(), HostError::NotAvailable);
}

#[test]
fn session_info_v1_is_reduced_schema_of_current() {
    let st = sample_state();
    let current = st.session_info(1).unwrap().clone();
    let v1 = st.session_info_v1(1).unwrap();
    assert_eq!(v1.validators, current.validators);
    assert_eq!(v1.validator_groups, current.validator_groups);
    assert_eq!(st.session_info_v1(5).unwrap_err(), HostError::NotAvailable);
    // Both schema forms are served for the same retention window.
    let older: SessionIndex = 0;
    assert!(st.session_info(older).is_err() && st.session_info_v1(older).is_err());
}

#[test]
fn scraped_votes_accumulate_within_one_block() {
    let mut st = sample_state();
    assert!(st.on_chain_votes().is_none());
    st.record_backing_votes(BackingVotes {
        candidate_hash: CandidateHash(5),
        para_id: ParaId(7),
        validators: vec![ValidatorIndex(0), ValidatorIndex(3)],
    });
    st.record_dispute(DisputeStatementSet {
        candidate_hash: CandidateHash(6),
        session: 1,
        statements: vec![(false, ValidatorIndex(2))],
    });
    let scraped = st.on_chain_votes().unwrap();
    assert_eq!(scraped.session, 1);
    assert_eq!(scraped.backing_validators.len(), 1);
    assert_eq!(scraped.backing_validators[0].candidate_hash, CandidateHash(5));
    assert_eq!(scraped.disputes.len(), 1);
    // The next block never re-surfaces earlier evidence.
    st.begin_block(26, RelayHash(80));
    assert!(st.on_chain_votes().is_none());
}

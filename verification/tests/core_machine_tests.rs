use parachain_host::cores::CoreState;
use parachain_host::host::HostState;
use parachain_host::registry::CodeRegistry;
use parachain_host::types::{
    CandidateCommitments, CandidateDescriptor, CandidateEvent, CandidateHash,
    CommittedCandidateReceipt, HeadData, HostConfig, ParaId, RelayHash, SessionInfo,
    ValidationCode, ValidationCodeHash, ValidatorId,
};

fn sample_config() -> HostConfig {
    HostConfig {
        n_cores: 3,
        group_count: 3,
        rotation_frequency: 10,
        availability_timeout: 5,
        precheck_window: 4,
        max_head_data_size: 32,
        max_code_size: 1024,
        max_hrmp_message_size: 16,
        max_hrmp_messages_per_candidate: 2,
        max_pov_size: 50_000,
    }
}

fn sample_state() -> HostState {
    let validators: Vec<ValidatorId> = (0..9).map(ValidatorId).collect();
    let session = SessionInfo {
        validators: validators.clone(),
        assignment_keys: validators.clone(),
        validator_groups: parachain_host::rotation::make_validator_groups(9, 3),
        n_cores: 3,
        needed_approvals: 2,
    };
    let mut registry = CodeRegistry::new();
    registry.register_para(
        ParaId(7),
        HeadData(vec![1, 2, 3]),
        ValidationCode(vec![0xaa, 0xbb]),
        ValidationCodeHash(100),
        9,
    );
    HostState {
        config: sample_config(),
        now: 25,
        session_index: 1,
        session_start_block: 0,
        relay_parent_storage_root: RelayHash(77),
        validators,
        earliest_stored_session: 1,
        sessions: vec![session],
        cores: vec![CoreState::Free, CoreState::Free, CoreState::Free],
        registry,
        downward_queues: Vec::new(),
        channels: Vec::new(),
        events: Vec::new(),
        scraped: None,
    }
}

fn candidate_for(para: ParaId) -> CommittedCandidateReceipt {
    CommittedCandidateReceipt {
        descriptor: CandidateDescriptor {
            para_id: para,
            relay_parent_number: 20,
            persisted_validation_data_hash: RelayHash(0),
        },
        commitments: CandidateCommitments {
            head_data: HeadData(vec![9, 9]),
            new_validation_code: None,
            horizontal_messages: Vec::new(),
            processed_downward_messages: 0,
            hrmp_watermark: 20,
        },
    }
}

#[test]
fn core_count_is_configured_count() {
    let mut st = sample_state();
    st.schedule_core(0, ParaId(7)).unwrap();
    st.occupy_core(0, candidate_for(ParaId(7)), CandidateHash(5), None, None).unwrap();
    let cores = st.availability_cores();
    let mut free = 0;
    let mut scheduled = 0;
    let mut occupied = 0;
    for c in cores.iter() {
        match c {
            CoreState::Free => free += 1,
            CoreState::Scheduled { .. } => scheduled += 1,
            CoreState::Occupied(_) => occupied += 1,
        }
    }
    assert_eq!(free + scheduled + occupied, 3);
    assert_eq!(occupied, 1);
    assert_eq!(free, 2);
}

#[test]
fn availability_needs_full_threshold() {
    // 9 validators: threshold is 7. Six attestations keep the core occupied;
    // the seventh frees it and `Included` appears in the events.
    let mut st = sample_state();
    st.schedule_core(0, ParaId(7)).unwrap();
    st.occupy_core(0, candidate_for(ParaId(7)), CandidateHash(5), None, None).unwrap();
    for v in 0..6 {
        st.set_availability_vote(0, v).unwrap();
    }
    st.process_availability_cores();
    assert!(matches!(st.availability_cores()[0], CoreState::Occupied(_)));
    assert!(!st
        .candidate_events()
        .iter()
        .any(|e| matches!(e, CandidateEvent::Included { .. })));

    st.set_availability_vote(0, 6).unwrap();
    let freed = st.process_availability_cores();
    assert_eq!(freed, 1);
    assert!(matches!(st.availability_cores()[0], CoreState::Free));
    assert!(st.candidate_events().contains(&CandidateEvent::Included {
        candidate_hash: CandidateHash(5),
        para_id: ParaId(7),
        core_index: 0,
    }));
}

#[test]
fn occupy_emits_backed_event() {
    let mut st = sample_state();
    st.schedule_core(1, ParaId(7)).unwrap();
    st.occupy_core(1, candidate_for(ParaId(7)), CandidateHash(8), None, None).unwrap();
    assert_eq!(
        st.candidate_events().last(),
        Some(&CandidateEvent::Backed {
            candidate_hash: CandidateHash(8),
            para_id: ParaId(7),
            core_index: 1,
        })
    );
}

#[test]
fn timeout_discards_candidate() {
    let mut st = sample_state();
    st.schedule_core(0, ParaId(7)).unwrap();
    st.occupy_core(0, candidate_for(ParaId(7)), CandidateHash(5), None, Some(ParaId(7))).unwrap();
    // time_out_at is 25 + 5 = 30; advance past it without enough votes.
    st.begin_block(30, RelayHash(78));
    st.set_availability_vote(0, 0).unwrap();
    st.process_availability_cores();
    // The core re-schedules to next_up_on_timeout and TimedOut is emitted.
    assert!(
        matches!(st.availability_cores()[0], CoreState::Scheduled { para_id } if para_id == ParaId(7))
    );
    assert!(st.candidate_events().contains(&CandidateEvent::TimedOut {
        candidate_hash: CandidateHash(5),
        para_id: ParaId(7),
        core_index: 0,
    }));
}

#[test]
fn availability_resolution_beats_timeout_only_before_deadline() {
    // Reaching the threshold strictly before time_out_at frees with
    // `Included`; at the deadline the timeout wins.
    let mut st = sample_state();
    st.schedule_core(0, ParaId(7)).unwrap();
    st.occupy_core(0, candidate_for(ParaId(7)), CandidateHash(5), None, None).unwrap();
    for v in 0..7 {
        st.set_availability_vote(0, v).unwrap();
    }
    st.begin_block(30, RelayHash(78));
    st.process_availability_cores();
    assert!(st.candidate_events().contains(&CandidateEvent::TimedOut {
        candidate_hash: CandidateHash(5),
        para_id: ParaId(7),
        core_index: 0,
    }));
}

#[test]
fn schedule_rejects_busy_core_and_unknown_para() {
    let mut st = sample_state();
    assert!(st.schedule_core(0, ParaId(99)).is_err());
    st.schedule_core(0, ParaId(7)).unwrap();
    assert!(st.schedule_core(0, ParaId(7)).is_err());
    assert!(st.schedule_core(5, ParaId(7)).is_err());
}

#[test]
fn occupy_requires_matching_schedule() {
    let mut st = sample_state();
    // Core 0 is free, not scheduled.
    assert!(st.occupy_core(0, candidate_for(ParaId(7)), CandidateHash(5), None, None).is_err());
    st.schedule_core(0, ParaId(7)).unwrap();
    // Candidate names another para than the scheduled one.
    let mut wrong = candidate_for(ParaId(7));
    wrong.descriptor.para_id = ParaId(8);
    assert!(st.occupy_core(0, wrong, CandidateHash(5), None, None).is_err());
}

#[test]
fn freed_core_reschedules_next_up() {
    let mut st = sample_state();
    st.registry.register_para(
        ParaId(8),
        HeadData(vec![4]),
        ValidationCode(vec![0xcc]),
        ValidationCodeHash(101),
        9,
    );
    st.schedule_core(0, ParaId(7)).unwrap();
    st.occupy_core(0, candidate_for(ParaId(7)), CandidateHash(5), Some(ParaId(8)), None).unwrap();
    for v in 0..7 {
        st.set_availability_vote(0, v).unwrap();
    }
    st.process_availability_cores();
    assert!(
        matches!(st.availability_cores()[0], CoreState::Scheduled { para_id } if para_id == ParaId(8))
    );
}

#[test]
fn candidate_pending_availability_returns_receipt() {
    let mut st = sample_state();
    assert!(st.candidate_pending_availability(ParaId(7)).is_err());
    st.schedule_core(2, ParaId(7)).unwrap();
    let c = candidate_for(ParaId(7));
    st.occupy_core(2, c.clone(), CandidateHash(5), None, None).unwrap();
    let got = st.candidate_pending_availability(ParaId(7)).unwrap();
    assert_eq!(*got, c);
}

#[test]
fn begin_block_resets_per_block_feeds() {
    let mut st = sample_state();
    st.schedule_core(0, ParaId(7)).unwrap();
    st.occupy_core(0, candidate_for(ParaId(7)), CandidateHash(5), None, None).unwrap();
    assert!(!st.candidate_events().is_empty());
    st.begin_block(26, RelayHash(80));
    assert!(st.candidate_events().is_empty());
    assert!(st.on_chain_votes().is_none());
    assert_eq!(st.relay_parent_storage_root, RelayHash(80));
}

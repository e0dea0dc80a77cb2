use parachain_host::cores::CoreState;
use parachain_host::host::HostState;
use parachain_host::messages::{
    consume_downward, enqueue_downward, enqueue_hrmp, open_channel, InboundDownwardMessage,
    InboundHrmpMessage,
};
use parachain_host::registry::CodeRegistry;
use parachain_host::types::{
    HeadData, HostConfig, HostError, ParaId, RelayHash, SessionInfo, ValidationCode,
    ValidationCodeHash, ValidatorId,
};

fn sample_state() -> HostState {
    let validators: Vec<ValidatorId> = (0..9).map(ValidatorId).collect();
    let session = SessionInfo {
        validators: validators.clone(),
        assignment_keys: validators.clone(),
        validator_groups: parachain_host::rotation::make_validator_groups(9, 3),
        n_cores: 3,
        needed_approvals: 2,
    };
    let mut registry = CodeRegistry::new();
    registry.register_para(
        ParaId(7),
        HeadData(vec![1, 2, 3]),
        ValidationCode(vec![0xaa, 0xbb]),
        ValidationCodeHash(100),
        9,
    );
    HostState {
        config: HostConfig {
            n_cores: 3,
            group_count: 3,
            rotation_frequency: 10,
            availability_timeout: 5,
            precheck_window: 4,
            max_head_data_size: 32,
            max_code_size: 1024,
            max_hrmp_message_size: 16,
            max_hrmp_messages_per_candidate: 2,
            max_pov_size: 50_000,
        },
        now: 25,
        session_index: 1,
        session_start_block: 0,
        relay_parent_storage_root: RelayHash(77),
        validators,
        earliest_stored_session: 1,
        sessions: vec![session],
        cores: vec![CoreState::Free, CoreState::Free, CoreState::Free],
        registry,
        downward_queues: Vec::new(),
        channels: Vec::new(),
        events: Vec::new(),
        scraped: None,
    }
}

fn dm(sent_at: u32, byte: u8) -> InboundDownwardMessage {
    InboundDownwardMessage { sent_at, msg: vec![byte] }
}

#[test]
fn dmq_contents_in_enqueue_order() {
    let mut st = sample_state();
    assert!(st.dmq_contents(ParaId(7)).is_empty());
    enqueue_downward(&mut st.downward_queues, ParaId(7), dm(20, 1));
    enqueue_downward(&mut st.downward_queues, ParaId(7), dm(21, 2));
    enqueue_downward(&mut st.downward_queues, ParaId(8), dm(22, 3));
    let q = st.dmq_contents(ParaId(7));
    assert_eq!(q, vec![dm(20, 1), dm(21, 2)]);
    assert_eq!(st.dmq_contents(ParaId(8)), vec![dm(22, 3)]);
    assert!(st.dmq_contents(ParaId(9)).is_empty());
}

#[test]
fn dmq_total_non_decreasing_without_consumption() {
    // Enqueuing never drops or reorders what is already pending.
    let mut st = sample_state();
    let mut previous_len = 0;
    for round in 0..5u8 {
        enqueue_downward(&mut st.downward_queues, ParaId(7), dm(20 + round as u32, round));
        let q = st.dmq_contents(ParaId(7));
        assert_eq!(q.len(), previous_len + 1);
        for (i, m) in q.iter().enumerate() {
            assert_eq!(*m, dm(20 + i as u32, i as u8));
        }
        previous_len = q.len();
    }
}

#[test]
fn dmq_consumption_drops_exact_prefix() {
    let mut st = sample_state();
    for i in 0..4u8 {
        enqueue_downward(&mut st.downward_queues, ParaId(7), dm(20, i));
    }
    consume_downward(&mut st.downward_queues, ParaId(7), 3).unwrap();
    assert_eq!(st.dmq_contents(ParaId(7)), vec![dm(20, 3)]);
    // Consuming more than is pending fails closed.
    assert_eq!(
        consume_downward(&mut st.downward_queues, ParaId(7), 2),
        Err(HostError::NotFound)
    );
    assert_eq!(st.dmq_contents(ParaId(7)), vec![dm(20, 3)]);
    assert_eq!(
        consume_downward(&mut st.downward_queues, ParaId(9), 0),
        Err(HostError::NotFound)
    );
}

#[test]
fn open_empty_channel_is_distinct_from_no_channel() {
    let mut st = sample_state();
    assert!(st.inbound_hrmp_channels_contents(ParaId(7)).is_empty());
    assert!(open_channel(&mut st.channels, ParaId(8), ParaId(7)));
    let contents = st.inbound_hrmp_channels_contents(ParaId(7));
    assert_eq!(contents.len(), 1);
    assert_eq!(contents[0].sender, ParaId(8));
    assert!(contents[0].messages.is_empty());
    // Re-opening is a no-op.
    assert!(!open_channel(&mut st.channels, ParaId(8), ParaId(7)));
    assert_eq!(st.inbound_hrmp_channels_contents(ParaId(7)).len(), 1);
}

#[test]
fn hrmp_contents_grouped_per_sender_in_order() {
    let mut st = sample_state();
    open_channel(&mut st.channels, ParaId(8), ParaId(7));
    open_channel(&mut st.channels, ParaId(9), ParaId(7));
    open_channel(&mut st.channels, ParaId(7), ParaId(9));
    let m1 = InboundHrmpMessage { sent_at: 21, data: vec![1] };
    let m2 = InboundHrmpMessage { sent_at: 22, data: vec![2] };
    let m3 = InboundHrmpMessage { sent_at: 23, data: vec![3] };
    enqueue_hrmp(&mut st.channels, ParaId(8), ParaId(7), m1.clone()).unwrap();
    enqueue_hrmp(&mut st.channels, ParaId(9), ParaId(7), m2.clone()).unwrap();
    enqueue_hrmp(&mut st.channels, ParaId(8), ParaId(7), m3.clone()).unwrap();
    let contents = st.inbound_hrmp_channels_contents(ParaId(7));
    assert_eq!(contents.len(), 2);
    assert_eq!(contents[0].sender, ParaId(8));
    assert_eq!(contents[0].messages, vec![m1, m3]);
    assert_eq!(contents[1].sender, ParaId(9));
    assert_eq!(contents[1].messages, vec![m2]);
    // Sending on a channel that was never opened fails closed.
    assert_eq!(
        enqueue_hrmp(
            &mut st.channels,
            ParaId(12),
            ParaId(7),
            InboundHrmpMessage { sent_at: 24, data: vec![4] },
        ),
        Err(HostError::NotFound)
    );
}

#[test]
fn hrmp_totals_non_decreasing_without_consumption() {
    let mut st = sample_state();
    open_channel(&mut st.channels, ParaId(8), ParaId(7));
    for i in 0..4u8 {
        enqueue_hrmp(
            &mut st.channels,
            ParaId(8),
            ParaId(7),
            InboundHrmpMessage { sent_at: 20, data: vec![i] },
        )
        .unwrap();
        let contents = st.inbound_hrmp_channels_contents(ParaId(7));
        assert_eq!(contents[0].messages.len(), i as usize + 1);
        for (j, m) in contents[0].messages.iter().enumerate() {
            assert_eq!(m.data, vec![j as u8]);
        }
    }
}

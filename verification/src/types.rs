//! Core data model: identifiers, blobs, validation data, candidate receipts,
//! events, pre-check statements, errors and the external configuration.

use vstd::prelude::*;

verus! {

/// Relay-chain block height.
pub type BlockNumber = u32;

/// Monotonically increasing epoch counter.
pub type SessionIndex = u32;

/// Identifier of one delegated-computation chain or thread.
#[derive(Clone, Copy, PartialEq, Eq, Structural, Debug)]
pub struct ParaId(pub u32);

/// Identity of a committee member; the set is fixed for a session.
#[derive(Clone, Copy, PartialEq, Eq, Structural, Debug)]
pub struct ValidatorId(pub u64);

/// Position of a validator within the active committee.
#[derive(Clone, Copy, PartialEq, Eq, Structural, Debug)]
pub struct ValidatorIndex(pub usize);

/// Content-addressed identity of a candidate.
#[derive(Clone, Copy, PartialEq, Eq, Structural, Debug)]
pub struct CandidateHash(pub u64);

/// Content-addressed identity of a validation-code blob; collision-free by
/// assumption (hashing itself is an external collaborator).
#[derive(Clone, Copy, PartialEq, Eq, Structural, Debug)]
pub struct ValidationCodeHash(pub u64);

/// A relay-chain hash value (storage roots, validation-data fingerprints).
#[derive(Clone, Copy, PartialEq, Eq, Structural, Debug)]
pub struct RelayHash(pub u64);

/// The head data of a para: an opaque blob of its latest block header.
#[derive(Clone, PartialEq, Eq, Debug)]
pub struct HeadData(pub Vec<u8>);

impl View for HeadData {
    type V = Seq<u8>;

    open spec fn view(&self) -> Seq<u8> {
        self.0@
    }
}

/// A validation-code blob, identified by its `ValidationCodeHash`.
#[derive(Clone, PartialEq, Eq, Debug)]
pub struct ValidationCode(pub Vec<u8>);

impl View for ValidationCode {
    type V = Seq<u8>;

    open spec fn view(&self) -> Seq<u8> {
        self.0@
    }
}

/// The view of persisted relay state a candidate author builds against.
#[derive(Clone, PartialEq, Eq, Debug)]
pub struct PersistedValidationData {
    pub parent_head: HeadData,
    pub relay_parent_number: BlockNumber,
    pub relay_parent_storage_root: RelayHash,
    pub max_pov_size: u32,
}

/// Selects which hypothetical outcome for an occupied core the validation
/// data is assembled for.
#[derive(Clone, Copy, PartialEq, Eq, Structural, Debug)]
pub enum OccupiedCoreAssumption {
    /// The candidate occupying the core is assumed to become included.
    Included,
    /// The candidate occupying the core is assumed to time out.
    TimedOut,
    /// The core is assumed to be free; ambiguous while it is occupied.
    Freed,
}

/// One outbound inter-para message committed by a candidate.
#[derive(Clone, PartialEq, Eq, Debug)]
pub struct OutboundHrmpMessage {
    pub recipient: ParaId,
    pub data: Vec<u8>,
}

/// The commitments of a candidate: new head, optional new validation code,
/// outbound messages, processed-downward count and channel watermark.
#[derive(Clone, PartialEq, Eq, Debug)]
pub struct CandidateCommitments {
    pub head_data: HeadData,
    pub new_validation_code: Option<ValidationCode>,
    pub horizontal_messages: Vec<OutboundHrmpMessage>,
    pub processed_downward_messages: u32,
    pub hrmp_watermark: BlockNumber,
}

/// The header of a candidate: which para it extends and against which relay
/// state it was built.
#[derive(Clone, PartialEq, Eq, Debug)]
pub struct CandidateDescriptor {
    pub para_id: ParaId,
    pub relay_parent_number: BlockNumber,
    pub persisted_validation_data_hash: RelayHash,
}

/// Candidate header plus its commitments.
#[derive(Clone, PartialEq, Eq, Debug)]
pub struct CommittedCandidateReceipt {
    pub descriptor: CandidateDescriptor,
    pub commitments: CandidateCommitments,
}

/// A lifecycle notification produced while processing the current block only.
#[derive(Clone, Copy, PartialEq, Eq, Structural, Debug)]
pub enum CandidateEvent {
    /// A backed candidate began occupying a core.
    Backed { candidate_hash: CandidateHash, para_id: ParaId, core_index: usize },
    /// An occupied core reached the availability threshold and freed.
    Included { candidate_hash: CandidateHash, para_id: ParaId, core_index: usize },
    /// An occupied core timed out and its candidate was discarded.
    TimedOut { candidate_hash: CandidateHash, para_id: ParaId, core_index: usize },
}

/// A validator's accept/reject vote on a code hash, scoped to a session.
#[derive(Clone, Copy, PartialEq, Eq, Structural, Debug)]
pub struct PvfCheckStatement {
    pub accept: bool,
    pub subject: ValidationCodeHash,
    pub session_index: SessionIndex,
    pub validator_index: ValidatorIndex,
}

/// The error taxonomy of the query/admission surface. Reads never abort:
/// out-of-range identifiers map to `NotFound`, pruned history to
/// `NotAvailable`, and the single write path fails closed.
#[derive(Clone, Copy, PartialEq, Eq, Structural, Debug)]
pub enum HostError {
    /// Unregistered para, unknown code hash, or no matching assumption.
    NotFound,
    /// Session outside the retention window.
    NotAvailable,
    /// `Freed` assumption while the core is actually occupied.
    Ambiguous,
    /// Pre-check statement whose signature does not verify, or whose claimed
    /// validator index is outside the committee.
    InvalidSignature,
    /// Pre-check statement for another session or for no active round.
    Stale,
}

/// External configuration: these constants are not fixed by the interface
/// and are supplied by the embedding ledger.
#[derive(Clone, Copy, PartialEq, Eq, Structural, Debug)]
pub struct HostConfig {
    /// Number of availability cores.
    pub n_cores: usize,
    /// Desired number of validator groups.
    pub group_count: usize,
    /// Blocks between group-rotation boundaries.
    pub rotation_frequency: BlockNumber,
    /// Blocks an occupied core waits for availability before timing out.
    pub availability_timeout: BlockNumber,
    /// Blocks a pre-check round stays open before expiring as a rejection.
    pub precheck_window: BlockNumber,
    /// Maximum byte length of a para's head data.
    pub max_head_data_size: usize,
    /// Maximum byte length of a validation-code blob.
    pub max_code_size: usize,
    /// Maximum byte length of one outbound inter-para message.
    pub max_hrmp_message_size: usize,
    /// Maximum number of outbound inter-para messages per candidate.
    pub max_hrmp_messages_per_candidate: usize,
    /// Maximum proof-of-validity size, echoed into validation data.
    pub max_pov_size: u32,
}

/// Full committee description for one session (current schema).
#[derive(Clone, PartialEq, Eq, Debug)]
pub struct SessionInfo {
    pub validators: Vec<ValidatorId>,
    pub assignment_keys: Vec<ValidatorId>,
    pub validator_groups: Vec<Vec<ValidatorIndex>>,
    pub n_cores: u32,
    pub needed_approvals: u32,
}

/// The superseded reduced schema of `SessionInfo`, kept alongside the current
/// one during a rollout window.
#[derive(Clone, PartialEq, Eq, Debug)]
pub struct OldV1SessionInfo {
    pub validators: Vec<ValidatorId>,
    pub validator_groups: Vec<Vec<ValidatorIndex>>,
}

/// The backing votes recorded for one candidate in the current block.
#[derive(Clone, PartialEq, Eq, Debug)]
pub struct BackingVotes {
    pub candidate_hash: CandidateHash,
    pub para_id: ParaId,
    pub validators: Vec<ValidatorIndex>,
}

/// One dispute-resolution statement set recorded in the current block.
#[derive(Clone, PartialEq, Eq, Debug)]
pub struct DisputeStatementSet {
    pub candidate_hash: CandidateHash,
    pub session: SessionIndex,
    /// Per statement: whether it claims validity, and the voting validator.
    pub statements: Vec<(bool, ValidatorIndex)>,
}

/// Backing votes and dispute statements found while processing one block.
/// Idempotent per block: evidence from earlier blocks is never re-surfaced.
#[derive(Clone, PartialEq, Eq, Debug)]
pub struct ScrapedOnChainVotes {
    pub session: SessionIndex,
    pub backing_validators: Vec<BackingVotes>,
    pub disputes: Vec<DisputeStatementSet>,
}

} // verus!

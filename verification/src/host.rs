//! The block-scoped query facade. A `HostState` is one sealed, immutable
//! snapshot of the relay state as of a block; queries are pure reads against
//! it. Per-block transitions (core resolution, pre-check expiry, the event
//! log) are applied by the containing ledger, single-writer, before the next
//! snapshot is published.

use vstd::prelude::*;

use crate::cores::{
    core_para_of, count_free, count_occupied, count_ones, count_scheduled,
    lemma_core_states_partition, lemma_resolve_preserves, resolve_availability_cores,
    spec_core_votes_len_ok, spec_events_of_cores, spec_resolve_core, CoreState, OccupiedCore,
};
use crate::fingerprint::{pvd_fingerprint, spec_pvd_fingerprint};
use crate::messages::{
    channels_wf, downward_queues_wf, has_queue, queue_index, DownwardQueue, HrmpChannel,
    InboundDownwardMessage, InboundHrmpMessage,
};
use crate::registry::{
    code_index, find_code_entry, find_para_entry, has_code, has_para, para_index, round_hashes,
    CodeRegistry, ParaEntry,
};
use crate::rotation::GroupRotationInfo;
use crate::types::{
    BlockNumber, CandidateCommitments, CandidateEvent, CandidateHash, CommittedCandidateReceipt,
    HeadData, HostConfig, HostError, OccupiedCoreAssumption, OldV1SessionInfo, ParaId,
    PersistedValidationData, PvfCheckStatement, RelayHash, ScrapedOnChainVotes, SessionIndex,
    SessionInfo, ValidationCode, ValidationCodeHash, ValidatorId, ValidatorIndex,
};

verus! {

/// One sealed snapshot of the relay state, as observed by every query for
/// the same block. Never mutated after sealing; the ledger builds the next
/// block's snapshot by applying the transitions below as one unit.
pub struct HostState {
    pub config: HostConfig,
    pub now: BlockNumber,
    pub session_index: SessionIndex,
    pub session_start_block: BlockNumber,
    pub relay_parent_storage_root: RelayHash,
    pub validators: Vec<ValidatorId>,
    pub earliest_stored_session: SessionIndex,
    pub sessions: Vec<SessionInfo>,
    pub cores: Vec<CoreState>,
    pub registry: CodeRegistry,
    pub downward_queues: Vec<DownwardQueue>,
    pub channels: Vec<HrmpChannel>,
    pub events: Vec<CandidateEvent>,
    pub scraped: Option<ScrapedOnChainVotes>,
}

impl HostState {
    /// The snapshot invariant: the configured core count is the core count,
    /// occupancy is exclusive per para, every availability bitfield has one
    /// slot per committee member, and each keyed collection is keyed once.
    pub open spec fn wf(self) -> bool {
        &&& self.config.n_cores == self.cores@.len()
        &&& self.config.group_count >= 1
        &&& self.config.rotation_frequency >= 1
        &&& self.now >= self.session_start_block
        &&& forall|i: int|
            0 <= i < self.cores@.len() ==> spec_core_votes_len_ok(
                #[trigger] self.cores@[i],
                self.validators@.len() as nat,
            )
        &&& forall|i: int, j: int|
            0 <= i < self.cores@.len() && 0 <= j < self.cores@.len() && core_para_of(
                self.cores@[i],
            ) is Some && core_para_of(self.cores@[i]) == core_para_of(self.cores@[j]) ==> i == j
        &&& self.registry.wf(self.validators@.len() as nat)
        &&& downward_queues_wf(self.downward_queues@)
        &&& channels_wf(self.channels@)
    }

    /// Whether some core is occupied by a candidate of `p`.
    pub open spec fn spec_has_occupied(self, p: ParaId) -> bool {
        exists|j: int| 0 <= j < self.cores@.len() && core_para_of(self.cores@[j]) == Some(p)
    }

    /// The index of `p`'s occupied core; meaningful under `wf`.
    pub open spec fn spec_occupied_index(self, p: ParaId) -> int {
        choose|j: int| 0 <= j < self.cores@.len() && core_para_of(self.cores@[j]) == Some(p)
    }

    /// The core occupied by `p`; meaningful when `spec_has_occupied(p)`.
    pub open spec fn spec_occupied_core(self, p: ParaId) -> OccupiedCore {
        match self.cores@[self.spec_occupied_index(p)] {
            CoreState::Occupied(oc) => oc,
            _ => vstd::pervasive::arbitrary(),
        }
    }

    /// The registration of `p`; meaningful when registered.
    pub open spec fn spec_para(self, p: ParaId) -> ParaEntry {
        self.registry.paras@[para_index(self.registry.paras@, p)]
    }

    /// Whether session `index` is still within the retention window.
    pub open spec fn spec_session_stored(self, index: SessionIndex) -> bool {
        self.earliest_stored_session <= index && ((index - self.earliest_stored_session) as int)
            < self.sessions@.len()
    }

    /// The ordered committee of the queried block's session.
    pub fn validators(&self) -> (r: &Vec<ValidatorId>)
        ensures
            r@ == self.validators@,
    {
        &self.validators
    }

    /// The session index that applies to the immediate successor block.
    pub fn session_index_for_child(&self) -> (r: SessionIndex)
        ensures
            r == self.session_index,
    {
        self.session_index
    }

    /// All availability cores as relevant to the child block.
    pub fn availability_cores(&self) -> (r: &Vec<CoreState>)
        ensures
            r@ == self.cores@,
    {
        &self.cores
    }

    /// The candidate lifecycle events produced while processing this block
    /// only: a notification feed, not a historical ledger.
    pub fn candidate_events(&self) -> (r: &Vec<CandidateEvent>)
        ensures
            r@ == self.events@,
    {
        &self.events
    }

    /// The contract of `on_chain_votes`: exactly this block's scraped
    /// evidence, or nothing when none occurred.
    pub open spec fn on_chain_votes_post(self, r: Option<&ScrapedOnChainVotes>) -> bool {
        match r {
            Some(v) => self.scraped matches Some(s) && *v == s,
            None => self.scraped is None,
        }
    }

    /// The backing votes and dispute statements recorded in this block, if
    /// any occurred. Evidence from earlier blocks is never re-surfaced.
    pub fn on_chain_votes(&self) -> (r: Option<&ScrapedOnChainVotes>)
        ensures
            self.on_chain_votes_post(r),
    {
        match &self.scraped {
            Some(v) => Some(v),
            None => None,
        }
    }

    /// The contract of `session_info`: the stored description while the
    /// session is within the retention window, `NotAvailable` otherwise.
    pub open spec fn session_info_post(
        self,
        index: SessionIndex,
        r: Result<&SessionInfo, HostError>,
    ) -> bool {
        match r {
            Ok(s) => self.spec_session_stored(index) && *s == self.sessions@[(index
                - self.earliest_stored_session) as int],
            Err(e) => !self.spec_session_stored(index) && e == HostError::NotAvailable,
        }
    }

    /// The full committee description of a session still within the
    /// retention window; `NotAvailable` once pruned or not yet stored.
    pub fn session_info(&self, index: SessionIndex) -> (r: Result<&SessionInfo, HostError>)
        ensures
            self.session_info_post(index, r),
    {
        if index >= self.earliest_stored_session {
            let off = index - self.earliest_stored_session;
            if (off as usize) < self.sessions.len() {
                return Ok(&self.sessions[off as usize]);
            }
        }
        Err(HostError::NotAvailable)
    }

    /// Position of `p`'s occupied core, if any.
    pub fn find_occupied_core(&self, p: ParaId) -> (r: Option<usize>)
        requires
            self.wf(),
        ensures
            match r {
                Some(i) => i < self.cores@.len() && core_para_of(self.cores@[i as int]) == Some(p)
                    && i as int == self.spec_occupied_index(p),
                None => !self.spec_has_occupied(p),
            },
    {
        let mut i: usize = 0;
        while i < self.cores.len()
            invariant
                self.wf(),
                i <= self.cores@.len(),
                forall|j: int| 0 <= j < i ==> core_para_of(self.cores@[j]) != Some(p),
            decreases self.cores@.len() - i,
        {
            let hit = match &self.cores[i] {
                CoreState::Occupied(oc) => oc.para_id == p,
                _ => false,
            };
            if hit {
                proof {
                    assert(core_para_of(self.cores@[i as int]) == Some(p));
                    let k = self.spec_occupied_index(p);
                    assert(0 <= k < self.cores@.len() && core_para_of(self.cores@[k]) == Some(p));
                    assert(k == i as int);
                }
                return Some(i);
            }
            i = i + 1;
        }
        None
    }

    /// The contract of `candidate_pending_availability`: the receipt
    /// occupying `p`'s core, `NotFound` when none does.
    pub open spec fn pending_availability_post(
        self,
        para_id: ParaId,
        r: Result<&CommittedCandidateReceipt, HostError>,
    ) -> bool {
        match r {
            Ok(c) => self.spec_has_occupied(para_id) && *c == self.spec_occupied_core(
                para_id,
            ).candidate,
            Err(e) => !self.spec_has_occupied(para_id) && e == HostError::NotFound,
        }
    }

    /// The committed receipt of the candidate occupying `p`'s core, or
    /// `NotFound` when none does.
    pub fn candidate_pending_availability(&self, para_id: ParaId) -> (r: Result<
        &CommittedCandidateReceipt,
        HostError,
    >)
        requires
            self.wf(),
        ensures
            self.pending_availability_post(para_id, r),
    {
        match self.find_occupied_core(para_id) {
            Some(i) => {
                match &self.cores[i] {
                    CoreState::Occupied(oc) => Ok(&oc.candidate),
                    _ => {
                        proof {
                            assert(false);
                        }
                        Err(HostError::NotFound)
                    },
                }
            },
            None => Err(HostError::NotFound),
        }
    }

    /// The resolution of a para's current code hash under an assumption:
    /// `NotFound` for an unregistered para, `Ambiguous` for the `Freed`
    /// assumption while the core is actually occupied, the bound hash
    /// otherwise.
    pub open spec fn code_hash_post(
        self,
        p: ParaId,
        assumption: OccupiedCoreAssumption,
        r: Result<ValidationCodeHash, HostError>,
    ) -> bool {
        if !has_para(self.registry.paras@, p) {
            r == Err::<ValidationCodeHash, HostError>(HostError::NotFound)
        } else if assumption is Freed && self.spec_has_occupied(p) {
            r == Err::<ValidationCodeHash, HostError>(HostError::Ambiguous)
        } else {
            r == Ok::<ValidationCodeHash, HostError>(self.spec_para(p).code_hash)
        }
    }

    /// The hash of the validation code used by a para under the stated
    /// assumption; avoids transferring the payload itself.
    pub fn validation_code_hash(&self, para_id: ParaId, assumption: OccupiedCoreAssumption) -> (r:
        Result<ValidationCodeHash, HostError>)
        requires
            self.wf(),
        ensures
            self.code_hash_post(para_id, assumption, r),
    {
        let pi = match find_para_entry(&self.registry.paras, para_id) {
            None => {
                return Err(HostError::NotFound);
            },
            Some(pi) => pi,
        };
        match assumption {
            OccupiedCoreAssumption::Freed => {
                match self.find_occupied_core(para_id) {
                    Some(_) => {
                        return Err(HostError::Ambiguous);
                    },
                    None => {},
                }
            },
            _ => {},
        }
        Ok(self.registry.paras[pi].code_hash)
    }

    /// The contract of `validation_code`: the same resolution as
    /// `code_hash_post`, then the bytes under that hash, `NotFound` if the
    /// store entry was pruned.
    pub open spec fn validation_code_post(
        self,
        para_id: ParaId,
        assumption: OccupiedCoreAssumption,
        r: Result<&ValidationCode, HostError>,
    ) -> bool {
        &&& !has_para(self.registry.paras@, para_id) ==> r == Err::<&ValidationCode, HostError>(
            HostError::NotFound,
        )
        &&& has_para(self.registry.paras@, para_id) && assumption is Freed
            && self.spec_has_occupied(para_id) ==> r == Err::<&ValidationCode, HostError>(
            HostError::Ambiguous,
        )
        &&& has_para(self.registry.paras@, para_id) && !(assumption is Freed
            && self.spec_has_occupied(para_id)) ==> {
            let h = self.spec_para(para_id).code_hash;
            if has_code(self.registry.store@, h) {
                r matches Ok(c) && *c == self.registry.store@[code_index(
                    self.registry.store@,
                    h,
                )].code
            } else {
                r == Err::<&ValidationCode, HostError>(HostError::NotFound)
            }
        }
    }

    /// The validation code used by a para under the stated assumption:
    /// resolve the bound hash, then fetch the bytes from the
    /// content-addressed store; `NotFound` if the entry was pruned.
    pub fn validation_code(&self, para_id: ParaId, assumption: OccupiedCoreAssumption) -> (r:
        Result<&ValidationCode, HostError>)
        requires
            self.wf(),
        ensures
            self.validation_code_post(para_id, assumption, r),
    {
        let hash = match self.validation_code_hash(para_id, assumption) {
            Err(e) => {
                return Err(e);
            },
            Ok(h) => h,
        };
        match find_code_entry(&self.registry.store, hash) {
            Some(ci) => Ok(&self.registry.store[ci].code),
            None => Err(HostError::NotFound),
        }
    }

    /// The contract of `validation_code_by_hash`: the stored bytes under the
    /// hash, `NotFound` if absent or pruned.
    pub open spec fn code_by_hash_post(
        self,
        hash: ValidationCodeHash,
        r: Result<&ValidationCode, HostError>,
    ) -> bool {
        match r {
            Ok(c) => has_code(self.registry.store@, hash) && *c == self.registry.store@[code_index(
                self.registry.store@,
                hash,
            )].code,
            Err(e) => !has_code(self.registry.store@, hash) && e == HostError::NotFound,
        }
    }

    /// Direct content-addressed lookup, independent of any para binding;
    /// `NotFound` if absent or pruned.
    pub fn validation_code_by_hash(&self, hash: ValidationCodeHash) -> (r: Result<
        &ValidationCode,
        HostError,
    >)
        requires
            self.wf(),
        ensures
            self.code_by_hash_post(hash, r),
    {
        match find_code_entry(&self.registry.store, hash) {
            Some(ci) => Ok(&self.registry.store[ci].code),
            None => Err(HostError::NotFound),
        }
    }

    /// All code hashes awaiting pre-check quorum by the active set.
    pub fn pvfs_require_precheck(&self) -> (r: Vec<ValidationCodeHash>)
        ensures
            r@ == round_hashes(self.registry.pending@),
    {
        self.registry.pvfs_require_precheck()
    }

    /// The parent head a candidate of `p` builds on under an assumption:
    /// the occupying candidate's committed head when it is assumed included,
    /// the registered head otherwise.
    pub open spec fn spec_parent_head(self, p: ParaId, assumption: OccupiedCoreAssumption) -> Seq<
        u8,
    > {
        if assumption is Included && self.spec_has_occupied(p) {
            self.spec_occupied_core(p).candidate.commitments.head_data@
        } else {
            self.spec_para(p).current_head@
        }
    }

    /// The contract of `persisted_validation_data`: `NotFound` for an
    /// unregistered para; `Ambiguous` for the `Freed` assumption while the
    /// core is occupied; otherwise the data assembled as of now under the
    /// named hypothetical outcome.
    pub open spec fn pvd_post(
        self,
        p: ParaId,
        assumption: OccupiedCoreAssumption,
        r: Result<PersistedValidationData, HostError>,
    ) -> bool {
        if !has_para(self.registry.paras@, p) {
            r == Err::<PersistedValidationData, HostError>(HostError::NotFound)
        } else if assumption is Freed && self.spec_has_occupied(p) {
            r == Err::<PersistedValidationData, HostError>(HostError::Ambiguous)
        } else {
            r matches Ok(pvd) && pvd.parent_head@ == self.spec_parent_head(p, assumption)
                && pvd.relay_parent_number == self.now && pvd.relay_parent_storage_root
                == self.relay_parent_storage_root && pvd.max_pov_size == self.config.max_pov_size
        }
    }

    /// Assemble the persisted validation data of `para_id` under the stated
    /// occupied-core assumption.
    pub fn persisted_validation_data(
        &self,
        para_id: ParaId,
        assumption: OccupiedCoreAssumption,
    ) -> (r: Result<PersistedValidationData, HostError>)
        requires
            self.wf(),
        ensures
            self.pvd_post(para_id, assumption, r),
    {
        let pi = match find_para_entry(&self.registry.paras, para_id) {
            None => {
                return Err(HostError::NotFound);
            },
            Some(pi) => pi,
        };
        let occ = self.find_occupied_core(para_id);
        let head: &HeadData = match assumption {
            OccupiedCoreAssumption::Freed => {
                match occ {
                    Some(_) => {
                        return Err(HostError::Ambiguous);
                    },
                    None => &self.registry.paras[pi].current_head,
                }
            },
            OccupiedCoreAssumption::TimedOut => &self.registry.paras[pi].current_head,
            OccupiedCoreAssumption::Included => {
                match occ {
                    Some(ci) => {
                        match &self.cores[ci] {
                            CoreState::Occupied(oc) => &oc.candidate.commitments.head_data,
                            _ => {
                                proof {
                                    assert(false);
                                }
                                &self.registry.paras[pi].current_head
                            },
                        }
                    },
                    None => &self.registry.paras[pi].current_head,
                }
            },
        };
        Ok(
            PersistedValidationData {
                parent_head: HeadData(clone_bytes(&head.0)),
                relay_parent_number: self.now,
                relay_parent_storage_root: self.relay_parent_storage_root,
                max_pov_size: self.config.max_pov_size,
            },
        )
    }

    /// The fingerprint an author must present for `p`: that of the data
    /// assembled under the `Included` assumption (the `Freed` and `TimedOut`
    /// assumptions assemble the same data whenever they are unambiguous).
    pub open spec fn spec_assumed_hash(self, p: ParaId) -> u64 {
        spec_pvd_fingerprint(
            self.spec_parent_head(p, OccupiedCoreAssumption::Included),
            self.now,
            self.relay_parent_storage_root.0,
            self.config.max_pov_size,
        )
    }

    /// The contract of `assumed_validation_data`: the data/code-hash pair
    /// whose fingerprint matches, `NotFound` when no assumption's data does.
    pub open spec fn assumed_data_post(
        self,
        para_id: ParaId,
        expected_hash: RelayHash,
        r: Result<(PersistedValidationData, ValidationCodeHash), HostError>,
    ) -> bool {
        match r {
            Ok(pair) => {
                &&& has_para(self.registry.paras@, para_id)
                &&& self.spec_assumed_hash(para_id) == expected_hash.0
                &&& pair.0.parent_head@ == self.spec_parent_head(
                    para_id,
                    OccupiedCoreAssumption::Included,
                )
                &&& pair.0.relay_parent_number == self.now
                &&& pair.0.relay_parent_storage_root == self.relay_parent_storage_root
                &&& pair.0.max_pov_size == self.config.max_pov_size
                &&& pair.1 == self.spec_para(para_id).code_hash
            },
            Err(e) => e == HostError::NotFound && (!has_para(self.registry.paras@, para_id)
                || self.spec_assumed_hash(para_id) != expected_hash.0),
        }
    }

    /// Match the caller's expected validation-data hash and yield the
    /// data/code-hash pair on success; `NotFound` when no assumption's data
    /// matches, so an author never builds against diverged state.
    pub fn assumed_validation_data(&self, para_id: ParaId, expected_hash: RelayHash) -> (r: Result<
        (PersistedValidationData, ValidationCodeHash),
        HostError,
    >)
        requires
            self.wf(),
        ensures
            self.assumed_data_post(para_id, expected_hash, r),
    {
        let pvd = match self.persisted_validation_data(
            para_id,
            OccupiedCoreAssumption::Included,
        ) {
            Err(_) => {
                return Err(HostError::NotFound);
            },
            Ok(p) => p,
        };
        let fp = pvd_fingerprint(&pvd);
        if fp.0 != expected_hash.0 {
            return Err(HostError::NotFound);
        }
        let pi = match find_para_entry(&self.registry.paras, para_id) {
            None => {
                proof {
                    assert(false);
                }
                return Err(HostError::NotFound);
            },
            Some(pi) => pi,
        };
        Ok((pvd, self.registry.paras[pi].code_hash))
    }

    /// The pending downward-queue length of `p`.
    pub open spec fn spec_dmq_len(self, p: ParaId) -> int {
        if has_queue(self.downward_queues@, p) {
            self.downward_queues@[queue_index(self.downward_queues@, p)].messages@.len() as int
        } else {
            0
        }
    }

    /// The acceptance criteria over a candidate's commitments: head-data size
    /// bound, well-formedness of newly proposed code, per-channel message
    /// limits, consistency of the processed-downward count with the queue,
    /// and a watermark no later than now. A pure predicate; no state changes.
    pub open spec fn spec_outputs_acceptable(self, p: ParaId, o: CandidateCommitments) -> bool {
        &&& has_para(self.registry.paras@, p)
        &&& o.head_data@.len() <= self.config.max_head_data_size
        &&& match o.new_validation_code {
            Some(c) => c@.len() > 0 && c@.len() <= self.config.max_code_size,
            None => true,
        }
        &&& o.horizontal_messages@.len() <= self.config.max_hrmp_messages_per_candidate
        &&& forall|j: int|
            0 <= j < o.horizontal_messages@.len() ==> (#[trigger] o.horizontal_messages@[j]).data@.len()
                <= self.config.max_hrmp_message_size && crate::messages::has_channel(
                self.channels@,
                p,
                o.horizontal_messages@[j].recipient,
            )
        &&& o.processed_downward_messages as int <= self.spec_dmq_len(p)
        &&& o.hrmp_watermark <= self.now
    }

    /// Whether the given validation outputs pass the acceptance criteria.
    /// Failure is surfaced as `false`, not as an error.
    pub fn check_validation_outputs(&self, para_id: ParaId, outputs: &CandidateCommitments) -> (r:
        bool)
        requires
            self.wf(),
        ensures
            r == self.spec_outputs_acceptable(para_id, *outputs),
    {
        match find_para_entry(&self.registry.paras, para_id) {
            None => {
                return false;
            },
            Some(_) => {},
        }
        if outputs.head_data.0.len() > self.config.max_head_data_size {
            return false;
        }
        match &outputs.new_validation_code {
            Some(c) => {
                if c.0.len() == 0 || c.0.len() > self.config.max_code_size {
                    return false;
                }
            },
            None => {},
        }
        if outputs.horizontal_messages.len() > self.config.max_hrmp_messages_per_candidate {
            return false;
        }
        let mut j: usize = 0;
        while j < outputs.horizontal_messages.len()
            invariant
                self.wf(),
                j <= outputs.horizontal_messages@.len(),
                forall|i: int|
                    0 <= i < j ==> (#[trigger] outputs.horizontal_messages@[i]).data@.len()
                        <= self.config.max_hrmp_message_size && crate::messages::has_channel(
                        self.channels@,
                        para_id,
                        outputs.horizontal_messages@[i].recipient,
                    ),
            decreases outputs.horizontal_messages@.len() - j,
        {
            let m = &outputs.horizontal_messages[j];
            if m.data.len() > self.config.max_hrmp_message_size {
                return false;
            }
            match crate::messages::find_channel(&self.channels, para_id, m.recipient) {
                None => {
                    return false;
                },
                Some(_) => {},
            }
            j = j + 1;
        }
        let queue_len: usize = match crate::messages::find_queue(
            &self.downward_queues,
            para_id,
        ) {
            Some(qi) => self.downward_queues[qi].messages.len(),
            None => 0,
        };
        if (outputs.processed_downward_messages as usize) > queue_len {
            return false;
        }
        if outputs.hrmp_watermark > self.now {
            return false;
        }
        true
    }

    /// The contract of `validator_groups`: the committee split into the
    /// configured number of contiguous groups (remainder spread across the
    /// leading ones) plus the rotation info localized to this block.
    pub open spec fn validator_groups_post(
        self,
        r: (Vec<Vec<ValidatorIndex>>, GroupRotationInfo),
    ) -> bool {
        &&& r.1 == (GroupRotationInfo {
            session_start_block: self.session_start_block,
            rotation_frequency: self.config.rotation_frequency,
            now: self.now,
        })
        &&& r.0@.len() == self.config.group_count
        &&& forall|g: int|
            0 <= g < self.config.group_count ==> (#[trigger] r.0@[g])@.len()
                == crate::rotation::spec_group_size(
                self.validators@.len() as int,
                self.config.group_count as int,
                g,
            )
        &&& forall|g: int, j: int|
            0 <= g < self.config.group_count && 0 <= j < r.0@[g]@.len() ==> (#[trigger] r.0@[g]@[j])
                == ValidatorIndex(
                (crate::rotation::spec_group_start(
                    self.validators@.len() as int,
                    self.config.group_count as int,
                    g,
                ) + j) as usize,
            )
    }

    /// The committee partitioned into groups, with the rotation info
    /// localized to this block.
    pub fn validator_groups(&self) -> (r: (Vec<Vec<ValidatorIndex>>, GroupRotationInfo))
        requires
            self.wf(),
        ensures
            self.validator_groups_post(r),
    {
        let groups = crate::rotation::make_validator_groups(
            self.validators.len(),
            self.config.group_count,
        );
        let info = GroupRotationInfo {
            session_start_block: self.session_start_block,
            rotation_frequency: self.config.rotation_frequency,
            now: self.now,
        };
        (groups, info)
    }

    /// The downward queue of `recipient`, if one exists (a para with no
    /// queue has no pending messages).
    pub open spec fn spec_dmq(self, p: ParaId) -> Seq<InboundDownwardMessage> {
        if has_queue(self.downward_queues@, p) {
            self.downward_queues@[queue_index(self.downward_queues@, p)].messages@
        } else {
            Seq::empty()
        }
    }

    /// The contract of `dmq_contents`: exactly the pending queue, in order,
    /// message for message.
    pub open spec fn dmq_contents_post(self, recipient: ParaId, r: Vec<
        InboundDownwardMessage,
    >) -> bool {
        dm_views(r@) == dm_views(self.spec_dmq(recipient))
    }

    /// The ordered undelivered downward messages of `recipient`, each tagged
    /// with its enqueue block number.
    pub fn dmq_contents(&self, recipient: ParaId) -> (r: Vec<InboundDownwardMessage>)
        requires
            self.wf(),
        ensures
            self.dmq_contents_post(recipient, r),
    {
        match crate::messages::find_queue(&self.downward_queues, recipient) {
            Some(qi) => {
                let r = clone_downward_messages(&self.downward_queues[qi].messages);
                proof {
                    assert(dm_views(r@) =~= dm_views(self.spec_dmq(recipient)));
                }
                r
            },
            None => {
                let r: Vec<InboundDownwardMessage> = Vec::new();
                proof {
                    assert(dm_views(r@) =~= dm_views(self.spec_dmq(recipient)));
                }
                r
            },
        }
    }

    /// The contract of `inbound_hrmp_channels_contents`: one entry per
    /// channel opened toward the recipient, in channel order, message for
    /// message; an open empty channel appears with no messages, a channel
    /// that does not exist not at all.
    pub open spec fn hrmp_contents_post(self, recipient: ParaId, r: Vec<HrmpChannel>) -> bool {
        let chans = self.channels@.filter(|c: HrmpChannel| c.recipient == recipient);
        &&& r@.len() == chans.len()
        &&& forall|i: int|
            0 <= i < chans.len() ==> (#[trigger] r@[i]).sender == chans[i].sender && r@[i].recipient
                == recipient && hm_views(r@[i].messages@) == hm_views(chans[i].messages@)
    }

    /// The contents of every channel opened toward `recipient`, in channel
    /// order; open empty channels are included.
    pub fn inbound_hrmp_channels_contents(&self, recipient: ParaId) -> (r: Vec<HrmpChannel>)
        requires
            self.wf(),
        ensures
            self.hrmp_contents_post(recipient, r),
    {
        let ghost pred = |c: HrmpChannel| c.recipient == recipient;
        let mut r: Vec<HrmpChannel> = Vec::new();
        let mut i: usize = 0;
        proof {
            assert(self.channels@.take(0).filter(pred) =~= Seq::<HrmpChannel>::empty());
        }
        while i < self.channels.len()
            invariant
                self.wf(),
                i <= self.channels@.len(),
                pred == (|c: HrmpChannel| c.recipient == recipient),
                ({
                    let chans = self.channels@.take(i as int).filter(pred);
                    &&& r@.len() == chans.len()
                    &&& forall|k: int|
                        0 <= k < chans.len() ==> (#[trigger] r@[k]).sender == chans[k].sender
                            && r@[k].recipient == recipient && hm_views(r@[k].messages@)
                            == hm_views(chans[k].messages@)
                }),
            decreases self.channels@.len() - i,
        {
            proof {
                reveal(Seq::filter);
                assert(self.channels@.take(i as int + 1).drop_last() =~= self.channels@.take(
                    i as int,
                ));
                assert(self.channels@.take(i as int + 1).last() == self.channels@[i as int]);
            }
            let c = &self.channels[i];
            if c.recipient == recipient {
                r.push(
                    HrmpChannel {
                        sender: c.sender,
                        recipient: c.recipient,
                        messages: clone_hrmp_messages(&c.messages),
                    },
                );
            }
            i = i + 1;
        }
        proof {
            assert(self.channels@.take(self.channels@.len() as int) =~= self.channels@);
        }
        r
    }

    /// The contract of the `session_info` adapter: the same availability
    /// window as the current schema, translated field for field to the
    /// reduced schema.
    pub open spec fn session_info_v1_post(
        self,
        index: SessionIndex,
        r: Result<OldV1SessionInfo, HostError>,
    ) -> bool {
        match r {
            Ok(v1) => self.spec_session_stored(index) && {
                let s = self.sessions@[(index - self.earliest_stored_session) as int];
                &&& v1.validators@ == s.validators@
                &&& groups_view(v1.validator_groups@) == groups_view(s.validator_groups@)
            },
            Err(e) => !self.spec_session_stored(index) && e == HostError::NotAvailable,
        }
    }

    /// The superseded reduced-schema form of `session_info`, served
    /// alongside the current one during a rollout window.
    pub fn session_info_v1(&self, index: SessionIndex) -> (r: Result<OldV1SessionInfo, HostError>)
        ensures
            self.session_info_v1_post(index, r),
    {
        match self.session_info(index) {
            Err(e) => Err(e),
            Ok(s) => {
                let v1 = OldV1SessionInfo {
                    validators: clone_validator_ids(&s.validators),
                    validator_groups: clone_groups(&s.validator_groups),
                };
                proof {
                    assert(groups_view(v1.validator_groups@) =~= groups_view(
                        s.validator_groups@,
                    ));
                }
                Ok(v1)
            },
        }
    }
}

/// The session-static part of a snapshot: configuration, committee and
/// session registry, which per-block transitions never touch.
pub open spec fn same_session_env(a: HostState, b: HostState) -> bool {
    &&& b.config == a.config
    &&& b.session_index == a.session_index
    &&& b.session_start_block == a.session_start_block
    &&& b.validators == a.validators
    &&& b.earliest_stored_session == a.earliest_stored_session
    &&& b.sessions == a.sessions
}

impl HostState {
    /// Begin processing the next block: advance the height, record the new
    /// storage root, and reset the per-block event log and scraped evidence
    /// (both are per-block feeds, never cross-block history).
    pub fn begin_block(&mut self, new_now: BlockNumber, storage_root: RelayHash)
        requires
            old(self).wf(),
            old(self).now < new_now,
        ensures
            final(self).wf(),
            same_session_env(*old(self), *final(self)),
            final(self).now == new_now,
            final(self).relay_parent_storage_root == storage_root,
            final(self).events@.len() == 0,
            final(self).scraped is None,
            final(self).cores == old(self).cores,
            final(self).registry == old(self).registry,
            final(self).downward_queues == old(self).downward_queues,
            final(self).channels == old(self).channels,
    {
        self.now = new_now;
        self.relay_parent_storage_root = storage_root;
        self.events = Vec::new();
        self.scraped = None;
    }

    /// Resolve every core once for this block, in core-index order, emitting
    /// `Included` and `TimedOut` events. Resolution and re-scheduling are
    /// atomic per core: no observer sees an intermediate state.
    pub fn process_availability_cores(&mut self) -> (freed: usize)
        requires
            old(self).wf(),
        ensures
            final(self).wf(),
            same_session_env(*old(self), *final(self)),
            final(self).now == old(self).now,
            final(self).relay_parent_storage_root == old(self).relay_parent_storage_root,
            final(self).registry == old(self).registry,
            final(self).downward_queues == old(self).downward_queues,
            final(self).channels == old(self).channels,
            final(self).scraped == old(self).scraped,
            final(self).cores@.len() == old(self).cores@.len(),
            forall|i: int|
                0 <= i < old(self).cores@.len() ==> final(self).cores@[i] == spec_resolve_core(
                    old(self).cores@[i],
                    old(self).now,
                    old(self).validators@.len() as nat,
                ),
            final(self).events@ == old(self).events@ + spec_events_of_cores(
                old(self).cores@,
                old(self).now,
                old(self).validators@.len() as nat,
            ),
    {
        let now = self.now;
        let n = self.validators.len();
        let freed = resolve_availability_cores(&mut self.cores, &mut self.events, now, n);
        proof {
            let nn = n as nat;
            assert forall|i: int| 0 <= i < self.cores@.len() implies spec_core_votes_len_ok(
                #[trigger] self.cores@[i],
                nn,
            ) by {
                lemma_resolve_preserves(old(self).cores@[i], now, nn);
            }
            assert forall|i: int, j: int|
                0 <= i < self.cores@.len() && 0 <= j < self.cores@.len() && core_para_of(
                    self.cores@[i],
                ) is Some && core_para_of(self.cores@[i]) == core_para_of(
                    self.cores@[j],
                ) implies i == j by {
                lemma_resolve_preserves(old(self).cores@[i], now, nn);
                lemma_resolve_preserves(old(self).cores@[j], now, nn);
            }
        }
        freed
    }

    /// Record the external scheduler's assignment of `para_id` to a free
    /// core. This machine does not choose which para, only records it; fails
    /// closed on a core that is not free or a para that is not registered.
    pub fn schedule_core(&mut self, core_index: usize, para_id: ParaId) -> (r: Result<
        (),
        HostError,
    >)
        requires
            old(self).wf(),
        ensures
            final(self).wf(),
            r is Ok <==> core_index < old(self).cores@.len() && old(self).cores@[core_index as int]
                is Free && has_para(old(self).registry.paras@, para_id),
            r is Err ==> *final(self) == *old(self) && r == Err::<(), HostError>(
                HostError::NotFound,
            ),
            r is Ok ==> {
                &&& same_session_env(*old(self), *final(self))
                &&& final(self).now == old(self).now
                &&& final(self).relay_parent_storage_root == old(self).relay_parent_storage_root
                &&& final(self).registry == old(self).registry
                &&& final(self).downward_queues == old(self).downward_queues
                &&& final(self).channels == old(self).channels
                &&& final(self).events == old(self).events
                &&& final(self).scraped == old(self).scraped
                &&& final(self).cores@ == old(self).cores@.update(
                    core_index as int,
                    CoreState::Scheduled { para_id },
                )
            },
    {
        if core_index >= self.cores.len() {
            return Err(HostError::NotFound);
        }
        let is_free = match &self.cores[core_index] {
            CoreState::Free => true,
            _ => false,
        };
        if !is_free {
            return Err(HostError::NotFound);
        }
        match find_para_entry(&self.registry.paras, para_id) {
            None => {
                return Err(HostError::NotFound);
            },
            Some(_) => {},
        }
        self.cores.set(core_index, CoreState::Scheduled { para_id });
        Ok(())
    }

    /// A validly backed candidate referencing the core is included: the core
    /// becomes occupied with an all-false bitfield, a timeout at
    /// `now + availability_timeout`, and a `Backed` event. Fails closed
    /// unless the core is scheduled for the candidate's para and no other
    /// core already hosts that para.
    pub fn occupy_core(
        &mut self,
        core_index: usize,
        candidate: CommittedCandidateReceipt,
        candidate_hash: CandidateHash,
        next_up_on_available: Option<ParaId>,
        next_up_on_timeout: Option<ParaId>,
    ) -> (r: Result<(), HostError>)
        requires
            old(self).wf(),
            old(self).now + old(self).config.availability_timeout <= u32::MAX,
        ensures
            final(self).wf(),
            r is Ok <==> core_index < old(self).cores@.len() && crate::cores::scheduled_para_of(
                old(self).cores@[core_index as int],
            ) == Some(candidate.descriptor.para_id) && !old(self).spec_has_occupied(
                candidate.descriptor.para_id,
            ),
            r is Err ==> *final(self) == *old(self) && r == Err::<(), HostError>(
                HostError::NotFound,
            ),
            r is Ok ==> {
                &&& same_session_env(*old(self), *final(self))
                &&& final(self).now == old(self).now
                &&& final(self).relay_parent_storage_root == old(self).relay_parent_storage_root
                &&& final(self).registry == old(self).registry
                &&& final(self).downward_queues == old(self).downward_queues
                &&& final(self).channels == old(self).channels
                &&& final(self).scraped == old(self).scraped
                &&& final(self).cores@.len() == old(self).cores@.len()
                &&& forall|j: int|
                    0 <= j < old(self).cores@.len() && j != core_index ==> final(self).cores@[j]
                        == old(self).cores@[j]
                &&& final(self).cores@[core_index as int] matches CoreState::Occupied(oc) && {
                    &&& oc.para_id == candidate.descriptor.para_id
                    &&& oc.candidate_hash == candidate_hash
                    &&& oc.candidate == candidate
                    &&& oc.availability_votes@.len() == old(self).validators@.len()
                    &&& count_ones(oc.availability_votes@) == 0
                    &&& oc.relay_parent_number == candidate.descriptor.relay_parent_number
                    &&& oc.time_out_at == old(self).now + old(self).config.availability_timeout
                    &&& oc.next_up_on_available == next_up_on_available
                    &&& oc.next_up_on_timeout == next_up_on_timeout
                }
                &&& final(self).events@ == old(self).events@.push(
                    CandidateEvent::Backed {
                        candidate_hash,
                        para_id: candidate.descriptor.para_id,
                        core_index,
                    },
                )
            },
    {
        if core_index >= self.cores.len() {
            return Err(HostError::NotFound);
        }
        let scheduled_ok = match &self.cores[core_index] {
            CoreState::Scheduled { para_id } => *para_id == candidate.descriptor.para_id,
            _ => false,
        };
        if !scheduled_ok {
            return Err(HostError::NotFound);
        }
        match self.find_occupied_core(candidate.descriptor.para_id) {
            Some(_) => {
                return Err(HostError::NotFound);
            },
            None => {},
        }
        let n = self.validators.len();
        let mut votes: Vec<bool> = Vec::new();
        let mut i: usize = 0;
        while i < n
            invariant
                i <= n,
                votes@.len() == i,
                count_ones(votes@) == 0,
            decreases n - i,
        {
            proof {
                assert(votes@.push(false).drop_last() =~= votes@);
            }
            votes.push(false);
            i = i + 1;
        }
        let para_id = candidate.descriptor.para_id;
        let relay_parent_number = candidate.descriptor.relay_parent_number;
        let oc = OccupiedCore {
            para_id,
            candidate_hash,
            candidate,
            availability_votes: votes,
            relay_parent_number,
            time_out_at: self.now + self.config.availability_timeout,
            next_up_on_available,
            next_up_on_timeout,
        };
        self.cores.set(core_index, CoreState::Occupied(oc));
        self.events.push(
            CandidateEvent::Backed { candidate_hash, para_id, core_index },
        );
        proof {
            assert forall|a: int, b: int|
                0 <= a < self.cores@.len() && 0 <= b < self.cores@.len() && core_para_of(
                    self.cores@[a],
                ) is Some && core_para_of(self.cores@[a]) == core_para_of(
                    self.cores@[b],
                ) implies a == b by {
                if a != core_index as int && b != core_index as int {
                    assert(self.cores@[a] == old(self).cores@[a]);
                    assert(self.cores@[b] == old(self).cores@[b]);
                }
            }
        }
        Ok(())
    }

    /// Record one validator's availability attestation for the candidate on
    /// a core. Idempotent per validator; the core is resolved only by the
    /// per-block processing, never here.
    pub fn set_availability_vote(&mut self, core_index: usize, validator_index: usize) -> (r:
        Result<(), HostError>)
        requires
            old(self).wf(),
        ensures
            final(self).wf(),
            r is Ok <==> core_index < old(self).cores@.len() && old(self).cores@[core_index as int]
                is Occupied && validator_index < old(self).validators@.len(),
            r is Err ==> *final(self) == *old(self) && r == Err::<(), HostError>(
                HostError::NotFound,
            ),
            r is Ok ==> {
                &&& same_session_env(*old(self), *final(self))
                &&& final(self).now == old(self).now
                &&& final(self).relay_parent_storage_root == old(self).relay_parent_storage_root
                &&& final(self).registry == old(self).registry
                &&& final(self).downward_queues == old(self).downward_queues
                &&& final(self).channels == old(self).channels
                &&& final(self).events == old(self).events
                &&& final(self).scraped == old(self).scraped
                &&& final(self).cores@.len() == old(self).cores@.len()
                &&& forall|j: int|
                    0 <= j < old(self).cores@.len() && j != core_index ==> final(self).cores@[j]
                        == old(self).cores@[j]
                &&& old(self).cores@[core_index as int] matches CoreState::Occupied(oc)
                    && final(self).cores@[core_index as int] matches CoreState::Occupied(nc) && {
                    &&& nc.para_id == oc.para_id
                    &&& nc.candidate_hash == oc.candidate_hash
                    &&& nc.candidate == oc.candidate
                    &&& nc.relay_parent_number == oc.relay_parent_number
                    &&& nc.time_out_at == oc.time_out_at
                    &&& nc.next_up_on_available == oc.next_up_on_available
                    &&& nc.next_up_on_timeout == oc.next_up_on_timeout
                    &&& nc.availability_votes@ == oc.availability_votes@.update(
                        validator_index as int,
                        true,
                    )
                }
            },
    {
        if core_index >= self.cores.len() {
            return Err(HostError::NotFound);
        }
        if validator_index >= self.validators.len() {
            return Err(HostError::NotFound);
        }
        let is_occupied = match &self.cores[core_index] {
            CoreState::Occupied(_) => true,
            _ => false,
        };
        if !is_occupied {
            return Err(HostError::NotFound);
        }
        let state = self.cores.remove(core_index);
        match state {
            CoreState::Occupied(mut oc) => {
                oc.availability_votes.set(validator_index, true);
                self.cores.insert(core_index, CoreState::Occupied(oc));
                proof {
                    assert(self.cores@ =~= old(self).cores@.update(
                        core_index as int,
                        self.cores@[core_index as int],
                    ));
                }
                Ok(())
            },
            other => {
                self.cores.insert(core_index, other);
                proof {
                    assert(false);
                }
                Err(HostError::NotFound)
            },
        }
    }

    /// Resolve every pre-check round whose window has expired at this block:
    /// expiry counts as rejection and removes the hash from the pending set.
    pub fn prune_expired_prechecks(&mut self) -> (expired: usize)
        requires
            old(self).wf(),
        ensures
            final(self).wf(),
            same_session_env(*old(self), *final(self)),
            final(self).now == old(self).now,
            final(self).relay_parent_storage_root == old(self).relay_parent_storage_root,
            final(self).cores == old(self).cores,
            final(self).downward_queues == old(self).downward_queues,
            final(self).channels == old(self).channels,
            final(self).events == old(self).events,
            final(self).scraped == old(self).scraped,
            final(self).registry.paras == old(self).registry.paras,
            final(self).registry.store == old(self).registry.store,
            final(self).registry.pending@ == crate::registry::spec_active_rounds(
                old(self).registry.pending@,
                old(self).now,
            ),
            final(self).registry.resolved@ == old(self).registry.resolved@
                + crate::registry::spec_expired_hashes(old(self).registry.pending@, old(self).now),
    {
        let now = self.now;
        let n = self.validators.len();
        self.registry.prune_expired(now, n)
    }

    /// Apply one pre-check statement: the sole write path of the surface,
    /// queued by validators and applied when its block is processed.
    /// `signature_valid` is the external signature collaborator's verdict.
    pub fn submit_pvf_check_statement(&mut self, stmt: PvfCheckStatement, signature_valid: bool)
        -> (r: Result<(), HostError>)
        requires
            old(self).wf(),
        ensures
            final(self).wf(),
            same_session_env(*old(self), *final(self)),
            final(self).now == old(self).now,
            final(self).relay_parent_storage_root == old(self).relay_parent_storage_root,
            final(self).cores == old(self).cores,
            final(self).downward_queues == old(self).downward_queues,
            final(self).channels == old(self).channels,
            final(self).events == old(self).events,
            final(self).scraped == old(self).scraped,
            crate::registry::spec_submit_post(
                old(self).registry,
                final(self).registry,
                stmt,
                signature_valid,
                old(self).session_index,
                old(self).validators@.len() as nat,
                r,
            ),
    {
        let session = self.session_index;
        let n = self.validators.len();
        self.registry.submit_statement(stmt, signature_valid, session, n)
    }

    /// Submit new code for a registered para: opens a pre-check round over
    /// the configured window on the first submission of an unseen hash.
    pub fn submit_code_upgrade(
        &mut self,
        para_id: ParaId,
        code: ValidationCode,
        code_hash: ValidationCodeHash,
    ) -> (started: bool)
        requires
            old(self).wf(),
            old(self).now + old(self).config.precheck_window <= u32::MAX,
        ensures
            final(self).wf(),
            same_session_env(*old(self), *final(self)),
            final(self).now == old(self).now,
            final(self).relay_parent_storage_root == old(self).relay_parent_storage_root,
            final(self).cores == old(self).cores,
            final(self).downward_queues == old(self).downward_queues,
            final(self).channels == old(self).channels,
            final(self).events == old(self).events,
            final(self).scraped == old(self).scraped,
            started <==> has_para(old(self).registry.paras@, para_id)
                && !crate::registry::has_round(old(self).registry.pending@, code_hash) && !old(
                self,
            ).registry.resolved@.contains(code_hash),
            !started ==> final(self).registry == old(self).registry,
            started ==> {
                &&& final(self).registry.paras == old(self).registry.paras
                &&& final(self).registry.store == old(self).registry.store
                &&& final(self).registry.resolved == old(self).registry.resolved
                &&& final(self).registry.pending@.len() == old(self).registry.pending@.len() + 1
                &&& forall|j: int|
                    0 <= j < old(self).registry.pending@.len() ==> final(self).registry.pending@[j]
                        == old(self).registry.pending@[j]
                &&& final(self).registry.pending@.last().code_hash == code_hash
                &&& final(self).registry.pending@.last().code == code
                &&& final(self).registry.pending@.last().session == old(self).session_index
                &&& final(self).registry.pending@.last().cause_para == para_id
                &&& final(self).registry.pending@.last().expires_at == old(self).now + old(
                    self,
                ).config.precheck_window
            },
    {
        let session = self.session_index;
        let expires_at = self.now + self.config.precheck_window;
        let n = self.validators.len();
        self.registry.submit_code_upgrade(para_id, code, code_hash, session, expires_at, n)
    }

    /// Record the backing votes scraped for one candidate while processing
    /// this block.
    pub fn record_backing_votes(&mut self, votes: crate::types::BackingVotes)
        requires
            old(self).wf(),
        ensures
            final(self).wf(),
            same_session_env(*old(self), *final(self)),
            final(self).now == old(self).now,
            final(self).relay_parent_storage_root == old(self).relay_parent_storage_root,
            final(self).cores == old(self).cores,
            final(self).registry == old(self).registry,
            final(self).downward_queues == old(self).downward_queues,
            final(self).channels == old(self).channels,
            final(self).events == old(self).events,
            old(self).scraped is None ==> (final(self).scraped matches Some(s) && s.session == old(
                self,
            ).session_index && s.backing_validators@ == seq![votes] && s.disputes@.len() == 0),
            old(self).scraped matches Some(os) ==> (final(self).scraped matches Some(s)
                && s.session == os.session && s.backing_validators@
                == os.backing_validators@.push(votes) && s.disputes == os.disputes),
    {
        if self.scraped.is_none() {
            self.scraped = Some(
                ScrapedOnChainVotes {
                    session: self.session_index,
                    backing_validators: Vec::new(),
                    disputes: Vec::new(),
                },
            );
            match &mut self.scraped {
                Some(s) => {
                    s.backing_validators.push(votes);
                },
                None => {},
            }
        } else {
            match &mut self.scraped {
                Some(s) => {
                    s.backing_validators.push(votes);
                },
                None => {},
            }
        }
    }

    /// Record one dispute-resolution statement set scraped while processing
    /// this block.
    pub fn record_dispute(&mut self, set: crate::types::DisputeStatementSet)
        requires
            old(self).wf(),
        ensures
            final(self).wf(),
            same_session_env(*old(self), *final(self)),
            final(self).now == old(self).now,
            final(self).relay_parent_storage_root == old(self).relay_parent_storage_root,
            final(self).cores == old(self).cores,
            final(self).registry == old(self).registry,
            final(self).downward_queues == old(self).downward_queues,
            final(self).channels == old(self).channels,
            final(self).events == old(self).events,
            old(self).scraped is None ==> (final(self).scraped matches Some(s) && s.session == old(
                self,
            ).session_index && s.disputes@ == seq![set] && s.backing_validators@.len() == 0),
            old(self).scraped matches Some(os) ==> (final(self).scraped matches Some(s)
                && s.session == os.session && s.disputes@ == os.disputes@.push(set)
                && s.backing_validators == os.backing_validators),
    {
        if self.scraped.is_none() {
            self.scraped = Some(
                ScrapedOnChainVotes {
                    session: self.session_index,
                    backing_validators: Vec::new(),
                    disputes: Vec::new(),
                },
            );
        }
        match &mut self.scraped {
            Some(s) => {
                s.disputes.push(set);
            },
            None => {},
        }
    }
}

/// The closed set of query variants of the block-scoped surface. Every read
/// goes through one of these; the sole write path,
/// `submit_pvf_check_statement`, is queued for a future block instead.
pub enum Query {
    Validators,
    ValidatorGroups,
    AvailabilityCores,
    PersistedValidationData { para_id: ParaId, assumption: OccupiedCoreAssumption },
    AssumedValidationData { para_id: ParaId, expected_hash: RelayHash },
    CheckValidationOutputs { para_id: ParaId, outputs: CandidateCommitments },
    SessionIndexForChild,
    ValidationCode { para_id: ParaId, assumption: OccupiedCoreAssumption },
    ValidationCodeHash { para_id: ParaId, assumption: OccupiedCoreAssumption },
    ValidationCodeByHash { hash: ValidationCodeHash },
    CandidatePendingAvailability { para_id: ParaId },
    CandidateEvents,
    DmqContents { recipient: ParaId },
    InboundHrmpChannelsContents { recipient: ParaId },
    OnChainVotes,
    SessionInfo { index: SessionIndex },
    SessionInfoV1 { index: SessionIndex },
    PvfsRequirePrecheck,
}

/// The reply to one query, one variant per query variant.
pub enum QueryReply<'a> {
    Validators(&'a Vec<ValidatorId>),
    ValidatorGroups((Vec<Vec<ValidatorIndex>>, GroupRotationInfo)),
    AvailabilityCores(&'a Vec<CoreState>),
    PersistedValidationData(Result<PersistedValidationData, HostError>),
    AssumedValidationData(Result<(PersistedValidationData, ValidationCodeHash), HostError>),
    CheckValidationOutputs(bool),
    SessionIndexForChild(SessionIndex),
    ValidationCode(Result<&'a ValidationCode, HostError>),
    ValidationCodeHash(Result<ValidationCodeHash, HostError>),
    ValidationCodeByHash(Result<&'a ValidationCode, HostError>),
    CandidatePendingAvailability(Result<&'a CommittedCandidateReceipt, HostError>),
    CandidateEvents(&'a Vec<CandidateEvent>),
    DmqContents(Vec<InboundDownwardMessage>),
    InboundHrmpChannelsContents(Vec<HrmpChannel>),
    OnChainVotes(Option<&'a ScrapedOnChainVotes>),
    SessionInfo(Result<&'a SessionInfo, HostError>),
    SessionInfoV1(Result<OldV1SessionInfo, HostError>),
    PvfsRequirePrecheck(Vec<ValidationCodeHash>),
}

impl HostState {
    /// Dispatch one query against this snapshot. Each variant's reply meets
    /// exactly the contract of the corresponding direct method.
    pub fn execute<'a>(&'a self, q: Query) -> (r: QueryReply<'a>)
        requires
            self.wf(),
        ensures
            match q {
                Query::Validators => r matches QueryReply::Validators(v) && v@ == self.validators@,
                Query::ValidatorGroups => r matches QueryReply::ValidatorGroups(v)
                    && self.validator_groups_post(v),
                Query::AvailabilityCores => r matches QueryReply::AvailabilityCores(v) && v@
                    == self.cores@,
                Query::PersistedValidationData { para_id, assumption } => r matches
                    QueryReply::PersistedValidationData(v) && self.pvd_post(
                    para_id,
                    assumption,
                    v,
                ),
                Query::AssumedValidationData { para_id, expected_hash } => r matches
                    QueryReply::AssumedValidationData(v) && self.assumed_data_post(
                    para_id,
                    expected_hash,
                    v,
                ),
                Query::CheckValidationOutputs { para_id, outputs } => r matches
                    QueryReply::CheckValidationOutputs(v) && v == self.spec_outputs_acceptable(
                    para_id,
                    outputs,
                ),
                Query::SessionIndexForChild => r matches QueryReply::SessionIndexForChild(v) && v
                    == self.session_index,
                Query::ValidationCode { para_id, assumption } => r matches
                    QueryReply::ValidationCode(v) && self.validation_code_post(
                    para_id,
                    assumption,
                    v,
                ),
                Query::ValidationCodeHash { para_id, assumption } => r matches
                    QueryReply::ValidationCodeHash(v) && self.code_hash_post(
                    para_id,
                    assumption,
                    v,
                ),
                Query::ValidationCodeByHash { hash } => r matches QueryReply::ValidationCodeByHash(
                    v,
                ) && self.code_by_hash_post(hash, v),
                Query::CandidatePendingAvailability { para_id } => r matches
                    QueryReply::CandidatePendingAvailability(v) && self.pending_availability_post(
                    para_id,
                    v,
                ),
                Query::CandidateEvents => r matches QueryReply::CandidateEvents(v) && v@
                    == self.events@,
                Query::DmqContents { recipient } => r matches QueryReply::DmqContents(v)
                    && self.dmq_contents_post(recipient, v),
                Query::InboundHrmpChannelsContents { recipient } => r matches
                    QueryReply::InboundHrmpChannelsContents(v) && self.hrmp_contents_post(
                    recipient,
                    v,
                ),
                Query::OnChainVotes => r matches QueryReply::OnChainVotes(v)
                    && self.on_chain_votes_post(v),
                Query::SessionInfo { index } => r matches QueryReply::SessionInfo(v)
                    && self.session_info_post(index, v),
                Query::SessionInfoV1 { index } => r matches QueryReply::SessionInfoV1(v)
                    && self.session_info_v1_post(index, v),
                Query::PvfsRequirePrecheck => r matches QueryReply::PvfsRequirePrecheck(v) && v@
                    == round_hashes(self.registry.pending@),
            },
    {
        match q {
            Query::Validators => QueryReply::Validators(self.validators()),
            Query::ValidatorGroups => QueryReply::ValidatorGroups(self.validator_groups()),
            Query::AvailabilityCores => QueryReply::AvailabilityCores(self.availability_cores()),
            Query::PersistedValidationData { para_id, assumption } => {
                QueryReply::PersistedValidationData(
                    self.persisted_validation_data(para_id, assumption),
                )
            },
            Query::AssumedValidationData { para_id, expected_hash } => {
                QueryReply::AssumedValidationData(
                    self.assumed_validation_data(para_id, expected_hash),
                )
            },
            Query::CheckValidationOutputs { para_id, outputs } => {
                QueryReply::CheckValidationOutputs(
                    self.check_validation_outputs(para_id, &outputs),
                )
            },
            Query::SessionIndexForChild => {
                QueryReply::SessionIndexForChild(self.session_index_for_child())
            },
            Query::ValidationCode { para_id, assumption } => {
                QueryReply::ValidationCode(self.validation_code(para_id, assumption))
            },
            Query::ValidationCodeHash { para_id, assumption } => {
                QueryReply::ValidationCodeHash(self.validation_code_hash(para_id, assumption))
            },
            Query::ValidationCodeByHash { hash } => {
                QueryReply::ValidationCodeByHash(self.validation_code_by_hash(hash))
            },
            Query::CandidatePendingAvailability { para_id } => {
                QueryReply::CandidatePendingAvailability(
                    self.candidate_pending_availability(para_id),
                )
            },
            Query::CandidateEvents => QueryReply::CandidateEvents(self.candidate_events()),
            Query::DmqContents { recipient } => {
                QueryReply::DmqContents(self.dmq_contents(recipient))
            },
            Query::InboundHrmpChannelsContents { recipient } => {
                QueryReply::InboundHrmpChannelsContents(
                    self.inbound_hrmp_channels_contents(recipient),
                )
            },
            Query::OnChainVotes => QueryReply::OnChainVotes(self.on_chain_votes()),
            Query::SessionInfo { index } => QueryReply::SessionInfo(self.session_info(index)),
            Query::SessionInfoV1 { index } => {
                QueryReply::SessionInfoV1(self.session_info_v1(index))
            },
            Query::PvfsRequirePrecheck => {
                QueryReply::PvfsRequirePrecheck(self.pvfs_require_precheck())
            },
        }
    }
}

/// For every block, the cores counted as `Free`, `Scheduled` and `Occupied`
/// together are exactly the configured core count.
pub proof fn lemma_core_count(s: HostState)
    requires
        s.wf(),
    ensures
        count_free(s.cores@) + count_scheduled(s.cores@) + count_occupied(s.cores@)
            == s.config.n_cores,
{
    lemma_core_states_partition(s.cores@);
}

/// The per-group index sequences of a group partition.
pub open spec fn groups_view(g: Seq<Vec<ValidatorIndex>>) -> Seq<Seq<ValidatorIndex>> {
    g.map_values(|v: Vec<ValidatorIndex>| v@)
}

/// The views of a downward-message sequence.
pub open spec fn dm_views(s: Seq<InboundDownwardMessage>) -> Seq<(BlockNumber, Seq<u8>)> {
    s.map_values(|m: InboundDownwardMessage| m@)
}

/// The views of an inter-para message sequence.
pub open spec fn hm_views(s: Seq<InboundHrmpMessage>) -> Seq<(BlockNumber, Seq<u8>)> {
    s.map_values(|m: InboundHrmpMessage| m@)
}

/// Byte-for-byte copy of a blob.
fn clone_bytes(v: &Vec<u8>) -> (r: Vec<u8>)
    ensures
        r@ == v@,
{
    let mut r: Vec<u8> = Vec::new();
    let mut i: usize = 0;
    while i < v.len()
        invariant
            i <= v@.len(),
            r@.len() == i,
            forall|j: int| 0 <= j < i ==> r@[j] == v@[j],
        decreases v@.len() - i,
    {
        r.push(v[i]);
        i = i + 1;
    }
    proof {
        assert(r@ =~= v@);
    }
    r
}

/// Copy of a committee listing.
fn clone_validator_ids(v: &Vec<ValidatorId>) -> (r: Vec<ValidatorId>)
    ensures
        r@ == v@,
{
    let mut r: Vec<ValidatorId> = Vec::new();
    let mut i: usize = 0;
    while i < v.len()
        invariant
            i <= v@.len(),
            r@.len() == i,
            forall|j: int| 0 <= j < i ==> r@[j] == v@[j],
        decreases v@.len() - i,
    {
        r.push(v[i]);
        i = i + 1;
    }
    proof {
        assert(r@ =~= v@);
    }
    r
}

/// Copy of one group's validator indices.
fn clone_index_vec(v: &Vec<ValidatorIndex>) -> (r: Vec<ValidatorIndex>)
    ensures
        r@ == v@,
{
    let mut r: Vec<ValidatorIndex> = Vec::new();
    let mut i: usize = 0;
    while i < v.len()
        invariant
            i <= v@.len(),
            r@.len() == i,
            forall|j: int| 0 <= j < i ==> r@[j] == v@[j],
        decreases v@.len() - i,
    {
        r.push(v[i]);
        i = i + 1;
    }
    proof {
        assert(r@ =~= v@);
    }
    r
}

/// Copy of a group partition.
fn clone_groups(g: &Vec<Vec<ValidatorIndex>>) -> (r: Vec<Vec<ValidatorIndex>>)
    ensures
        r@.len() == g@.len(),
        forall|i: int| 0 <= i < g@.len() ==> (#[trigger] r@[i])@ == g@[i]@,
{
    let mut r: Vec<Vec<ValidatorIndex>> = Vec::new();
    let mut i: usize = 0;
    while i < g.len()
        invariant
            i <= g@.len(),
            r@.len() == i,
            forall|j: int| 0 <= j < i ==> (#[trigger] r@[j])@ == g@[j]@,
        decreases g@.len() - i,
    {
        r.push(clone_index_vec(&g[i]));
        i = i + 1;
    }
    r
}

/// Copy of a downward-message queue, preserving every view.
fn clone_downward_messages(q: &Vec<InboundDownwardMessage>) -> (r: Vec<InboundDownwardMessage>)
    ensures
        dm_views(r@) == dm_views(q@),
{
    let mut r: Vec<InboundDownwardMessage> = Vec::new();
    let mut i: usize = 0;
    while i < q.len()
        invariant
            i <= q@.len(),
            r@.len() == i,
            forall|j: int| 0 <= j < i ==> (#[trigger] r@[j])@ == q@[j]@,
        decreases q@.len() - i,
    {
        let m = &q[i];
        r.push(InboundDownwardMessage { sent_at: m.sent_at, msg: clone_bytes(&m.msg) });
        i = i + 1;
    }
    proof {
        assert(dm_views(r@) =~= dm_views(q@));
    }
    r
}

/// Copy of a channel's pending messages, preserving every view.
fn clone_hrmp_messages(q: &Vec<InboundHrmpMessage>) -> (r: Vec<InboundHrmpMessage>)
    ensures
        hm_views(r@) == hm_views(q@),
{
    let mut r: Vec<InboundHrmpMessage> = Vec::new();
    let mut i: usize = 0;
    while i < q.len()
        invariant
            i <= q@.len(),
            r@.len() == i,
            forall|j: int| 0 <= j < i ==> (#[trigger] r@[j])@ == q@[j]@,
        decreases q@.len() - i,
    {
        let m = &q[i];
        r.push(InboundHrmpMessage { sent_at: m.sent_at, data: clone_bytes(&m.data) });
        i = i + 1;
    }
    proof {
        assert(hm_views(r@) =~= hm_views(q@));
    }
    r
}

} // verus!

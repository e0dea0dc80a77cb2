//! Availability-core state machine: per-core occupancy lifecycle with
//! supermajority availability and timeout resolution, evaluated once per
//! block in core-index order.

use vstd::arithmetic::div_mod::{lemma_fundamental_div_mod, lemma_hoist_over_denominator};
use vstd::prelude::*;

use crate::types::{
    BlockNumber, CandidateEvent, CandidateHash, CommittedCandidateReceipt, ParaId,
};

verus! {

/// A core holding one candidate while validators attest to the availability
/// of its data. The bitfield has one slot per committee member.
#[derive(Clone, PartialEq, Eq, Debug)]
pub struct OccupiedCore {
    pub para_id: ParaId,
    pub candidate_hash: CandidateHash,
    pub candidate: CommittedCandidateReceipt,
    pub availability_votes: Vec<bool>,
    pub relay_parent_number: BlockNumber,
    pub time_out_at: BlockNumber,
    pub next_up_on_available: Option<ParaId>,
    pub next_up_on_timeout: Option<ParaId>,
}

/// Occupancy state of one availability core. At most one candidate per core
/// at any time, by construction.
#[derive(Clone, PartialEq, Eq, Debug)]
pub enum CoreState {
    Free,
    Scheduled { para_id: ParaId },
    Occupied(OccupiedCore),
}

/// The para whose candidate occupies a core, if any.
pub open spec fn core_para_of(c: CoreState) -> Option<ParaId> {
    match c {
        CoreState::Occupied(oc) => Some(oc.para_id),
        _ => None,
    }
}

/// The para a core is scheduled for, if any.
pub open spec fn scheduled_para_of(c: CoreState) -> Option<ParaId> {
    match c {
        CoreState::Scheduled { para_id } => Some(para_id),
        _ => None,
    }
}

/// An occupied core's bitfield has one slot per committee member.
pub open spec fn spec_core_votes_len_ok(c: CoreState, n: nat) -> bool {
    match c {
        CoreState::Occupied(oc) => oc.availability_votes@.len() == n,
        _ => true,
    }
}

/// Number of `true` bits in an availability bitfield.
pub open spec fn count_ones(bits: Seq<bool>) -> nat
    decreases bits.len(),
{
    if bits.len() == 0 {
        0
    } else {
        count_ones(bits.drop_last()) + if bits.last() {
            1nat
        } else {
            0nat
        }
    }
}

/// Availability threshold for a committee of `n` validators:
/// `floor(2 * n / 3) + 1`.
pub open spec fn spec_availability_threshold(n: nat) -> nat {
    2 * n / 3 + 1
}

/// Whether an occupied core frees by reaching the availability threshold
/// strictly before its timeout.
pub open spec fn spec_frees_on_availability(oc: OccupiedCore, now: BlockNumber, n: nat) -> bool {
    count_ones(oc.availability_votes@) >= spec_availability_threshold(n) && now < oc.time_out_at
}

/// Whether an occupied core times out without reaching the threshold.
pub open spec fn spec_times_out(oc: OccupiedCore, now: BlockNumber, n: nat) -> bool {
    !spec_frees_on_availability(oc, now, n) && now >= oc.time_out_at
}

/// The state a freed core re-schedules to: the designated next para if any,
/// else `Free`.
pub open spec fn spec_next_core(next: Option<ParaId>) -> CoreState {
    match next {
        Some(p) => CoreState::Scheduled { para_id: p },
        None => CoreState::Free,
    }
}

/// Resolution of one core for the current block: occupied cores free on
/// supermajority availability or on timeout; free and scheduled cores are
/// untouched. The resolution and the resulting re-scheduling are atomic.
pub open spec fn spec_resolve_core(c: CoreState, now: BlockNumber, n: nat) -> CoreState {
    match c {
        CoreState::Occupied(oc) => {
            if spec_frees_on_availability(oc, now, n) {
                spec_next_core(oc.next_up_on_available)
            } else if spec_times_out(oc, now, n) {
                spec_next_core(oc.next_up_on_timeout)
            } else {
                c
            }
        },
        _ => c,
    }
}

/// The events one core's resolution emits: `Included` on availability,
/// `TimedOut` on timeout, nothing otherwise.
pub open spec fn spec_core_events(
    c: CoreState,
    core_index: int,
    now: BlockNumber,
    n: nat,
) -> Seq<CandidateEvent> {
    match c {
        CoreState::Occupied(oc) => {
            if spec_frees_on_availability(oc, now, n) {
                seq![
                    CandidateEvent::Included {
                        candidate_hash: oc.candidate_hash,
                        para_id: oc.para_id,
                        core_index: core_index as usize,
                    },
                ]
            } else if spec_times_out(oc, now, n) {
                seq![
                    CandidateEvent::TimedOut {
                        candidate_hash: oc.candidate_hash,
                        para_id: oc.para_id,
                        core_index: core_index as usize,
                    },
                ]
            } else {
                Seq::empty()
            }
        },
        _ => Seq::empty(),
    }
}

/// The events of resolving all cores of a block, in core-index order.
pub open spec fn spec_events_of_cores(cores: Seq<CoreState>, now: BlockNumber, n: nat) -> Seq<
    CandidateEvent,
>
    decreases cores.len(),
{
    if cores.len() == 0 {
        Seq::empty()
    } else {
        spec_events_of_cores(cores.drop_last(), now, n) + spec_core_events(
            cores.last(),
            cores.len() - 1,
            now,
            n,
        )
    }
}

/// Number of cores in a given seq that are `Free`.
pub open spec fn count_free(cores: Seq<CoreState>) -> nat
    decreases cores.len(),
{
    if cores.len() == 0 {
        0
    } else {
        count_free(cores.drop_last()) + if cores.last() is Free {
            1nat
        } else {
            0nat
        }
    }
}

/// Number of cores in a given seq that are `Scheduled`.
pub open spec fn count_scheduled(cores: Seq<CoreState>) -> nat
    decreases cores.len(),
{
    if cores.len() == 0 {
        0
    } else {
        count_scheduled(cores.drop_last()) + if cores.last() is Scheduled {
            1nat
        } else {
            0nat
        }
    }
}

/// Number of cores in a given seq that are `Occupied`.
pub open spec fn count_occupied(cores: Seq<CoreState>) -> nat
    decreases cores.len(),
{
    if cores.len() == 0 {
        0
    } else {
        count_occupied(cores.drop_last()) + if cores.last() is Occupied {
            1nat
        } else {
            0nat
        }
    }
}

/// Every core is in exactly one of the three states, so the counts of
/// `Free`, `Scheduled` and `Occupied` cores always sum to the core count.
pub proof fn lemma_core_states_partition(cores: Seq<CoreState>)
    ensures
        count_free(cores) + count_scheduled(cores) + count_occupied(cores) == cores.len(),
    decreases cores.len(),
{
    if cores.len() > 0 {
        lemma_core_states_partition(cores.drop_last());
    }
}

/// A core's resolution never creates occupancy: a resolved core is either
/// unchanged or freed, so bitfield slots and occupancy exclusivity carry over.
pub proof fn lemma_resolve_preserves(c: CoreState, now: BlockNumber, n: nat)
    ensures
        spec_core_votes_len_ok(c, n) ==> spec_core_votes_len_ok(spec_resolve_core(c, now, n), n),
        core_para_of(spec_resolve_core(c, now, n)) is Some ==> spec_resolve_core(c, now, n) == c,
{
}

/// The availability threshold is sharp: with exactly `threshold - 1` bits set
/// an occupied core stays occupied (before its timeout), and with `threshold`
/// bits set it frees and emits `Included`.
pub proof fn lemma_threshold_boundary(
    oc: OccupiedCore,
    core_index: int,
    now: BlockNumber,
    n: nat,
)
    requires
        now < oc.time_out_at,
    ensures
        count_ones(oc.availability_votes@) == spec_availability_threshold(n) - 1
            ==> spec_resolve_core(CoreState::Occupied(oc), now, n) == CoreState::Occupied(oc),
        count_ones(oc.availability_votes@) == spec_availability_threshold(n)
            ==> spec_resolve_core(CoreState::Occupied(oc), now, n) == spec_next_core(
            oc.next_up_on_available,
        ) && spec_core_events(CoreState::Occupied(oc), core_index, now, n) == seq![
            CandidateEvent::Included {
                candidate_hash: oc.candidate_hash,
                para_id: oc.para_id,
                core_index: core_index as usize,
            },
        ],
{
}

/// Compute `floor(2 * n / 3) + 1` without intermediate overflow.
pub fn availability_threshold(n: usize) -> (t: usize)
    ensures
        t == spec_availability_threshold(n as nat),
{
    let k: usize = n / 3;
    let r: usize = n % 3;
    proof {
        lemma_fundamental_div_mod(n as int, 3);
        lemma_hoist_over_denominator(2 * (n as int % 3), 2 * (n as int / 3), 3);
        assert(2 * (n as int) == 2 * (n as int % 3) + (2 * (n as int / 3)) * 3);
    }
    k * 2 + (r * 2) / 3 + 1
}

/// Count the `true` bits of an availability bitfield.
pub fn count_ones_vec(bits: &Vec<bool>) -> (c: usize)
    ensures
        c == count_ones(bits@),
{
    let mut c: usize = 0;
    let mut i: usize = 0;
    while i < bits.len()
        invariant
            i <= bits@.len(),
            c == count_ones(bits@.take(i as int)),
            c <= i,
        decreases bits@.len() - i,
    {
        proof {
            assert(bits@.take(i as int + 1).drop_last() =~= bits@.take(i as int));
            assert(bits@.take(i as int + 1).last() == bits@[i as int]);
        }
        if bits[i] {
            c = c + 1;
        }
        i = i + 1;
    }
    proof {
        assert(bits@.take(bits@.len() as int) =~= bits@);
    }
    c
}

/// Resolve every core once for the current block, in core-index order,
/// appending the emitted events. Each core's new state and its events follow
/// `spec_resolve_core` and `spec_events_of_cores` exactly.
pub fn resolve_availability_cores(
    cores: &mut Vec<CoreState>,
    events: &mut Vec<CandidateEvent>,
    now: BlockNumber,
    n_validators: usize,
) -> (freed: usize)
    ensures
        final(cores)@.len() == old(cores)@.len(),
        forall|i: int|
            0 <= i < old(cores)@.len() ==> final(cores)@[i] == spec_resolve_core(
                old(cores)@[i],
                now,
                n_validators as nat,
            ),
        final(events)@ == old(events)@ + spec_events_of_cores(
            old(cores)@,
            now,
            n_validators as nat,
        ),
{
    let ghost n: nat = n_validators as nat;
    let threshold: usize = availability_threshold(n_validators);
    let mut i: usize = 0;
    let mut freed: usize = 0;
    while i < cores.len()
        invariant
            i <= cores@.len(),
            freed <= i,
            cores@.len() == old(cores)@.len(),
            threshold == spec_availability_threshold(n),
            n == n_validators as nat,
            forall|j: int|
                0 <= j < i ==> cores@[j] == spec_resolve_core(old(cores)@[j], now, n),
            forall|j: int| i <= j < cores@.len() ==> cores@[j] == old(cores)@[j],
            events@ == old(events)@ + spec_events_of_cores(old(cores)@.take(i as int), now, n),
        decreases cores@.len() - i,
    {
        proof {
            assert(old(cores)@.take(i as int + 1).drop_last() =~= old(cores)@.take(i as int));
            assert(old(cores)@.take(i as int + 1).last() == old(cores)@[i as int]);
        }
        let mut resolution: Option<(CoreState, CandidateEvent)> = None;
        match &cores[i] {
            CoreState::Occupied(oc) => {
                let ones = count_ones_vec(&oc.availability_votes);
                if ones >= threshold && now < oc.time_out_at {
                    let replacement = match oc.next_up_on_available {
                        Some(p) => CoreState::Scheduled { para_id: p },
                        None => CoreState::Free,
                    };
                    resolution = Some(
                        (
                            replacement,
                            CandidateEvent::Included {
                                candidate_hash: oc.candidate_hash,
                                para_id: oc.para_id,
                                core_index: i,
                            },
                        ),
                    );
                } else if now >= oc.time_out_at {
                    let replacement = match oc.next_up_on_timeout {
                        Some(p) => CoreState::Scheduled { para_id: p },
                        None => CoreState::Free,
                    };
                    resolution = Some(
                        (
                            replacement,
                            CandidateEvent::TimedOut {
                                candidate_hash: oc.candidate_hash,
                                para_id: oc.para_id,
                                core_index: i,
                            },
                        ),
                    );
                }
            },
            _ => {},
        }
        match resolution {
            Some((replacement, event)) => {
                cores.set(i, replacement);
                events.push(event);
                freed = freed + 1;
            },
            None => {},
        }
        i = i + 1;
    }
    proof {
        assert(old(cores)@.take(cores@.len() as int) =~= old(cores)@);
    }
    freed
}

} // verus!

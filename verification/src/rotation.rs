//! Group rotation scheduler: partitions the committee into groups and rotates
//! their core assignment as a pure, replay-safe function of block height.

use vstd::arithmetic::div_mod::{
    lemma_fundamental_div_mod, lemma_hoist_over_denominator, lemma_mod_multiples_vanish,
};
use vstd::arithmetic::mul::{lemma_mul_is_commutative, lemma_mul_is_distributive_add_other_way};
use vstd::prelude::*;

use crate::types::{BlockNumber, ValidatorIndex};

verus! {

/// Pure-function input for group assignment; carries no hidden per-block state.
#[derive(Clone, Copy, PartialEq, Eq, Structural, Debug)]
pub struct GroupRotationInfo {
    pub session_start_block: BlockNumber,
    pub rotation_frequency: BlockNumber,
    pub now: BlockNumber,
}

/// The assignment rule:
/// `(core + (now - session_start) / rotation_frequency) mod group_count`.
pub open spec fn spec_assigned_group(
    core: int,
    session_start: int,
    frequency: int,
    now: int,
    group_count: int,
) -> int {
    (core + (now - session_start) / frequency) % group_count
}

/// Size of group `g` when `n` validators are split into `group_count` groups:
/// `n / group_count`, with the remainder spread across the leading groups.
pub open spec fn spec_group_size(n: int, group_count: int, g: int) -> int {
    n / group_count + if g < n % group_count {
        1int
    } else {
        0int
    }
}

/// First validator index of group `g` under the same split.
pub open spec fn spec_group_start(n: int, group_count: int, g: int) -> int {
    g * (n / group_count) + if g < n % group_count {
        g
    } else {
        n % group_count
    }
}

impl GroupRotationInfo {
    /// The rule is only meaningful for a positive frequency at or after the
    /// session start.
    pub open spec fn wf(self) -> bool {
        &&& self.rotation_frequency >= 1
        &&& self.now >= self.session_start_block
    }

    /// The group assigned to `core` at height `self.now`.
    pub fn assigned_group(&self, core: usize, group_count: usize) -> (g: usize)
        requires
            self.wf(),
            group_count >= 1,
        ensures
            g == spec_assigned_group(
                core as int,
                self.session_start_block as int,
                self.rotation_frequency as int,
                self.now as int,
                group_count as int,
            ),
            g < group_count,
    {
        let rotations: u32 = (self.now - self.session_start_block) / self.rotation_frequency;
        let idx: u128 = ((core as u128) + (rotations as u128)) % (group_count as u128);
        idx as usize
    }

    /// A rotation boundary occurs exactly when
    /// `(now - session_start) mod rotation_frequency == 0`.
    pub fn is_rotation_boundary(&self) -> (b: bool)
        requires
            self.wf(),
        ensures
            b == ((self.now - self.session_start_block) as int % self.rotation_frequency as int
                == 0),
    {
        (self.now - self.session_start_block) % self.rotation_frequency == 0
    }
}

/// The assignment rule is periodic with period
/// `rotation_frequency * group_count`: advancing `now` by exactly that many
/// blocks assigns every core to the same group again.
pub proof fn lemma_assigned_group_periodic(
    core: int,
    session_start: int,
    frequency: int,
    now: int,
    group_count: int,
)
    requires
        frequency >= 1,
        group_count >= 1,
        now >= session_start,
        core >= 0,
    ensures
        spec_assigned_group(
            core,
            session_start,
            frequency,
            now + frequency * group_count,
            group_count,
        ) == spec_assigned_group(core, session_start, frequency, now, group_count),
{
    let d = now - session_start;
    lemma_mul_is_commutative(frequency, group_count);
    lemma_hoist_over_denominator(d, group_count, frequency as nat);
    assert((d + frequency * group_count) / frequency == d / frequency + group_count);
    lemma_mul_is_commutative(group_count, 1);
    lemma_mod_multiples_vanish(1, core + d / frequency, group_count);
    assert((group_count * 1 + (core + d / frequency)) % group_count == (core + d / frequency)
        % group_count);
    assert(core + (d + frequency * group_count) / frequency == group_count * 1 + (core + d
        / frequency));
}

/// Group starts are consecutive: each group begins where the previous ends.
pub proof fn lemma_group_step(n: int, group_count: int, g: int)
    requires
        group_count >= 1,
        n >= 0,
        0 <= g < group_count,
    ensures
        spec_group_start(n, group_count, g) + spec_group_size(n, group_count, g)
            == spec_group_start(n, group_count, g + 1),
{
    lemma_mul_is_distributive_add_other_way(n / group_count, g, 1);
}

/// The groups exactly cover the committee: the start just past the last group
/// is the committee size, and every start lies within it.
pub proof fn lemma_group_start_le(n: int, group_count: int, g: int)
    requires
        group_count >= 1,
        n >= 0,
        0 <= g <= group_count,
    ensures
        spec_group_start(n, group_count, g) <= n,
        g == group_count ==> spec_group_start(n, group_count, g) == n,
        spec_group_start(n, group_count, g) >= 0,
        spec_group_size(n, group_count, g) >= 0,
    decreases group_count - g,
{
    vstd::arithmetic::div_mod::lemma_div_pos_is_pos(n, group_count);
    vstd::arithmetic::mul::lemma_mul_nonnegative(g, n / group_count);
    if g == group_count {
        lemma_fundamental_div_mod(n, group_count);
        lemma_mul_is_commutative(group_count, n / group_count);
        vstd::arithmetic::div_mod::lemma_mod_bound(n, group_count);
    } else {
        lemma_group_step(n, group_count, g);
        lemma_group_start_le(n, group_count, g + 1);
    }
}

/// Partition validator indices `0 .. n_validators` into `group_count` groups:
/// group `g` holds the contiguous indices starting at `spec_group_start`,
/// `spec_group_size` many, so every validator stands in exactly one group.
pub fn make_validator_groups(n_validators: usize, group_count: usize) -> (groups: Vec<
    Vec<ValidatorIndex>,
>)
    requires
        group_count >= 1,
    ensures
        groups@.len() == group_count,
        forall|g: int|
            0 <= g < group_count ==> (#[trigger] groups@[g])@.len() == spec_group_size(
                n_validators as int,
                group_count as int,
                g,
            ),
        forall|g: int, j: int|
            0 <= g < group_count && 0 <= j < groups@[g]@.len() ==> (#[trigger] groups@[g]@[j])
                == ValidatorIndex(
                (spec_group_start(n_validators as int, group_count as int, g) + j) as usize,
            ),
{
    let base: usize = n_validators / group_count;
    let rem: usize = n_validators % group_count;
    let mut groups: Vec<Vec<ValidatorIndex>> = Vec::new();
    let mut start: usize = 0;
    let mut g: usize = 0;
    while g < group_count
        invariant
            group_count >= 1,
            g <= group_count,
            base == n_validators as int / group_count as int,
            rem == n_validators as int % group_count as int,
            start == spec_group_start(n_validators as int, group_count as int, g as int),
            start <= n_validators,
            groups@.len() == g,
            forall|k: int|
                0 <= k < g ==> (#[trigger] groups@[k])@.len() == spec_group_size(
                    n_validators as int,
                    group_count as int,
                    k,
                ),
            forall|k: int, j: int|
                0 <= k < g && 0 <= j < groups@[k]@.len() ==> (#[trigger] groups@[k]@[j])
                    == ValidatorIndex(
                    (spec_group_start(n_validators as int, group_count as int, k) + j) as usize,
                ),
        decreases group_count - g,
    {
        proof {
            lemma_group_step(n_validators as int, group_count as int, g as int);
            lemma_group_start_le(n_validators as int, group_count as int, g as int + 1);
        }
        let size: usize = if g < rem {
            base + 1
        } else {
            base
        };
        let mut members: Vec<ValidatorIndex> = Vec::new();
        let mut j: usize = 0;
        while j < size
            invariant
                j <= size,
                start + size <= n_validators,
                members@.len() == j,
                forall|i: int|
                    0 <= i < j ==> (#[trigger] members@[i]) == ValidatorIndex((start + i) as usize),
            decreases size - j,
        {
            members.push(ValidatorIndex(start + j));
            j = j + 1;
        }
        groups.push(members);
        start = start + size;
        g = g + 1;
    }
    groups
}

} // verus!

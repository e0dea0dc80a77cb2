//! A deterministic fingerprint of persisted validation data. The assembler
//! matches a caller's expected hash against it; it is a pure function of the
//! data's fields, so authors and the host compute identical values.

use vstd::prelude::*;
use vstd::wrapping::u64_specs;

use crate::types::{PersistedValidationData, RelayHash};

verus! {

/// Multiplier of the fold step.
pub const FINGERPRINT_PRIME: u64 = 0x100000001b3;

/// Starting accumulator of the fold.
pub const FINGERPRINT_SEED: u64 = 0xcbf29ce484222325;

/// One fold step: multiply the accumulator by the prime and add the next
/// word, both wrapping.
pub open spec fn spec_mix(acc: u64, word: u64) -> u64 {
    u64_specs::wrapping_add(u64_specs::wrapping_mul(acc, FINGERPRINT_PRIME), word)
}

/// Left-to-right fold of a byte sequence into the accumulator.
pub open spec fn spec_fold_bytes(acc: u64, bytes: Seq<u8>) -> u64
    decreases bytes.len(),
{
    if bytes.len() == 0 {
        acc
    } else {
        spec_mix(spec_fold_bytes(acc, bytes.drop_last()), bytes.last() as u64)
    }
}

/// The fingerprint of persisted validation data: fold the parent head, then
/// mix in the relay-parent number, the storage root and the PoV bound.
pub open spec fn spec_pvd_fingerprint(
    parent_head: Seq<u8>,
    relay_parent_number: u32,
    relay_parent_storage_root: u64,
    max_pov_size: u32,
) -> u64 {
    spec_mix(
        spec_mix(
            spec_mix(spec_fold_bytes(FINGERPRINT_SEED, parent_head), relay_parent_number as u64),
            relay_parent_storage_root,
        ),
        max_pov_size as u64,
    )
}

/// Fold a byte slice into the accumulator, left to right.
fn fold_bytes(acc: u64, bytes: &Vec<u8>) -> (h: u64)
    ensures
        h == spec_fold_bytes(acc, bytes@),
{
    let mut h: u64 = acc;
    let mut i: usize = 0;
    while i < bytes.len()
        invariant
            i <= bytes@.len(),
            h == spec_fold_bytes(acc, bytes@.take(i as int)),
        decreases bytes@.len() - i,
    {
        proof {
            assert(bytes@.take(i as int + 1).drop_last() =~= bytes@.take(i as int));
            assert(bytes@.take(i as int + 1).last() == bytes@[i as int]);
        }
        h = h.wrapping_mul(FINGERPRINT_PRIME).wrapping_add(bytes[i] as u64);
        i = i + 1;
    }
    proof {
        assert(bytes@.take(bytes@.len() as int) =~= bytes@);
    }
    h
}

/// Compute the fingerprint of persisted validation data.
pub fn pvd_fingerprint(pvd: &PersistedValidationData) -> (h: RelayHash)
    ensures
        h.0 == spec_pvd_fingerprint(
            pvd.parent_head@,
            pvd.relay_parent_number,
            pvd.relay_parent_storage_root.0,
            pvd.max_pov_size,
        ),
{
    let folded = fold_bytes(FINGERPRINT_SEED, &pvd.parent_head.0);
    let h = folded
        .wrapping_mul(FINGERPRINT_PRIME)
        .wrapping_add(pvd.relay_parent_number as u64)
        .wrapping_mul(FINGERPRINT_PRIME)
        .wrapping_add(pvd.relay_parent_storage_root.0)
        .wrapping_mul(FINGERPRINT_PRIME)
        .wrapping_add(pvd.max_pov_size as u64);
    RelayHash(h)
}

} // verus!

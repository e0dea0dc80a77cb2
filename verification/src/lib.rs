//! A verified model of a relay chain's parachain-host surface: the block-scoped
//! query and admission interface between the sealed ledger state and the
//! off-chain subsystems that validate parachain candidates and attest to the
//! availability of their data.
//!
//! The library covers validator-group rotation, the availability-core occupancy
//! state machine, the content-addressed validation-code registry with its
//! pre-check quorum workflow, the validation-data assembler, the per-block
//! candidate event log, the message-queue exposer, the dispute-evidence
//! scraper, and a versioned query facade over all of them.

pub mod cores;
pub mod fingerprint;
pub mod host;
pub mod messages;
pub mod registry;
pub mod rotation;
pub mod types;

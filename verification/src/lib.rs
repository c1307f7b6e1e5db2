//! A small election workflow.
//!
//! An initiator opens an election with a ceiling on the number of candidates,
//! candidates register themselves while the registration window is open,
//! voters cast one vote each for a registered candidate while the voting
//! window is open, and the initiator advances the election through its
//! phases.
//!
//! The crate is split in three parts. [`types`] holds the stored records and
//! the error taxonomy. [`commands`] holds the four commands as pure
//! functions: each takes the caller's identity and the state it acts on, and
//! returns either the created or updated record or a typed failure, with no
//! other effect. [`ledger`] models the durable keyed store that the hosting
//! environment provides: records live under derived keys, creation is
//! compare-and-create, and the uniqueness of those keys is the sole source of
//! the one-record-per-key guarantees for candidates and vote records.

pub mod commands;
pub mod ledger;
pub mod types;

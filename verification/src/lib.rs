//! Core state model for a multi-party signature (multisig) governance
//! mechanism: a group of members collectively authorizes deferred actions by
//! voting, with execution gated on a configurable approval threshold.
//!
//! The crate holds the three entity types and their state transitions:
//! - [`multisig::Ms`]: the membership ledger (sorted member keys, threshold,
//!   monotonic counters, and the change index that invalidates stale
//!   proposals),
//! - [`transaction::MsTransaction`]: a proposed transaction with its vote
//!   ledgers and lifecycle status,
//! - [`instruction::MsInstruction`]: one opaque deferred call attached to a
//!   transaction.
//!
//! [`codec`] gives each record a deterministic byte layout with proved
//! round-trip and exact size accounting, so a storage layer never
//! under-allocates.

pub mod codec;
pub mod error;
pub mod instruction;
pub mod key;
pub mod multisig;
pub mod transaction;



//! An escrow ledger for wagers and the staged proof-verification pipeline
//! that gates their settlement.
//!
//! The ledger tracks games, the stakes locked for their participants and the
//! vault that holds them. A settlement attempt is opened, filled and
//! concluded over separate calls; only an accepted proof whose nullifiers
//! have never been spent settles a game.
//!
//! - [`bytes32`], [`error`]: the 32-byte values and the errors used
//!   throughout.
//! - [`escrow`]: the escrow records and the instructions on them.
//! - [`ledger`], [`ledger_rules`]: all records as one consistent ledger,
//!   and what holds of it over any history of operations.
//! - [`staged`], [`layout`]: the record of one settlement attempt and its
//!   persisted form.
//! - [`nullifiers`], [`settlement`]: the spent set and the phase that
//!   settles.
//! - [`identity`], [`addressing`]: the program's domain tag and the
//!   addresses of its records.
//! - [`pipeline`], [`system_rules`]: all attempts in progress, and what
//!   holds of pipeline and ledger together over any history.
//! - [`keyed`]: sequences of records found by key, and sums over them.

pub mod addressing;
pub mod bytes32;
pub mod error;
pub mod escrow;
pub mod identity;
pub mod keyed;
pub mod layout;
pub mod ledger;
pub mod ledger_rules;
pub mod nullifiers;
pub mod pipeline;
pub mod settlement;
pub mod staged;
pub mod system_rules;

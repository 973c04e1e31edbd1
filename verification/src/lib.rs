//! Deterministic escrow and reward-accounting state machines.
//!
//! Three lockup variants (fungible funds, NFT custody, NFT custody with
//! synthetic-token minting) accept deposits, enforce a time-based unlock,
//! and expose indexed lookup of locked positions. A stake engine prorates
//! a fixed reward pool over a fixed time window across the participants of
//! whichever lockup variant it is paired with.
//!
//! The host environment (message transport, storage commits, address
//! validation, bank and token settlement) hands every operation plain,
//! already-validated values and the current block time in seconds; the
//! engines here compute the state transition and the instructions to emit.

pub mod coins;
pub mod cw721_lockup;
pub mod error;
pub mod fixed_stake;
pub mod frac_lockup;
pub mod instructions;
pub mod kv;
pub mod laws;
pub mod ledger;
pub mod native_lockup;
pub mod order;
pub mod rewards;
pub mod strings;

pub use error::{ArithmeticKind, AuthKind, ContractError, StateKind, ValidationKind};

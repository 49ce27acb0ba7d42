//! Token-weighted governance: polls are created with a deposit, voted on with
//! staked weight, tallied against quorum and threshold ratios once the voting
//! window closes, and — after a timelock — their attached actions are emitted
//! in a deterministic order.

pub mod gov;
pub mod laws;
pub mod model;
pub mod ratio;
pub mod seqs;
pub mod sorting;
pub mod types;

pub use ratio::Decimal;

//! A time-locked token custody and release engine.
//!
//! A company deposits tokens into a program-controlled treasury and defines
//! per-employee vesting grants that unlock linearly between a start time and
//! an end time, with nothing claimable before an optional cliff. Beneficiaries
//! later claim their unlocked balance; the engine guarantees that no more than
//! the vested amount is ever released, that only the rightful beneficiary can
//! trigger a release, and that claims are safe to retry without double-paying.

pub mod accounts;
pub mod address;
pub mod engine;
pub mod error;
pub mod schedule;

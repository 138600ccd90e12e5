//! The persistent records of the engine: a company's vesting pool and an
//! employee's vesting grant.

use crate::address::Address;
use vstd::prelude::*;

verus! {

/// Longest company name, in bytes, a pool will record.
pub const MAX_COMPANY_NAME_LEN: usize = 50;

/// A company's vesting pool: binds a treasury custody account to a company
/// name and a token kind. Exactly one pool exists per company name.
pub struct VestingAccount {
    /// Identity permitted to create grants against this pool.
    pub owner: Address,
    /// Identifier of the fungible asset held in custody; fixed at creation.
    pub mint: Address,
    /// Address of the custody account holding deposited tokens; derived,
    /// not chosen, and owned by this pool alone.
    pub treasury_token_account: Address,
    /// Human-readable key of the pool, at most `MAX_COMPANY_NAME_LEN` bytes;
    /// unique system-wide through the derived pool address.
    pub company_name: Vec<u8>,
    /// Disambiguation bump persisted from the treasury address derivation.
    pub treasury_bump: u8,
    /// Disambiguation bump persisted from the pool address derivation.
    pub bump: u8,
}

/// An employee's vesting grant: a linear schedule against one pool and one
/// beneficiary, with the cumulative withdrawal state.
#[derive(Clone, Copy)]
pub struct EmployeeAccount {
    /// Identity permitted to claim.
    pub beneficiary: Address,
    /// When the schedule starts unlocking.
    pub start_time: i64,
    /// When the whole grant is unlocked.
    pub end_time: i64,
    /// Before this time nothing is claimable, however much has elapsed.
    pub cliff_time: i64,
    /// Address of the owning pool; immutable once set.
    pub vesting_account: Address,
    /// Total quantity granted, fixed at creation.
    pub total_amount: u64,
    /// Cumulative quantity already paid out; starts at zero, never
    /// decreases, never exceeds `total_amount`.
    pub total_withdrawn: u64,
    /// Disambiguation bump persisted from the grant address derivation.
    pub bump: u8,
}

} // verus!

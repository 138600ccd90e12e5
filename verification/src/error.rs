//! The errors an operation of the engine can be rejected with. Every error
//! aborts the whole operation: no record is left partially written.

use vstd::prelude::*;

verus! {

/// Why an operation of the engine was rejected.
#[derive(Clone, Copy, Debug, PartialEq, Eq, Structural)]
pub enum VestingError {
    /// The caller is not the identity the operation is reserved to.
    Unauthorized,
    /// The supplied record address is not the address derived for the record.
    AddressMismatch,
    /// A cross-record ownership check failed: the records handed to the
    /// operation do not belong together.
    AccountMismatch,
    /// The schedule violates `start_time <= cliff_time <= end_time` with
    /// `start_time < end_time`.
    InvalidSchedule,
    /// The token descriptor is malformed.
    InvalidTokenKind,
    /// A pool already occupies the address derived for this company name.
    DuplicateCompany,
    /// A grant already occupies the address derived for this pool and
    /// beneficiary.
    DuplicateGrant,
    /// The treasury cannot cover the payout; safe to retry after a deposit.
    InsufficientTreasuryBalance,
    /// No valid address could be derived for the given inputs.
    AddressSpaceExhausted,
    /// The computed payout would push the withdrawn total past the grant
    /// total: a bug upstream, never recovered automatically.
    InternalInvariantViolation,
}

} // verus!

use vstd::prelude::*;

verus! {

/// Why an operation on the ledger was rejected.
#[derive(Clone, Copy, PartialEq, Eq, Structural, Debug)]
pub enum MangoError {
    /// A fixed-point or integer operation overflowed, underflowed or divided by zero.
    Arithmetic,
    /// Native borrows of an asset exceed its native deposits.
    InvariantViolated,
    /// A required signature is missing.
    MissingSignature,
    /// The signer is not the recorded owner or administrator.
    WrongOwner,
    /// A supplied record is not the one the ledger has bound in that place.
    ReferenceMismatch,
    /// A record has the wrong size, kind or initialization state.
    InvalidRecord,
    /// A token or market index is not one of the group's.
    InvalidIndex,
    /// A withdrawal exceeds the account's native deposit of that asset.
    InsufficientFunds,
    /// The account's collateral ratio would be below the initial ratio.
    InsufficientCollateral,
    /// The account's native borrow would exceed the asset's borrow limit.
    BorrowLimitExceeded,
    /// The account is below the initial ratio and the trade would add debt.
    ReduceOnly,
    /// The account is at or above the maintenance ratio.
    NotLiquidatable,
    /// Balances of the account are still locked in orders on the venue.
    OrdersResting,
}

pub type MangoResult<T> = Result<T, MangoError>;

/// The value of a computation that fails only by arithmetic.
pub open spec fn or_arithmetic<T>(value: Option<T>) -> Result<T, MangoError> {
    match value {
        Some(v) => Ok(v),
        None => Err(MangoError::Arithmetic),
    }
}

} // verus!

use vstd::prelude::*;

verus! {

/// Why an operation on a pool was refused.
///
/// Every refusal is terminal for the operation that met it: the pool it was
/// asked of is left exactly as it was.
#[derive(Clone, Copy, Debug, PartialEq, Eq, Structural, PartialOrd, Ord, Hash)]
pub enum LPError {
    /// `initialize` was asked of a pool that already holds state.
    AlreadyInitialized,
    /// The two asset identities were not handed over in canonical order.
    InvalidOrdering,
    /// The caller did not carry the consent of the principal it acts for.
    NotAuthorized,
    /// The pool has not been initialized yet.
    NotInitialized,
    /// A computed transfer amount is not strictly positive.
    ZeroAmount,
    /// A computed amount lies beyond the bound the caller supplied.
    SlippageExceeded,
    /// The requested output is not smaller than the reserve it is bought from.
    InsufficientReserve,
    /// The fee-adjusted constant-product check failed after the trade.
    InvariantViolated,
    /// A reserve would not be strictly positive after the trade.
    ReserveDepleted,
    /// A checked 128-bit operation has no result: an overflow, a division by
    /// zero, or the root of a negative number.
    ArithmeticError,
    /// A lending amount was zero or negative.
    AmountMustBePositive,
    /// The address is neither the administrator nor a registered lender.
    AddressNotRegistered,
    /// The requested amount exceeds what the account or the pool holds.
    BalanceNotAvailableForAmountRequested,
    /// The borrower is registered already.
    BorrowerAlreadyRegistered,
    /// The borrower is not registered.
    BorrowerNotRegistered,
    /// The lending pool as a whole holds less than the requested amount.
    InsufficientBalance,
    /// The borrower already has an active loan.
    LoanNotFoundOrExists,
    /// The lender is registered already.
    LenderAlreadyRegistered,
    /// The lender is not registered.
    LenderNotRegistered,
}

} // verus!

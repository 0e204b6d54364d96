use vstd::prelude::*;

verus! {

/// Why the contract refused a request.
///
/// Each variant stands for one rejection of the contract and carries the
/// numbers its message reports.
#[derive(Clone, Copy, Debug, PartialEq, Eq, Structural)]
pub enum TokenError {
    /// The contract has no admin yet.
    NotInitialized,
    /// `initialize` ran already; the admin is never replaced.
    AlreadyInitialized,
    /// The caller is not the stored admin.
    Unauthorized,
    /// An amount that must be strictly positive was not.
    InvalidAmount { amount: i128 },
    /// A debit asked for more than the account holds.
    InsufficientBalance { available: i128, required: i128 },
    /// A credit would take a balance past the `i128` range.
    BalanceOverflow { amount: i128 },
    /// Minting would take the total supply past the `i128` range.
    SupplyOverflow { amount: i128 },
    /// Minting would take the total supply past the configured cap.
    SupplyCapExceeded { new_supply: i128, cap: i128 },
    /// Burning would take the total supply past the `i128` range.
    SupplyUnderflow { amount: i128 },
    /// The contract is paused.
    Paused,
    /// The account is frozen.
    Frozen,
}

} // verus!

use vstd::prelude::*;
use crate::error::TokenError;

verus! {

/// Accepts `amount` only when it is strictly positive.
///
/// Amount validation is repeated across every path that moves tokens; routing
/// them all through this one check keeps the rejection identical, which is
/// what clients match on when they classify a failed transaction. Zero is
/// rejected as well: every caller either credits or debits a ledger, and a zero
/// movement would change nothing.
pub fn require_positive_amount(amount: i128) -> (r: Result<(), TokenError>)
    ensures
        r == (if amount > 0 {
            Ok(())
        } else {
            Err(TokenError::InvalidAmount { amount })
        }),
{
    if amount > 0 {
        Ok(())
    } else {
        Err(TokenError::InvalidAmount { amount })
    }
}

} // verus!

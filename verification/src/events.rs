use vstd::prelude::*;
use crate::storage_types::Address;

verus! {

/// New tokens were credited to `to`.
///
/// Published with the topics `["mint", to]` and the data `[amount]`, the shape
/// indexers subscribe to for a supply increase.
pub struct Mint {
    pub to: Address,
    pub amount: i128,
}

} // verus!

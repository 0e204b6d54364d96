//! The admin: who may run the privileged entry points.
use vstd::prelude::*;
use crate::error::TokenError;
use crate::ledger::{address_at, ledger_ok, u32_or, Ledger};
use crate::storage_types::{Address, DataKey, KeyView, ValView};

verus! {

/// An admin has been stored.
pub open spec fn spec_is_initialized(m: Map<KeyView, ValView>) -> bool {
    m.contains_key(KeyView::Admin)
}

/// The stored admin, if any.
pub open spec fn spec_admin(m: Map<KeyView, ValView>) -> Option<Seq<char>> {
    address_at(m, KeyView::Admin)
}

/// The ledger the contract was initialized on, 0 when it never was.
pub open spec fn spec_initialized_at_ledger(m: Map<KeyView, ValView>) -> u32 {
    u32_or(m, KeyView::InitializedAtLedger, 0)
}

/// Why `caller` is refused admin authority on `m`, if it is.
pub open spec fn admin_refusal(m: Map<KeyView, ValView>, caller: Seq<char>) -> Option<TokenError> {
    if !spec_is_initialized(m) {
        Some(TokenError::NotInitialized)
    } else if spec_admin(m) != Some(caller) {
        Some(TokenError::Unauthorized)
    } else {
        None
    }
}

/// The contract counts as initialized, with `a` as its admin, exactly while
/// the `Admin` entry holds `a`: writing it makes the contract initialized with
/// that admin, deleting it makes it uninitialized, and no write under any
/// other key (the initialization ledger, metadata, balances, ...) changes either.
pub proof fn lemma_admin_reads(m: Map<KeyView, ValView>, a: Seq<char>, k: KeyView, v: ValView)
    ensures
        spec_is_initialized(m.insert(KeyView::Admin, ValView::Address(a))),
        spec_admin(m.insert(KeyView::Admin, ValView::Address(a))) == Some(a),
        !spec_is_initialized(m.remove(KeyView::Admin)),
        spec_admin(m.remove(KeyView::Admin)) is None,
        !spec_is_initialized(Map::<KeyView, ValView>::empty()),
        k != KeyView::Admin ==> spec_is_initialized(m.insert(k, v)) == spec_is_initialized(m),
        k != KeyView::Admin ==> spec_is_initialized(m.remove(k)) == spec_is_initialized(m),
        k != KeyView::Admin ==> spec_admin(m.insert(k, v)) == spec_admin(m),
        k != KeyView::Admin ==> spec_admin(m.remove(k)) == spec_admin(m),
{
}

/// The admin check depends on the `Admin` entry alone: with `a` stored there,
/// `a` passes and every other caller is refused as unauthorized; with no
/// entry, every caller is refused as not initialized; and no write under any
/// other key changes the outcome.
pub proof fn lemma_admin_check_outcome(
    m: Map<KeyView, ValView>,
    a: Seq<char>,
    caller: Seq<char>,
    k: KeyView,
    v: ValView,
)
    ensures
        admin_refusal(m.insert(KeyView::Admin, ValView::Address(a)), caller) == (if caller == a {
            None::<TokenError>
        } else {
            Some(TokenError::Unauthorized)
        }),
        admin_refusal(m.remove(KeyView::Admin), caller) == Some(TokenError::NotInitialized),
        k != KeyView::Admin ==> admin_refusal(m.insert(k, v), caller) == admin_refusal(m, caller),
        k != KeyView::Admin ==> admin_refusal(m.remove(k), caller) == admin_refusal(m, caller),
{
}

/// The initialization ledger reads what was last written under
/// `InitializedAtLedger`, 0 once that entry is deleted (or was never written),
/// and no write under another key changes it.
pub proof fn lemma_initialized_at_ledger_reads(
    m: Map<KeyView, ValView>,
    x: u32,
    k: KeyView,
    v: ValView,
)
    ensures
        spec_initialized_at_ledger(m.insert(KeyView::InitializedAtLedger, ValView::U32(x))) == x,
        spec_initialized_at_ledger(m.remove(KeyView::InitializedAtLedger)) == 0,
        spec_initialized_at_ledger(Map::<KeyView, ValView>::empty()) == 0,
        k != KeyView::InitializedAtLedger ==> spec_initialized_at_ledger(m.insert(k, v))
            == spec_initialized_at_ledger(m),
        k != KeyView::InitializedAtLedger ==> spec_initialized_at_ledger(m.remove(k))
            == spec_initialized_at_ledger(m),
{
}

/// True once `initialize` has stored an admin address.
pub fn is_initialized(ledger: &Ledger) -> (r: bool)
    ensures
        r == spec_is_initialized(ledger@),
        ledger_ok(ledger@),
{
    ledger.has(&DataKey::Admin)
}

/// Refuses with `NotInitialized` while the contract is still uninitialized.
pub fn require_initialized(ledger: &Ledger) -> (r: Result<(), TokenError>)
    ensures
        r == (if spec_is_initialized(ledger@) {
            Ok(())
        } else {
            Err(TokenError::NotInitialized)
        }),
        ledger_ok(ledger@),
{
    if !is_initialized(ledger) {
        return Err(TokenError::NotInitialized);
    }
    Ok(())
}

/// The address that currently holds admin authority.
pub fn admin(ledger: &Ledger) -> (r: Result<Address, TokenError>)
    ensures
        match spec_admin(ledger@) {
            Some(a) => r matches Ok(x) && x@ == a,
            None => r == Err::<Address, TokenError>(TokenError::NotInitialized),
        },
        r is Ok <==> spec_is_initialized(ledger@),
        ledger_ok(ledger@),
{
    match ledger.get_address(&DataKey::Admin) {
        Some(a) => Ok(a),
        None => Err(TokenError::NotInitialized),
    }
}

/// True when `caller` is the stored admin.
pub fn is_admin(ledger: &Ledger, caller: &Address) -> (r: bool)
    ensures
        r == (spec_admin(ledger@) == Some(caller@)),
        ledger_ok(ledger@),
{
    match ledger.get_address(&DataKey::Admin) {
        Some(a) => a.same_as(caller),
        None => false,
    }
}

/// Requires that `caller` is the stored admin.
///
/// Admin-gated entry points call this first so an unauthorized address can
/// never reach the state transition behind it; once it succeeds the caller
/// must still authorize the invocation.
pub fn check_admin(ledger: &Ledger, caller: &Address) -> (r: Result<(), TokenError>)
    ensures
        r == (match admin_refusal(ledger@, caller@) {
            Some(e) => Err(e),
            None => Ok(()),
        }),
        ledger_ok(ledger@),
{
    require_initialized(ledger)?;
    if !is_admin(ledger, caller) {
        return Err(TokenError::Unauthorized);
    }
    Ok(())
}

/// Ledger the contract was initialized on, or 0 when it never was.
pub fn initialized_at_ledger(ledger: &Ledger) -> (r: u32)
    ensures
        r == spec_initialized_at_ledger(ledger@),
        ledger_ok(ledger@),
{
    ledger.get_u32_or(&DataKey::InitializedAtLedger, 0)
}

} // verus!

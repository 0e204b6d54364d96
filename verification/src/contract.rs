//! One-shot initialization of the contract state.
use vstd::prelude::*;
use crate::admin::{
    admin_refusal, is_initialized, spec_admin, spec_initialized_at_ledger, spec_is_initialized,
};
use crate::balance::{lemma_balance_total_insert, supply_matches_balances};
use crate::error::TokenError;
use crate::ledger::{ledger_ok, Ledger};
use crate::metadata::{loaded, store, stored, MetadataView, TokenMetadata};
use crate::storage_types::{Address, DataKey, KeyView, Val, ValView};

verus! {

/// The ledger after initialization by `admin` on ledger `sequence` with `meta`.
pub open spec fn initialized(
    m: Map<KeyView, ValView>,
    admin: Seq<char>,
    sequence: u32,
    meta: MetadataView,
) -> Map<KeyView, ValView> {
    stored(
        m.insert(KeyView::Admin, ValView::Address(admin)).insert(
            KeyView::InitializedAtLedger,
            ValView::U32(sequence),
        ),
        meta,
    )
}

/// Stores the admin, the ledger sequence it happened on, and the token
/// metadata, refusing a second call.
///
/// The admin address is the root of trust for every privileged entry point, so
/// initialization is deliberately one-shot: a second call is refused with
/// `AlreadyInitialized` rather than silently replacing the admin. The admin
/// must also authorize the invocation.
pub fn initialize_state(
    ledger: &mut Ledger,
    admin_addr: &Address,
    sequence: u32,
    meta: &TokenMetadata,
) -> (r: Result<(), TokenError>)
    ensures
        ledger_ok(final(ledger)@),
        spec_is_initialized(old(ledger)@) ==> r == Err::<(), TokenError>(
            TokenError::AlreadyInitialized,
        ) && final(ledger)@ == old(ledger)@,
        !spec_is_initialized(old(ledger)@) ==> r is Ok && final(ledger)@ == initialized(
            old(ledger)@,
            admin_addr@,
            sequence,
            meta@,
        ),
        r is Ok ==> spec_admin(final(ledger)@) == Some(admin_addr@),
        r is Ok ==> spec_initialized_at_ledger(final(ledger)@) == sequence,
        r is Ok ==> loaded(final(ledger)@) == meta@,
        supply_matches_balances(old(ledger)@) ==> supply_matches_balances(final(ledger)@),
{
    if is_initialized(ledger) {
        return Err(TokenError::AlreadyInitialized);
    }
    proof {
        ledger.lemma_view_finite();
    }
    ledger.set(DataKey::Admin, Val::Address(admin_addr.duplicate()));
    proof {
        lemma_balance_total_insert(old(ledger)@, KeyView::Admin, ValView::Address(admin_addr@));
    }
    let ghost after_admin = ledger@;
    ledger.set(DataKey::InitializedAtLedger, Val::U32(sequence));
    proof {
        lemma_balance_total_insert(after_admin, KeyView::InitializedAtLedger, ValView::U32(sequence));
    }
    store(ledger, meta);
    Ok(())
}

/// Once initialized, the admin it named passes the admin check and every
/// other caller is refused as unauthorized.
pub proof fn lemma_initialized_admin_is_sole_admin(
    m: Map<KeyView, ValView>,
    admin: Seq<char>,
    sequence: u32,
    meta: MetadataView,
    caller: Seq<char>,
)
    ensures
        admin_refusal(initialized(m, admin, sequence, meta), caller) == (if caller == admin {
            None::<TokenError>
        } else {
            Some(TokenError::Unauthorized)
        }),
{
}

} // verus!

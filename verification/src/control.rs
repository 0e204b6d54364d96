//! Compliance controls: the contract-wide pause and per-account freezes.
use vstd::prelude::*;
use crate::balance::{balance_total, lemma_balance_total_insert, lemma_balance_total_remove, spec_balance, spec_total_supply};
use crate::error::TokenError;
use crate::ledger::{bool_or, ledger_ok, Ledger};
use crate::storage_types::{Address, DataKey, KeyView, Val, ValView};

verus! {

/// Whether the whole contract is paused; no entry means it is not.
pub open spec fn spec_is_paused(m: Map<KeyView, ValView>) -> bool {
    bool_or(m, KeyView::Paused, false)
}

/// Whether `account` is frozen; no entry means it is not.
pub open spec fn spec_is_frozen(m: Map<KeyView, ValView>, account: Seq<char>) -> bool {
    bool_or(m, KeyView::Frozen(account), false)
}

/// The ledgers of balances and supply read the same in `a` and `b`.
pub open spec fn same_holdings(a: Map<KeyView, ValView>, b: Map<KeyView, ValView>) -> bool {
    &&& forall|acct: Seq<char>| #[trigger] spec_balance(a, acct) == spec_balance(b, acct)
    &&& spec_total_supply(a) == spec_total_supply(b)
    &&& balance_total(a) == balance_total(b)
}

/// The pause reads what was last written under `Paused`, `false` once that
/// entry is deleted (or was never written), and no write under another key
/// changes it; an account's freeze likewise follows its own `Frozen` entry
/// alone.
pub proof fn lemma_control_reads(
    m: Map<KeyView, ValView>,
    account: Seq<char>,
    b: bool,
    k: KeyView,
    v: ValView,
)
    ensures
        spec_is_paused(m.insert(KeyView::Paused, ValView::Bool(b))) == b,
        !spec_is_paused(m.remove(KeyView::Paused)),
        !spec_is_paused(Map::<KeyView, ValView>::empty()),
        k != KeyView::Paused ==> spec_is_paused(m.insert(k, v)) == spec_is_paused(m),
        k != KeyView::Paused ==> spec_is_paused(m.remove(k)) == spec_is_paused(m),
        spec_is_frozen(m.insert(KeyView::Frozen(account), ValView::Bool(b)), account) == b,
        !spec_is_frozen(m.remove(KeyView::Frozen(account)), account),
        !spec_is_frozen(Map::<KeyView, ValView>::empty(), account),
        k != KeyView::Frozen(account) ==> spec_is_frozen(m.insert(k, v), account) == spec_is_frozen(
            m,
            account,
        ),
        k != KeyView::Frozen(account) ==> spec_is_frozen(m.remove(k), account) == spec_is_frozen(
            m,
            account,
        ),
{
}

/// Whether the whole contract is currently paused.
pub fn is_paused(ledger: &Ledger) -> (r: bool)
    ensures
        r == spec_is_paused(ledger@),
        ledger_ok(ledger@),
{
    ledger.get_bool_or(&DataKey::Paused, false)
}

/// Refuses with `Paused` while the contract is paused.
///
/// Pausing is the blunt compliance control, so it blocks every path that
/// moves tokens rather than any single entry point.
pub fn require_not_paused(ledger: &Ledger) -> (r: Result<(), TokenError>)
    ensures
        r == (if spec_is_paused(ledger@) {
            Err(TokenError::Paused)
        } else {
            Ok(())
        }),
        ledger_ok(ledger@),
{
    if is_paused(ledger) {
        return Err(TokenError::Paused);
    }
    Ok(())
}

/// Pauses or resumes the contract; resuming deletes the entry.
pub fn set_paused(ledger: &mut Ledger, paused: bool)
    ensures
        final(ledger)@ == (if paused {
            old(ledger)@.insert(KeyView::Paused, ValView::Bool(true))
        } else {
            old(ledger)@.remove(KeyView::Paused)
        }),
        spec_is_paused(final(ledger)@) == paused,
        same_holdings(old(ledger)@, final(ledger)@),
        ledger_ok(final(ledger)@),
{
    proof {
        ledger.lemma_view_finite();
    }
    if paused {
        ledger.set(DataKey::Paused, Val::Bool(true));
        proof {
            lemma_balance_total_insert(old(ledger)@, KeyView::Paused, ValView::Bool(true));
        }
    } else {
        ledger.remove(&DataKey::Paused);
        proof {
            lemma_balance_total_remove(old(ledger)@, KeyView::Paused);
        }
    }
}

/// Whether `account` is frozen and cannot move tokens.
pub fn is_frozen(ledger: &Ledger, account: &Address) -> (r: bool)
    ensures
        r == spec_is_frozen(ledger@, account@),
        ledger_ok(ledger@),
{
    ledger.get_bool_or(&DataKey::Frozen(account.duplicate()), false)
}

/// Refuses with `Frozen` when `account` is frozen.
pub fn require_not_frozen(ledger: &Ledger, account: &Address) -> (r: Result<(), TokenError>)
    ensures
        r == (if spec_is_frozen(ledger@, account@) {
            Err(TokenError::Frozen)
        } else {
            Ok(())
        }),
        ledger_ok(ledger@),
{
    if is_frozen(ledger, account) {
        return Err(TokenError::Frozen);
    }
    Ok(())
}

/// Freezes or thaws `account`; thawing deletes the entry.
///
/// A frozen account keeps its balance: freezing blocks movement, it is not a
/// clawback, so the tokens stay in total supply and stay visible to the owner.
pub fn set_frozen(ledger: &mut Ledger, account: &Address, frozen: bool)
    ensures
        final(ledger)@ == (if frozen {
            old(ledger)@.insert(KeyView::Frozen(account@), ValView::Bool(true))
        } else {
            old(ledger)@.remove(KeyView::Frozen(account@))
        }),
        spec_is_frozen(final(ledger)@, account@) == frozen,
        same_holdings(old(ledger)@, final(ledger)@),
        ledger_ok(final(ledger)@),
{
    proof {
        ledger.lemma_view_finite();
    }
    if frozen {
        ledger.set(DataKey::Frozen(account.duplicate()), Val::Bool(true));
        proof {
            lemma_balance_total_insert(old(ledger)@, KeyView::Frozen(account@), ValView::Bool(true));
        }
    } else {
        ledger.remove(&DataKey::Frozen(account.duplicate()));
        proof {
            lemma_balance_total_remove(old(ledger)@, KeyView::Frozen(account@));
        }
    }
}

} // verus!

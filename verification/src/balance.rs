//! Balances and total supply.
use vstd::prelude::*;
use crate::error::TokenError;
use crate::events::Mint;
use crate::ledger::{i128_or, ledger_ok, Ledger};
use crate::storage_types::{Address, DataKey, KeyView, Val, ValView};
use crate::validation::require_positive_amount;

verus! {

/// Whether `x` fits in an `i128`.
pub open spec fn in_i128(x: int) -> bool {
    i128::MIN <= x <= i128::MAX
}

/// Tokens in circulation; an absent entry means nothing was minted.
pub open spec fn spec_total_supply(m: Map<KeyView, ValView>) -> i128 {
    i128_or(m, KeyView::TotalSupply, 0)
}

/// The supply cap; 0 (or no entry) means supply is uncapped.
pub open spec fn spec_max_supply(m: Map<KeyView, ValView>) -> i128 {
    i128_or(m, KeyView::MaxSupply, 0)
}

/// Tokens held by `account`; an absent entry means a zero balance.
pub open spec fn spec_balance(m: Map<KeyView, ValView>, account: Seq<char>) -> i128 {
    i128_or(m, KeyView::BalanceOf(account), 0)
}

/// The ledger after `amount` is credited to `account`.
pub open spec fn credited(m: Map<KeyView, ValView>, account: Seq<char>, amount: i128) -> Map<
    KeyView,
    ValView,
> {
    m.insert(
        KeyView::BalanceOf(account),
        ValView::I128((spec_balance(m, account) + amount) as i128),
    )
}

/// The ledger after `amount` is debited from `account`: an account left at
/// zero holds no entry at all.
pub open spec fn debited(m: Map<KeyView, ValView>, account: Seq<char>, amount: i128) -> Map<
    KeyView,
    ValView,
> {
    let rest = spec_balance(m, account) - amount;
    if rest == 0 {
        m.remove(KeyView::BalanceOf(account))
    } else {
        m.insert(KeyView::BalanceOf(account), ValView::I128(rest as i128))
    }
}

/// The ledger with its total supply set to `supply`.
pub open spec fn with_supply(m: Map<KeyView, ValView>, supply: i128) -> Map<KeyView, ValView> {
    m.insert(KeyView::TotalSupply, ValView::I128(supply))
}

/// Why `increase_supply(amount)` is refused on `m`, if it is.
pub open spec fn increase_refusal(m: Map<KeyView, ValView>, amount: i128) -> Option<TokenError> {
    let new_supply = spec_total_supply(m) + amount;
    let cap = spec_max_supply(m);
    if !in_i128(new_supply) {
        Some(TokenError::SupplyOverflow { amount })
    } else if cap > 0 && new_supply > cap {
        Some(TokenError::SupplyCapExceeded { new_supply: new_supply as i128, cap })
    } else {
        None
    }
}

/// Why `mint(to, amount)` is refused on `m`, if it is, checked in the order
/// the contract checks: the amount, then the supply, then the balance.
pub open spec fn mint_refusal(m: Map<KeyView, ValView>, to: Seq<char>, amount: i128) -> Option<
    TokenError,
> {
    if amount <= 0 {
        Some(TokenError::InvalidAmount { amount })
    } else if increase_refusal(m, amount) is Some {
        increase_refusal(m, amount)
    } else if !in_i128(spec_balance(m, to) + amount) {
        Some(TokenError::BalanceOverflow { amount })
    } else {
        None
    }
}

/// What an entry adds to the sum of all balances.
pub open spec fn entry_amount(k: KeyView, v: ValView) -> int {
    match k {
        KeyView::BalanceOf(_) => match v {
            ValView::I128(x) => x as int,
            _ => 0,
        },
        _ => 0,
    }
}

/// What the entry under `k` adds to the sum of all balances (0 when absent).
pub open spec fn held_amount(m: Map<KeyView, ValView>, k: KeyView) -> int {
    if m.contains_key(k) {
        entry_amount(k, m[k])
    } else {
        0
    }
}

/// The sum of the balances of all accounts.
pub closed spec fn balance_total(m: Map<KeyView, ValView>) -> int
    decreases m.dom().len(),
    when m.dom().finite()
{
    if m.dom().len() == 0 {
        0
    } else {
        let k = m.dom().choose();
        entry_amount(k, m[k]) + balance_total(m.remove(k))
    }
}

/// The two ledgers agree: the total supply is the sum of all balances.
pub open spec fn supply_matches_balances(m: Map<KeyView, ValView>) -> bool {
    spec_total_supply(m) == balance_total(m)
}

/// A fresh ledger holds no balance and no supply, so its two ledgers agree.
pub proof fn lemma_balance_total_empty()
    ensures
        balance_total(Map::<KeyView, ValView>::empty()) == 0,
        supply_matches_balances(Map::<KeyView, ValView>::empty()),
{
    assert(Map::<KeyView, ValView>::empty().dom() =~= Set::empty());
}

/// The sum of all balances splits into any one entry and the rest.
pub proof fn lemma_balance_total_split(m: Map<KeyView, ValView>, k: KeyView)
    requires
        m.dom().finite(),
        m.contains_key(k),
    ensures
        balance_total(m) == entry_amount(k, m[k]) + balance_total(m.remove(k)),
    decreases m.dom().len(),
{
    let c = m.dom().choose();
    if c != k {
        assert(m.remove(c).contains_key(k));
        lemma_balance_total_split(m.remove(c), k);
        assert(m.remove(k).contains_key(c));
        lemma_balance_total_split(m.remove(k), c);
        assert(m.remove(c).remove(k) =~= m.remove(k).remove(c));
    }
}

/// Writing one entry moves the sum of all balances by what that entry adds
/// now less what it added before.
pub proof fn lemma_balance_total_insert(m: Map<KeyView, ValView>, k: KeyView, v: ValView)
    requires
        m.dom().finite(),
    ensures
        balance_total(m.insert(k, v)) == balance_total(m) - held_amount(m, k) + entry_amount(k, v),
{
    let m2 = m.insert(k, v);
    lemma_balance_total_split(m2, k);
    if m.contains_key(k) {
        lemma_balance_total_split(m, k);
        assert(m2.remove(k) =~= m.remove(k));
    } else {
        assert(m2.remove(k) =~= m);
    }
}

/// Deleting one entry takes what it added out of the sum of all balances.
pub proof fn lemma_balance_total_remove(m: Map<KeyView, ValView>, k: KeyView)
    requires
        m.dom().finite(),
    ensures
        balance_total(m.remove(k)) == balance_total(m) - held_amount(m, k),
{
    if m.contains_key(k) {
        lemma_balance_total_split(m, k);
    } else {
        assert(m.remove(k) =~= m);
    }
}

/// A cap of 0 is no cap: with none set, growing the supply is refused only on
/// an `i128` overflow.
pub proof fn lemma_zero_cap_is_uncapped(m: Map<KeyView, ValView>, amount: i128)
    requires
        spec_max_supply(m) == 0,
    ensures
        increase_refusal(m, amount) is None <==> in_i128(spec_total_supply(m) + amount),
{
}

/// The total supply reads what was last written under `TotalSupply`, 0 once
/// that entry is deleted (or was never written), and no write under any other
/// key changes it.
pub proof fn lemma_total_supply_reads(m: Map<KeyView, ValView>, x: i128, k: KeyView, v: ValView)
    ensures
        spec_total_supply(m.insert(KeyView::TotalSupply, ValView::I128(x))) == x,
        spec_total_supply(m.remove(KeyView::TotalSupply)) == 0,
        spec_total_supply(Map::<KeyView, ValView>::empty()) == 0,
        k != KeyView::TotalSupply ==> spec_total_supply(m.insert(k, v)) == spec_total_supply(m),
        k != KeyView::TotalSupply ==> spec_total_supply(m.remove(k)) == spec_total_supply(m),
{
}

/// The cap reads what was last written under `MaxSupply`, 0 once that entry
/// is deleted (or was never written), and no write under any other key (the
/// admin, the supply, a balance, ...) changes it.
pub proof fn lemma_max_supply_reads(m: Map<KeyView, ValView>, x: i128, k: KeyView, v: ValView)
    ensures
        spec_max_supply(m.insert(KeyView::MaxSupply, ValView::I128(x))) == x,
        spec_max_supply(m.remove(KeyView::MaxSupply)) == 0,
        spec_max_supply(Map::<KeyView, ValView>::empty()) == 0,
        k != KeyView::MaxSupply ==> spec_max_supply(m.insert(k, v)) == spec_max_supply(m),
        k != KeyView::MaxSupply ==> spec_max_supply(m.remove(k)) == spec_max_supply(m),
{
}

/// An account's balance reads what was last written under its own key, 0 once
/// that entry is deleted (or was never written), and no write under any other
/// key, another account's balance included, changes it.
pub proof fn lemma_balance_reads(
    m: Map<KeyView, ValView>,
    account: Seq<char>,
    x: i128,
    k: KeyView,
    v: ValView,
)
    ensures
        spec_balance(m.insert(KeyView::BalanceOf(account), ValView::I128(x)), account) == x,
        spec_balance(m.remove(KeyView::BalanceOf(account)), account) == 0,
        spec_balance(Map::<KeyView, ValView>::empty(), account) == 0,
        k != KeyView::BalanceOf(account) ==> spec_balance(m.insert(k, v), account) == spec_balance(
            m,
            account,
        ),
        k != KeyView::BalanceOf(account) ==> spec_balance(m.remove(k), account) == spec_balance(
            m,
            account,
        ),
{
}

/// Growing the supply by `amount` from `supply` under the cap `cap` (both as
/// stored, absent meaning 0) succeeds exactly when `supply + amount` fits in an
/// `i128` and, for a positive cap, stays at or below it; it then stores
/// `supply + amount`. The cap refusal reports that total and the cap, and comes
/// only when the total goes past a positive cap.
pub proof fn lemma_increase_supply_outcome(
    m: Map<KeyView, ValView>,
    supply: i128,
    cap: i128,
    amount: i128,
)
    requires
        m.contains_key(KeyView::TotalSupply) ==> m[KeyView::TotalSupply] == ValView::I128(supply),
        !m.contains_key(KeyView::TotalSupply) ==> supply == 0,
        m.contains_key(KeyView::MaxSupply) ==> m[KeyView::MaxSupply] == ValView::I128(cap),
        !m.contains_key(KeyView::MaxSupply) ==> cap == 0,
    ensures
        increase_refusal(m, amount) is None <==> (i128::MIN <= supply + amount <= i128::MAX && (cap
            > 0 ==> supply + amount <= cap)),
        increase_refusal(m, amount) is None ==> with_supply(
            m,
            (spec_total_supply(m) + amount) as i128,
        ) == m.insert(KeyView::TotalSupply, ValView::I128((supply + amount) as i128)),
        increase_refusal(m, amount) == Some(TokenError::SupplyOverflow { amount }) <==> !(i128::MIN
            <= supply + amount <= i128::MAX),
        increase_refusal(m, amount) matches Some(TokenError::SupplyCapExceeded { new_supply, cap: c })
            ==> new_supply == supply + amount && c == cap && cap > 0 && supply + amount > cap,
{
}

/// Whether a supply increase is refused, and how, depends on the stored supply
/// and cap alone: no write under any other key changes it.
pub proof fn lemma_increase_supply_ignores_other_keys(
    m: Map<KeyView, ValView>,
    amount: i128,
    k: KeyView,
    v: ValView,
)
    requires
        k != KeyView::TotalSupply,
        k != KeyView::MaxSupply,
    ensures
        increase_refusal(m.insert(k, v), amount) == increase_refusal(m, amount),
        increase_refusal(m.remove(k), amount) == increase_refusal(m, amount),
{
}

/// Minting `amount > 0` to `to`, with `supply`, `cap` and `balance` as stored
/// (absent meaning 0), succeeds exactly when the new supply fits in an `i128`
/// and stays at or below a positive cap and the new balance fits in an `i128`;
/// it then stores `supply + amount` and `balance + amount` and nothing else.
/// A non-positive amount is refused as invalid, and the cap refusal comes only
/// when the new supply goes past a positive cap.
pub proof fn lemma_mint_outcome(
    m: Map<KeyView, ValView>,
    to: Seq<char>,
    supply: i128,
    cap: i128,
    balance: i128,
    amount: i128,
)
    requires
        m.contains_key(KeyView::TotalSupply) ==> m[KeyView::TotalSupply] == ValView::I128(supply),
        !m.contains_key(KeyView::TotalSupply) ==> supply == 0,
        m.contains_key(KeyView::MaxSupply) ==> m[KeyView::MaxSupply] == ValView::I128(cap),
        !m.contains_key(KeyView::MaxSupply) ==> cap == 0,
        m.contains_key(KeyView::BalanceOf(to)) ==> m[KeyView::BalanceOf(to)] == ValView::I128(
            balance,
        ),
        !m.contains_key(KeyView::BalanceOf(to)) ==> balance == 0,
    ensures
        mint_refusal(m, to, amount) is None <==> (amount > 0 && i128::MIN <= supply + amount
            <= i128::MAX && (cap > 0 ==> supply + amount <= cap) && i128::MIN <= balance + amount
            <= i128::MAX),
        mint_refusal(m, to, amount) is None ==> credited(
            with_supply(m, (spec_total_supply(m) + amount) as i128),
            to,
            amount,
        ) == m.insert(KeyView::TotalSupply, ValView::I128((supply + amount) as i128)).insert(
            KeyView::BalanceOf(to),
            ValView::I128((balance + amount) as i128),
        ),
        amount <= 0 ==> mint_refusal(m, to, amount) == Some(TokenError::InvalidAmount { amount }),
        mint_refusal(m, to, amount) matches Some(TokenError::SupplyCapExceeded { new_supply, cap: c })
            ==> new_supply == supply + amount && c == cap && cap > 0 && supply + amount > cap,
{
    if mint_refusal(m, to, amount) is None {
        assert(credited(with_supply(m, (spec_total_supply(m) + amount) as i128), to, amount)
            =~= m.insert(KeyView::TotalSupply, ValView::I128((supply + amount) as i128)).insert(
            KeyView::BalanceOf(to),
            ValView::I128((balance + amount) as i128),
        ));
    }
}

/// Whether a mint is refused, and how, depends on the amount, the stored
/// supply, the stored cap and the recipient's stored balance alone: no write
/// under any other key (the admin, metadata, other accounts, ...) changes it.
pub proof fn lemma_mint_ignores_other_keys(
    m: Map<KeyView, ValView>,
    to: Seq<char>,
    amount: i128,
    k: KeyView,
    v: ValView,
)
    requires
        k != KeyView::TotalSupply,
        k != KeyView::MaxSupply,
        k != KeyView::BalanceOf(to),
    ensures
        mint_refusal(m.insert(k, v), to, amount) == mint_refusal(m, to, amount),
        mint_refusal(m.remove(k), to, amount) == mint_refusal(m, to, amount),
{
}

/// Crediting `amount` to an account that holds `balance` (absent meaning 0)
/// stores `balance + amount` under that account and nothing else; a debit that
/// leaves `balance - amount` stores that, or deletes the entry when it is 0.
pub proof fn lemma_credit_debit_outcome(
    m: Map<KeyView, ValView>,
    account: Seq<char>,
    balance: i128,
    amount: i128,
)
    requires
        m.contains_key(KeyView::BalanceOf(account)) ==> m[KeyView::BalanceOf(account)]
            == ValView::I128(balance),
        !m.contains_key(KeyView::BalanceOf(account)) ==> balance == 0,
    ensures
        in_i128(balance + amount) <==> i128::MIN <= balance + amount <= i128::MAX,
        credited(m, account, amount) == m.insert(
            KeyView::BalanceOf(account),
            ValView::I128((balance + amount) as i128),
        ),
        balance - amount == 0 ==> debited(m, account, amount) == m.remove(
            KeyView::BalanceOf(account),
        ),
        balance - amount != 0 ==> debited(m, account, amount) == m.insert(
            KeyView::BalanceOf(account),
            ValView::I128((balance - amount) as i128),
        ),
{
}

/// Setting the supply to `x` stores `x` under `TotalSupply` and nothing else.
pub proof fn lemma_with_supply_outcome(m: Map<KeyView, ValView>, x: i128)
    ensures
        with_supply(m, x) == m.insert(KeyView::TotalSupply, ValView::I128(x)),
{
}

/// Debiting `amount` and crediting it back restores the account's balance,
/// and restores the whole ledger when the account had an entry.
pub proof fn lemma_credit_undoes_debit(m: Map<KeyView, ValView>, account: Seq<char>, amount: i128)
    requires
        ledger_ok(m),
        spec_balance(m, account) >= amount,
        spec_balance(m, account) - amount <= i128::MAX,
    ensures
        in_i128(spec_balance(debited(m, account, amount), account) + amount),
        spec_balance(credited(debited(m, account, amount), account, amount), account)
            == spec_balance(m, account),
        m.contains_key(KeyView::BalanceOf(account)) ==> credited(
            debited(m, account, amount),
            account,
            amount,
        ) == m,
{
    let k = KeyView::BalanceOf(account);
    if m.contains_key(k) {
        assert(m[k] is I128);
        assert(credited(debited(m, account, amount), account, amount) =~= m);
    }
}

/// Crediting `amount` and debiting it again restores the account's balance,
/// and restores the whole ledger unless the account held an entry of zero.
pub proof fn lemma_debit_undoes_credit(m: Map<KeyView, ValView>, account: Seq<char>, amount: i128)
    requires
        ledger_ok(m),
        spec_balance(m, account) >= 0,
        in_i128(spec_balance(m, account) + amount),
    ensures
        spec_balance(credited(m, account, amount), account) >= amount,
        spec_balance(credited(m, account, amount), account) - amount <= i128::MAX,
        spec_balance(debited(credited(m, account, amount), account, amount), account)
            == spec_balance(m, account),
        !(m.contains_key(KeyView::BalanceOf(account)) && spec_balance(m, account) == 0) ==> debited(
            credited(m, account, amount),
            account,
            amount,
        ) == m,
{
    let k = KeyView::BalanceOf(account);
    if m.contains_key(k) {
        assert(m[k] is I128);
    }
    if !(m.contains_key(k) && spec_balance(m, account) == 0) {
        assert(debited(credited(m, account, amount), account, amount) =~= m);
    }
}

/// Growing the supply by `amount` and shrinking it by the same amount restores
/// the total supply, and restores the whole ledger when the supply had an
/// entry.
pub proof fn lemma_decrease_undoes_increase(m: Map<KeyView, ValView>, amount: i128)
    requires
        ledger_ok(m),
        increase_refusal(m, amount) is None,
    ensures
        in_i128(
            spec_total_supply(with_supply(m, (spec_total_supply(m) + amount) as i128)) - amount,
        ),
        spec_total_supply(
            with_supply(
                with_supply(m, (spec_total_supply(m) + amount) as i128),
                spec_total_supply(m),
            ),
        ) == spec_total_supply(m),
        m.contains_key(KeyView::TotalSupply) ==> with_supply(
            with_supply(m, (spec_total_supply(m) + amount) as i128),
            spec_total_supply(m),
        ) == m,
{
    if m.contains_key(KeyView::TotalSupply) {
        assert(m[KeyView::TotalSupply] is I128);
        assert(with_supply(
            with_supply(m, (spec_total_supply(m) + amount) as i128),
            spec_total_supply(m),
        ) =~= m);
    }
}

/// Tokens in circulation. An absent key means the contract has minted nothing.
pub fn total_supply(ledger: &Ledger) -> (r: i128)
    ensures
        r == spec_total_supply(ledger@),
        ledger_ok(ledger@),
{
    ledger.get_i128_or(&DataKey::TotalSupply, 0)
}

/// The configured hard cap, or 0 when supply is uncapped.
pub fn max_supply(ledger: &Ledger) -> (r: i128)
    ensures
        r == spec_max_supply(ledger@),
        ledger_ok(ledger@),
{
    ledger.get_i128_or(&DataKey::MaxSupply, 0)
}

/// Tokens held by `account`. An absent key means a zero balance.
pub fn balance_of(ledger: &Ledger, account: &Address) -> (r: i128)
    ensures
        r == spec_balance(ledger@, account@),
        ledger_ok(ledger@),
{
    ledger.get_i128_or(&DataKey::BalanceOf(account.duplicate()), 0)
}

/// Credits `amount` to `account` without touching total supply.
///
/// Callers that bring new tokens into circulation must also call
/// [`increase_supply`] so the two ledgers cannot drift apart.
pub fn credit(ledger: &mut Ledger, account: &Address, amount: i128) -> (r: Result<(), TokenError>)
    ensures
        ledger_ok(final(ledger)@),
        in_i128(spec_balance(old(ledger)@, account@) + amount) ==> r is Ok && final(ledger)@
            == credited(old(ledger)@, account@, amount),
        !in_i128(spec_balance(old(ledger)@, account@) + amount) ==> r == Err::<(), TokenError>(
            TokenError::BalanceOverflow { amount },
        ) && final(ledger)@ == old(ledger)@,
        r is Ok ==> spec_total_supply(final(ledger)@) == spec_total_supply(old(ledger)@),
        r is Ok ==> balance_total(final(ledger)@) == balance_total(old(ledger)@) + amount,
{
    let balance = balance_of(ledger, account);
    match balance.checked_add(amount) {
        None => Err(TokenError::BalanceOverflow { amount }),
        Some(new_balance) => {
            ledger.set(DataKey::BalanceOf(account.duplicate()), Val::I128(new_balance));
            proof {
                lemma_balance_total_insert(
                    old(ledger)@,
                    KeyView::BalanceOf(account@),
                    ValView::I128(new_balance),
                );
            }
            Ok(())
        },
    }
}

/// Debits `amount` from `account`; an account left at zero loses its entry.
///
/// Refused with `InsufficientBalance` when the account holds less than
/// `amount`.
pub fn debit(ledger: &mut Ledger, account: &Address, amount: i128) -> (r: Result<(), TokenError>)
    requires
        spec_balance(old(ledger)@, account@) - amount <= i128::MAX,
    ensures
        ledger_ok(final(ledger)@),
        spec_balance(old(ledger)@, account@) < amount ==> r == Err::<(), TokenError>(
            TokenError::InsufficientBalance {
                available: spec_balance(old(ledger)@, account@),
                required: amount,
            },
        ) && final(ledger)@ == old(ledger)@,
        spec_balance(old(ledger)@, account@) >= amount ==> r is Ok && final(ledger)@ == debited(
            old(ledger)@,
            account@,
            amount,
        ),
        r is Ok ==> spec_total_supply(final(ledger)@) == spec_total_supply(old(ledger)@),
        r is Ok ==> balance_total(final(ledger)@) == balance_total(old(ledger)@) - amount,
{
    let balance = balance_of(ledger, account);
    if balance < amount {
        return Err(TokenError::InsufficientBalance { available: balance, required: amount });
    }
    let new_balance = balance - amount;
    if new_balance == 0 {
        ledger.remove(&DataKey::BalanceOf(account.duplicate()));
        proof {
            lemma_balance_total_remove(old(ledger)@, KeyView::BalanceOf(account@));
        }
    } else {
        ledger.set(DataKey::BalanceOf(account.duplicate()), Val::I128(new_balance));
        proof {
            lemma_balance_total_insert(
                old(ledger)@,
                KeyView::BalanceOf(account@),
                ValView::I128(new_balance),
            );
        }
    }
    Ok(())
}

/// Adds `amount` to total supply, enforcing the configured cap.
///
/// A cap of 0 is the "no cap" sentinel: `max_supply` is unset until the
/// initializer opts into a limit, and an absent cap must not block minting.
/// Refused with `SupplyOverflow` on an `i128` overflow, and with
/// `SupplyCapExceeded` when the cap is set and the new total would exceed it.
pub fn increase_supply(ledger: &mut Ledger, amount: i128) -> (r: Result<(), TokenError>)
    ensures
        ledger_ok(final(ledger)@),
        match increase_refusal(old(ledger)@, amount) {
            Some(e) => r == Err::<(), TokenError>(e) && final(ledger)@ == old(ledger)@,
            None => r is Ok && final(ledger)@ == with_supply(
                old(ledger)@,
                (spec_total_supply(old(ledger)@) + amount) as i128,
            ),
        },
        r is Ok ==> spec_max_supply(final(ledger)@) > 0 ==> spec_total_supply(final(ledger)@)
            <= spec_max_supply(final(ledger)@),
        r is Ok ==> balance_total(final(ledger)@) == balance_total(old(ledger)@),
{
    let supply = total_supply(ledger);
    let new_supply = match supply.checked_add(amount) {
        None => {
            return Err(TokenError::SupplyOverflow { amount });
        },
        Some(n) => n,
    };
    let cap = max_supply(ledger);
    if cap > 0 && new_supply > cap {
        return Err(TokenError::SupplyCapExceeded { new_supply, cap });
    }
    ledger.set(DataKey::TotalSupply, Val::I128(new_supply));
    proof {
        lemma_balance_total_insert(old(ledger)@, KeyView::TotalSupply, ValView::I128(new_supply));
    }
    Ok(())
}

/// Subtracts `amount` from total supply.
///
/// Refused with `SupplyUnderflow` when the difference leaves the `i128` range.
pub fn decrease_supply(ledger: &mut Ledger, amount: i128) -> (r: Result<(), TokenError>)
    ensures
        ledger_ok(final(ledger)@),
        !in_i128(spec_total_supply(old(ledger)@) - amount) ==> r == Err::<(), TokenError>(
            TokenError::SupplyUnderflow { amount },
        ) && final(ledger)@ == old(ledger)@,
        in_i128(spec_total_supply(old(ledger)@) - amount) ==> r is Ok && final(ledger)@
            == with_supply(old(ledger)@, (spec_total_supply(old(ledger)@) - amount) as i128),
        r is Ok ==> balance_total(final(ledger)@) == balance_total(old(ledger)@),
{
    let supply = total_supply(ledger);
    match supply.checked_sub(amount) {
        None => Err(TokenError::SupplyUnderflow { amount }),
        Some(new_supply) => {
            ledger.set(DataKey::TotalSupply, Val::I128(new_supply));
            proof {
                lemma_balance_total_insert(
                    old(ledger)@,
                    KeyView::TotalSupply,
                    ValView::I128(new_supply),
                );
            }
            Ok(())
        },
    }
}

/// Brings `amount` of new tokens into circulation for `to`, and returns the
/// event that announces it.
///
/// This is the only place that credits balances and grows supply together, so
/// the two ledgers cannot be updated independently and drift apart. A refused
/// mint leaves the ledger as it was.
pub fn mint(ledger: &mut Ledger, to: &Address, amount: i128) -> (r: Result<Mint, TokenError>)
    ensures
        ledger_ok(final(ledger)@),
        match mint_refusal(old(ledger)@, to@, amount) {
            Some(e) => r == Err::<Mint, TokenError>(e) && final(ledger)@ == old(ledger)@,
            None => r is Ok && final(ledger)@ == credited(
                with_supply(old(ledger)@, (spec_total_supply(old(ledger)@) + amount) as i128),
                to@,
                amount,
            ),
        },
        r matches Ok(event) ==> event.to@ == to@ && event.amount == amount,
        r is Ok ==> spec_total_supply(final(ledger)@) == spec_total_supply(old(ledger)@) + amount,
        r is Ok ==> spec_balance(final(ledger)@, to@) == spec_balance(old(ledger)@, to@) + amount,
        r is Ok ==> spec_max_supply(final(ledger)@) > 0 ==> spec_total_supply(final(ledger)@)
            <= spec_max_supply(final(ledger)@),
        supply_matches_balances(old(ledger)@) ==> supply_matches_balances(final(ledger)@),
{
    let previous_supply = ledger.has(&DataKey::TotalSupply);
    let supply_before = total_supply(ledger);
    require_positive_amount(amount)?;
    increase_supply(ledger, amount)?;
    match credit(ledger, to, amount) {
        Ok(()) => Ok(Mint { to: to.duplicate(), amount }),
        Err(e) => {
            if previous_supply {
                ledger.set(DataKey::TotalSupply, Val::I128(supply_before));
            } else {
                ledger.remove(&DataKey::TotalSupply);
            }
            proof {
                assert(final(ledger)@ =~= old(ledger)@);
            }
            Err(e)
        },
    }
}

} // verus!

use veritix_pay::admin::{admin, check_admin, initialized_at_ledger, is_admin, is_initialized, require_initialized};
use veritix_pay::balance::{balance_of, credit, debit, decrease_supply, increase_supply, max_supply, mint, total_supply};
use veritix_pay::contract::initialize_state;
use veritix_pay::control::{is_frozen, is_paused, require_not_frozen, require_not_paused, set_frozen, set_paused};
use veritix_pay::error::TokenError;
use veritix_pay::ledger::Ledger;
use veritix_pay::metadata::{defaults, load, store, TokenMetadata, DEFAULT_DECIMALS, DEFAULT_NAME, DEFAULT_SYMBOL};
use veritix_pay::storage_types::{Address, DataKey, Val};
use veritix_pay::validation::require_positive_amount;

const ADMIN: &str = "GADMINADMINADMINADMINADMINADMINADMINADMINADMINADMINADMI";
const HOLDER: &str = "GHOLDERHOLDERHOLDERHOLDERHOLDERHOLDERHOLDERHOLDERHOLDE";
const OTHER: &str = "GOTHEROTHEROTHEROTHEROTHEROTHEROTHEROTHEROTHEROTHEROTH";

fn addr(s: &str) -> Address {
    Address::new(s.to_string())
}

fn setup() -> (Ledger, Address) {
    let mut ledger = Ledger::new();
    let admin = addr(ADMIN);
    initialize_state(&mut ledger, &admin, 42, &defaults()).unwrap();
    (ledger, admin)
}

fn setup_capped(cap: i128) -> (Ledger, Address) {
    let (mut ledger, admin) = setup();
    ledger.set(DataKey::MaxSupply, Val::I128(cap));
    (ledger, admin)
}

#[test]
fn test_initialize_stores_admin_and_defaults() {
    let (ledger, admin_addr) = setup();
    assert!(is_initialized(&ledger));
    assert_eq!(admin(&ledger).unwrap().strkey(), admin_addr.strkey());
    assert_eq!(initialized_at_ledger(&ledger), 42);
    let meta = load(&ledger);
    assert_eq!(meta.name, "VeriTix");
    assert_eq!(meta.symbol, "VTX");
    assert_eq!(meta.decimals, 7);
}

#[test]
fn test_initialize_twice_is_refused() {
    let (mut ledger, _admin) = setup();
    let entries = ledger.len();
    let other = addr(OTHER);
    assert_eq!(
        initialize_state(&mut ledger, &other, 43, &defaults()),
        Err(TokenError::AlreadyInitialized)
    );
    assert!(is_admin(&ledger, &addr(ADMIN)));
    assert!(!is_admin(&ledger, &other));
    assert_eq!(initialized_at_ledger(&ledger), 42);
    assert_eq!(ledger.len(), entries);
}

#[test]
fn test_initialize_with_metadata_overrides_defaults() {
    let mut ledger = Ledger::new();
    let admin_addr = addr(ADMIN);
    let meta = TokenMetadata {
        name: "Event Tickets".to_string(),
        symbol: "VTIX".to_string(),
        decimals: 2,
    };
    initialize_state(&mut ledger, &admin_addr, 1, &meta).unwrap();
    let loaded = load(&ledger);
    assert_eq!(loaded.name, "Event Tickets");
    assert_eq!(loaded.symbol, "VTIX");
    assert_eq!(loaded.decimals, 2);
}

#[test]
fn test_uninitialized_ledger_reads() {
    let ledger = Ledger::new();
    assert!(!is_initialized(&ledger));
    assert_eq!(require_initialized(&ledger), Err(TokenError::NotInitialized));
    assert!(admin(&ledger).is_err());
    assert_eq!(admin(&ledger).err(), Some(TokenError::NotInitialized));
    assert_eq!(initialized_at_ledger(&ledger), 0);
    assert!(!is_admin(&ledger, &addr(ADMIN)));
    assert_eq!(check_admin(&ledger, &addr(ADMIN)), Err(TokenError::NotInitialized));
    assert_eq!(ledger.len(), 0);
}

#[test]
fn test_balance_and_supply_start_at_zero() {
    let (ledger, _admin) = setup();
    assert_eq!(balance_of(&ledger, &addr(HOLDER)), 0);
    assert_eq!(total_supply(&ledger), 0);
    assert_eq!(max_supply(&ledger), 0);
}

#[test]
fn test_check_admin_accepts_the_admin_only() {
    let (ledger, admin_addr) = setup();
    assert_eq!(require_initialized(&ledger), Ok(()));
    assert_eq!(check_admin(&ledger, &admin_addr), Ok(()));
    assert_eq!(check_admin(&ledger, &addr(OTHER)), Err(TokenError::Unauthorized));
}

#[test]
fn test_mint_credits_balance_and_grows_supply() {
    let (mut ledger, _admin) = setup();
    let user = addr(HOLDER);
    let event = mint(&mut ledger, &user, 1_000).unwrap();
    assert_eq!(event.to.strkey(), user.strkey());
    assert_eq!(event.amount, 1_000);
    assert_eq!(balance_of(&ledger, &user), 1_000);
    assert_eq!(total_supply(&ledger), 1_000);
}

#[test]
fn test_mint_accumulates_across_calls() {
    let (mut ledger, _admin) = setup();
    let user = addr(HOLDER);
    mint(&mut ledger, &user, 1_000).unwrap();
    mint(&mut ledger, &user, 500).unwrap();
    assert_eq!(balance_of(&ledger, &user), 1_500);
    assert_eq!(total_supply(&ledger), 1_500);
}

#[test]
fn test_mint_rejects_zero_amount() {
    let (mut ledger, _admin) = setup();
    let user = addr(HOLDER);
    assert_eq!(mint(&mut ledger, &user, 0).err(), Some(TokenError::InvalidAmount { amount: 0 }));
    assert_eq!(total_supply(&ledger), 0);
}

#[test]
fn test_mint_rejects_negative_amount() {
    let (mut ledger, _admin) = setup();
    let user = addr(HOLDER);
    assert_eq!(mint(&mut ledger, &user, -1).err(), Some(TokenError::InvalidAmount { amount: -1 }));
    assert_eq!(balance_of(&ledger, &user), 0);
}

#[test]
fn test_mint_rejects_amount_over_the_cap() {
    let (mut ledger, _admin) = setup_capped(1_000);
    let user = addr(HOLDER);
    assert_eq!(
        mint(&mut ledger, &user, 1_001).err(),
        Some(TokenError::SupplyCapExceeded { new_supply: 1_001, cap: 1_000 })
    );
    assert_eq!(total_supply(&ledger), 0);
    assert_eq!(balance_of(&ledger, &user), 0);
}

#[test]
fn test_mint_allows_amount_exactly_at_the_cap() {
    let (mut ledger, _admin) = setup_capped(1_000);
    let user = addr(HOLDER);
    mint(&mut ledger, &user, 1_000).unwrap();
    assert_eq!(total_supply(&ledger), 1_000);
}

#[test]
fn test_mint_counts_prior_mints_against_the_cap() {
    let (mut ledger, _admin) = setup_capped(1_000);
    let user = addr(HOLDER);
    mint(&mut ledger, &user, 600).unwrap();
    assert_eq!(
        mint(&mut ledger, &user, 500).err(),
        Some(TokenError::SupplyCapExceeded { new_supply: 1_100, cap: 1_000 })
    );
    assert_eq!(total_supply(&ledger), 600);
    assert_eq!(balance_of(&ledger, &user), 600);
}

#[test]
fn test_mint_supply_overflow_is_refused() {
    let (mut ledger, _admin) = setup();
    ledger.set(DataKey::TotalSupply, Val::I128(i128::MAX));
    let user = addr(HOLDER);
    assert_eq!(mint(&mut ledger, &user, 1).err(), Some(TokenError::SupplyOverflow { amount: 1 }));
    assert_eq!(total_supply(&ledger), i128::MAX);
}

#[test]
fn test_mint_balance_overflow_leaves_supply_untouched() {
    let (mut ledger, _admin) = setup();
    let user = addr(HOLDER);
    ledger.set(DataKey::BalanceOf(addr(HOLDER)), Val::I128(i128::MAX));
    assert_eq!(mint(&mut ledger, &user, 5).err(), Some(TokenError::BalanceOverflow { amount: 5 }));
    assert_eq!(total_supply(&ledger), 0);
    assert!(!ledger.has(&DataKey::TotalSupply));
    assert_eq!(balance_of(&ledger, &user), i128::MAX);

    ledger.set(DataKey::TotalSupply, Val::I128(10));
    assert_eq!(mint(&mut ledger, &user, 5).err(), Some(TokenError::BalanceOverflow { amount: 5 }));
    assert_eq!(total_supply(&ledger), 10);
}

#[test]
fn test_mint_keeps_other_accounts() {
    let (mut ledger, _admin) = setup();
    let user = addr(HOLDER);
    let other = addr(OTHER);
    mint(&mut ledger, &user, 300).unwrap();
    mint(&mut ledger, &other, 700).unwrap();
    assert_eq!(balance_of(&ledger, &user), 300);
    assert_eq!(balance_of(&ledger, &other), 700);
    assert_eq!(total_supply(&ledger), 1_000);
}

#[test]
fn test_credit_does_not_touch_supply() {
    let (mut ledger, _admin) = setup();
    let user = addr(HOLDER);
    credit(&mut ledger, &user, 250).unwrap();
    assert_eq!(balance_of(&ledger, &user), 250);
    assert_eq!(total_supply(&ledger), 0);
}

#[test]
fn test_credit_overflow_is_refused() {
    let (mut ledger, _admin) = setup();
    let user = addr(HOLDER);
    credit(&mut ledger, &user, i128::MAX).unwrap();
    assert_eq!(credit(&mut ledger, &user, 1), Err(TokenError::BalanceOverflow { amount: 1 }));
    assert_eq!(balance_of(&ledger, &user), i128::MAX);
}

#[test]
fn test_debit_reduces_the_balance() {
    let (mut ledger, _admin) = setup();
    let user = addr(HOLDER);
    mint(&mut ledger, &user, 1_000).unwrap();
    debit(&mut ledger, &user, 400).unwrap();
    assert_eq!(balance_of(&ledger, &user), 600);
    assert_eq!(total_supply(&ledger), 1_000);
}

#[test]
fn test_debit_of_the_entire_balance_removes_the_entry() {
    let (mut ledger, _admin) = setup();
    let user = addr(HOLDER);
    mint(&mut ledger, &user, 1_000).unwrap();
    let key = DataKey::BalanceOf(addr(HOLDER));
    assert!(ledger.has(&key));
    debit(&mut ledger, &user, 1_000).unwrap();
    assert!(!ledger.has(&key));
    assert_eq!(balance_of(&ledger, &user), 0);
}

#[test]
fn test_debit_rejects_amount_above_the_balance() {
    let (mut ledger, _admin) = setup();
    let user = addr(HOLDER);
    mint(&mut ledger, &user, 1_000).unwrap();
    assert_eq!(
        debit(&mut ledger, &user, 1_001),
        Err(TokenError::InsufficientBalance { available: 1_000, required: 1_001 })
    );
    assert_eq!(balance_of(&ledger, &user), 1_000);
}

#[test]
fn test_debit_then_credit_restores_the_ledger() {
    let (mut ledger, _admin) = setup();
    let user = addr(HOLDER);
    mint(&mut ledger, &user, 1_000).unwrap();
    let entries = ledger.len();
    debit(&mut ledger, &user, 1_000).unwrap();
    credit(&mut ledger, &user, 1_000).unwrap();
    assert_eq!(balance_of(&ledger, &user), 1_000);
    assert_eq!(ledger.len(), entries);
}

#[test]
fn test_credit_then_debit_restores_the_ledger() {
    let (mut ledger, _admin) = setup();
    let user = addr(HOLDER);
    let entries = ledger.len();
    credit(&mut ledger, &user, 77).unwrap();
    debit(&mut ledger, &user, 77).unwrap();
    assert_eq!(balance_of(&ledger, &user), 0);
    assert_eq!(ledger.len(), entries);
}

#[test]
fn test_increase_and_decrease_supply() {
    let (mut ledger, _admin) = setup();
    increase_supply(&mut ledger, 500).unwrap();
    assert_eq!(total_supply(&ledger), 500);
    decrease_supply(&mut ledger, 500).unwrap();
    assert_eq!(total_supply(&ledger), 0);
    assert!(ledger.has(&DataKey::TotalSupply));
}

#[test]
fn test_increase_supply_respects_the_cap_and_zero_means_uncapped() {
    let (mut ledger, _admin) = setup();
    increase_supply(&mut ledger, 1_000_000).unwrap();
    ledger.set(DataKey::MaxSupply, Val::I128(1_000_000));
    assert_eq!(
        increase_supply(&mut ledger, 1),
        Err(TokenError::SupplyCapExceeded { new_supply: 1_000_001, cap: 1_000_000 })
    );
    ledger.set(DataKey::MaxSupply, Val::I128(0));
    increase_supply(&mut ledger, 1).unwrap();
    assert_eq!(total_supply(&ledger), 1_000_001);
}

#[test]
fn test_decrease_supply_underflow_is_refused() {
    let (mut ledger, _admin) = setup();
    ledger.set(DataKey::TotalSupply, Val::I128(i128::MIN + 1));
    assert_eq!(decrease_supply(&mut ledger, 2), Err(TokenError::SupplyUnderflow { amount: 2 }));
    assert_eq!(total_supply(&ledger), i128::MIN + 1);
}

#[test]
fn test_require_positive_amount() {
    assert_eq!(require_positive_amount(1), Ok(()));
    assert_eq!(require_positive_amount(0), Err(TokenError::InvalidAmount { amount: 0 }));
    assert_eq!(require_positive_amount(i128::MIN), Err(TokenError::InvalidAmount { amount: i128::MIN }));
}

#[test]
fn test_pause_and_resume() {
    let (mut ledger, _admin) = setup();
    assert!(!is_paused(&ledger));
    assert_eq!(require_not_paused(&ledger), Ok(()));
    set_paused(&mut ledger, true);
    assert!(is_paused(&ledger));
    assert_eq!(require_not_paused(&ledger), Err(TokenError::Paused));
    set_paused(&mut ledger, false);
    assert!(!is_paused(&ledger));
    assert!(!ledger.has(&DataKey::Paused));
}

#[test]
fn test_freeze_keeps_the_balance() {
    let (mut ledger, _admin) = setup();
    let user = addr(HOLDER);
    let other = addr(OTHER);
    mint(&mut ledger, &user, 1_000).unwrap();
    set_frozen(&mut ledger, &user, true);
    assert!(is_frozen(&ledger, &user));
    assert!(!is_frozen(&ledger, &other));
    assert_eq!(require_not_frozen(&ledger, &user), Err(TokenError::Frozen));
    assert_eq!(require_not_frozen(&ledger, &other), Ok(()));
    assert_eq!(balance_of(&ledger, &user), 1_000);
    assert_eq!(total_supply(&ledger), 1_000);
    set_frozen(&mut ledger, &user, false);
    assert!(!is_frozen(&ledger, &user));
    assert!(!ledger.has(&DataKey::Frozen(addr(HOLDER))));
}

#[test]
fn test_metadata_defaults_and_round_trip() {
    let ledger = Ledger::new();
    let meta = load(&ledger);
    assert_eq!(meta.name, DEFAULT_NAME);
    assert_eq!(meta.symbol, DEFAULT_SYMBOL);
    assert_eq!(meta.decimals, DEFAULT_DECIMALS);
    let d = defaults();
    assert_eq!(d.name, "VeriTix");
    assert_eq!(d.symbol, "VTX");
    assert_eq!(d.decimals, 7);

    let mut ledger = Ledger::new();
    store(&mut ledger, &TokenMetadata { name: "A".to_string(), symbol: "B".to_string(), decimals: 18 });
    let back = load(&ledger);
    assert_eq!(back.name, "A");
    assert_eq!(back.symbol, "B");
    assert_eq!(back.decimals, 18);
    assert_eq!(ledger.len(), 3);
}

#[test]
fn test_metadata_fills_missing_fields() {
    let mut ledger = Ledger::new();
    ledger.set(DataKey::Symbol, Val::Str("TIX".to_string()));
    let meta = load(&ledger);
    assert_eq!(meta.name, "VeriTix");
    assert_eq!(meta.symbol, "TIX");
    assert_eq!(meta.decimals, 7);
}

#[test]
fn test_ledger_set_get_remove() {
    let mut ledger = Ledger::new();
    let key = DataKey::BalanceOf(addr(HOLDER));
    assert!(ledger.get(&key).is_none());
    ledger.set(DataKey::BalanceOf(addr(HOLDER)), Val::I128(5));
    ledger.set(DataKey::BalanceOf(addr(OTHER)), Val::I128(6));
    ledger.set(DataKey::BalanceOf(addr(HOLDER)), Val::I128(7));
    assert_eq!(ledger.len(), 2);
    assert_eq!(ledger.get_i128_or(&key, 0), 7);
    assert!(matches!(ledger.get(&key), Some(Val::I128(7))));
    ledger.remove(&key);
    assert_eq!(ledger.len(), 1);
    assert_eq!(ledger.get_i128_or(&key, -1), -1);
    assert_eq!(ledger.get_i128_or(&DataKey::BalanceOf(addr(OTHER)), 0), 6);
}

#[test]
fn test_keys_and_values_follow_the_layout() {
    assert!(DataKey::Admin.admits(&Val::Address(addr(ADMIN))));
    assert!(!DataKey::Admin.admits(&Val::U32(1)));
    assert!(DataKey::BalanceOf(addr(HOLDER)).admits(&Val::I128(1)));
    assert!(DataKey::Frozen(addr(HOLDER)).admits(&Val::Bool(true)));
    assert!(DataKey::Name.admits(&Val::Str("x".to_string())));
    assert!(DataKey::BalanceOf(addr(HOLDER)).same_as(&DataKey::BalanceOf(addr(HOLDER))));
    assert!(!DataKey::BalanceOf(addr(HOLDER)).same_as(&DataKey::BalanceOf(addr(OTHER))));
    assert!(!DataKey::BalanceOf(addr(HOLDER)).same_as(&DataKey::Frozen(addr(HOLDER))));
}

//! The SEP-41 token metadata: name, symbol and decimals.
use vstd::prelude::*;
use crate::balance::{balance_total, lemma_balance_total_insert, spec_balance, spec_total_supply};
use crate::ledger::{ledger_ok, str_at, u32_or, Ledger};
use crate::storage_types::{DataKey, KeyView, Val, ValView};

verus! {

/// Name stored when the deployer does not supply one.
pub const DEFAULT_NAME: &'static str = "VeriTix";

/// Symbol stored when the deployer does not supply one.
pub const DEFAULT_SYMBOL: &'static str = "VTX";

/// Decimals stored when the deployer does not supply one.
pub const DEFAULT_DECIMALS: u32 = 7;

/// The three SEP-41 metadata fields, as stored at initialization.
pub struct TokenMetadata {
    pub name: String,
    pub symbol: String,
    pub decimals: u32,
}

/// The mathematical form of a [`TokenMetadata`].
pub struct MetadataView {
    pub name: Seq<char>,
    pub symbol: Seq<char>,
    pub decimals: u32,
}

impl View for TokenMetadata {
    type V = MetadataView;

    open spec fn view(&self) -> MetadataView {
        MetadataView { name: self.name@, symbol: self.symbol@, decimals: self.decimals }
    }
}

/// The metadata a contract falls back on when nothing has been stored.
pub open spec fn default_metadata() -> MetadataView {
    MetadataView { name: DEFAULT_NAME@, symbol: DEFAULT_SYMBOL@, decimals: DEFAULT_DECIMALS }
}

/// The ledger after all three fields of `meta` are written.
pub open spec fn stored(m: Map<KeyView, ValView>, meta: MetadataView) -> Map<KeyView, ValView> {
    m.insert(KeyView::Name, ValView::Str(meta.name)).insert(
        KeyView::Symbol,
        ValView::Str(meta.symbol),
    ).insert(KeyView::Decimals, ValView::U32(meta.decimals))
}

/// The metadata read from `m`, each unset field taken from the defaults.
pub open spec fn loaded(m: Map<KeyView, ValView>) -> MetadataView {
    MetadataView {
        name: match str_at(m, KeyView::Name) {
            Some(s) => s,
            None => DEFAULT_NAME@,
        },
        symbol: match str_at(m, KeyView::Symbol) {
            Some(s) => s,
            None => DEFAULT_SYMBOL@,
        },
        decimals: u32_or(m, KeyView::Decimals, DEFAULT_DECIMALS),
    }
}

/// Reading the metadata back after storing it gives exactly what was stored,
/// whatever the ledger held before.
pub proof fn lemma_load_after_store(m: Map<KeyView, ValView>, meta: MetadataView)
    ensures
        loaded(stored(m, meta)) == meta,
{
}

/// A ledger that never had metadata stored reads the defaults.
pub proof fn lemma_load_without_metadata(m: Map<KeyView, ValView>)
    requires
        !m.contains_key(KeyView::Name),
        !m.contains_key(KeyView::Symbol),
        !m.contains_key(KeyView::Decimals),
    ensures
        loaded(m) == default_metadata(),
{
}

/// The metadata read from a ledger depends on its `Name`, `Symbol` and
/// `Decimals` entries alone: no write under another key changes it.
pub proof fn lemma_load_ignores_other_keys(m: Map<KeyView, ValView>, k: KeyView, v: ValView)
    requires
        k != KeyView::Name,
        k != KeyView::Symbol,
        k != KeyView::Decimals,
    ensures
        loaded(m.insert(k, v)) == loaded(m),
        loaded(m.remove(k)) == loaded(m),
{
}

/// The metadata a contract falls back on when nothing has been stored yet.
pub fn defaults() -> (r: TokenMetadata)
    ensures
        r@ == default_metadata(),
{
    TokenMetadata {
        name: String::from_str(DEFAULT_NAME),
        symbol: String::from_str(DEFAULT_SYMBOL),
        decimals: DEFAULT_DECIMALS,
    }
}

/// Writes all three metadata fields, overwriting whatever was there.
pub fn store(ledger: &mut Ledger, metadata: &TokenMetadata)
    ensures
        final(ledger)@ == stored(old(ledger)@, metadata@),
        forall|acct: Seq<char>| #[trigger] spec_balance(final(ledger)@, acct) == spec_balance(
            old(ledger)@,
            acct,
        ),
        spec_total_supply(final(ledger)@) == spec_total_supply(old(ledger)@),
        balance_total(final(ledger)@) == balance_total(old(ledger)@),
        ledger_ok(final(ledger)@),
{
    proof {
        ledger.lemma_view_finite();
    }
    ledger.set(DataKey::Name, Val::Str(metadata.name.clone()));
    proof {
        lemma_balance_total_insert(old(ledger)@, KeyView::Name, ValView::Str(metadata.name@));
    }
    let ghost after_name = ledger@;
    ledger.set(DataKey::Symbol, Val::Str(metadata.symbol.clone()));
    proof {
        lemma_balance_total_insert(after_name, KeyView::Symbol, ValView::Str(metadata.symbol@));
    }
    let ghost after_symbol = ledger@;
    ledger.set(DataKey::Decimals, Val::U32(metadata.decimals));
    proof {
        lemma_balance_total_insert(after_symbol, KeyView::Decimals, ValView::U32(metadata.decimals));
    }
}

/// Reads the stored metadata, filling in defaults for any field that is unset.
///
/// Metadata is written once at initialization and never mutated afterwards, so
/// the per-field fallbacks only ever fire on a contract that was deployed
/// without a complete metadata record.
pub fn load(ledger: &Ledger) -> (r: TokenMetadata)
    ensures
        r@ == loaded(ledger@),
        ledger_ok(ledger@),
{
    let fallback = defaults();
    let TokenMetadata { name: default_name, symbol: default_symbol, decimals: default_decimals } =
        fallback;
    let name = match ledger.get_str(&DataKey::Name) {
        Some(s) => s,
        None => default_name,
    };
    let symbol = match ledger.get_str(&DataKey::Symbol) {
        Some(s) => s,
        None => default_symbol,
    };
    let decimals = ledger.get_u32_or(&DataKey::Decimals, default_decimals);
    TokenMetadata { name, symbol, decimals }
}

} // verus!

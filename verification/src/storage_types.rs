use vstd::prelude::*;

verus! {

/// An account, identified by its strkey (the `G...`/`C...` text form).
///
/// Two addresses are the same account exactly when their strkeys are equal.
pub struct Address {
    strkey: String,
}

impl View for Address {
    type V = Seq<char>;

    open spec fn view(&self) -> Seq<char> {
        self.strkey_view()
    }
}

impl Address {
    pub closed spec fn strkey_view(&self) -> Seq<char> {
        self.strkey@
    }

    /// Builds an address from its strkey.
    pub fn new(strkey: String) -> (r: Address)
        ensures
            r@ == strkey@,
    {
        Address { strkey }
    }

    /// The strkey naming this address.
    pub fn strkey(&self) -> (r: &String)
        ensures
            r@ == self@,
    {
        &self.strkey
    }

    /// A second handle on the same account.
    pub fn duplicate(&self) -> (r: Address)
        ensures
            r@ == self@,
    {
        Address { strkey: self.strkey.clone() }
    }

    /// Whether `self` and `other` name the same account.
    pub fn same_as(&self, other: &Address) -> (r: bool)
        ensures
            r == (self@ == other@),
    {
        self.strkey == other.strkey
    }
}

/// Every persistent storage key the contract owns.
///
/// Keeping the key set in one enum means a storage layout question only ever
/// has one answer, and the layout can be dumped as a whole when auditing.
pub enum DataKey {
    /// Address holding admin authority.
    Admin,
    /// Ledger on which `initialize` ran.
    InitializedAtLedger,
    /// Token name reported by `name()`.
    Name,
    /// Token symbol reported by `symbol()`.
    Symbol,
    /// Token precision reported by `decimals()`.
    Decimals,
    /// Number of tokens in circulation.
    TotalSupply,
    /// Hard supply cap. Unset or 0 means supply is uncapped.
    MaxSupply,
    /// Balance held by a single account.
    BalanceOf(Address),
    /// Set while the whole contract is paused.
    Paused,
    /// Set while a single account is frozen.
    Frozen(Address),
}

/// The mathematical form of a [`DataKey`]: accounts are named by their strkeys.
pub enum KeyView {
    Admin,
    InitializedAtLedger,
    Name,
    Symbol,
    Decimals,
    TotalSupply,
    MaxSupply,
    BalanceOf(Seq<char>),
    Paused,
    Frozen(Seq<char>),
}

impl View for DataKey {
    type V = KeyView;

    open spec fn view(&self) -> KeyView {
        match self {
            DataKey::Admin => KeyView::Admin,
            DataKey::InitializedAtLedger => KeyView::InitializedAtLedger,
            DataKey::Name => KeyView::Name,
            DataKey::Symbol => KeyView::Symbol,
            DataKey::Decimals => KeyView::Decimals,
            DataKey::TotalSupply => KeyView::TotalSupply,
            DataKey::MaxSupply => KeyView::MaxSupply,
            DataKey::BalanceOf(a) => KeyView::BalanceOf(a@),
            DataKey::Paused => KeyView::Paused,
            DataKey::Frozen(a) => KeyView::Frozen(a@),
        }
    }
}

/// A value held under a storage key.
pub enum Val {
    Address(Address),
    U32(u32),
    I128(i128),
    Str(String),
    Bool(bool),
}

/// The mathematical form of a [`Val`].
pub enum ValView {
    Address(Seq<char>),
    U32(u32),
    I128(i128),
    Str(Seq<char>),
    Bool(bool),
}

impl View for Val {
    type V = ValView;

    open spec fn view(&self) -> ValView {
        match self {
            Val::Address(a) => ValView::Address(a@),
            Val::U32(x) => ValView::U32(*x),
            Val::I128(x) => ValView::I128(*x),
            Val::Str(s) => ValView::Str(s@),
            Val::Bool(b) => ValView::Bool(*b),
        }
    }
}

impl KeyView {
    /// The storage layout: which kind of value each key holds.
    pub open spec fn admits(self, v: ValView) -> bool {
        match self {
            KeyView::Admin => v is Address,
            KeyView::InitializedAtLedger => v is U32,
            KeyView::Decimals => v is U32,
            KeyView::Name => v is Str,
            KeyView::Symbol => v is Str,
            KeyView::TotalSupply => v is I128,
            KeyView::MaxSupply => v is I128,
            KeyView::BalanceOf(_) => v is I128,
            KeyView::Paused => v is Bool,
            KeyView::Frozen(_) => v is Bool,
        }
    }
}

impl DataKey {
    /// A copy of this key.
    pub fn duplicate(&self) -> (r: DataKey)
        ensures
            r@ == self@,
    {
        match self {
            DataKey::Admin => DataKey::Admin,
            DataKey::InitializedAtLedger => DataKey::InitializedAtLedger,
            DataKey::Name => DataKey::Name,
            DataKey::Symbol => DataKey::Symbol,
            DataKey::Decimals => DataKey::Decimals,
            DataKey::TotalSupply => DataKey::TotalSupply,
            DataKey::MaxSupply => DataKey::MaxSupply,
            DataKey::BalanceOf(a) => DataKey::BalanceOf(a.duplicate()),
            DataKey::Paused => DataKey::Paused,
            DataKey::Frozen(a) => DataKey::Frozen(a.duplicate()),
        }
    }

    /// Whether `self` and `other` name the same storage slot.
    pub fn same_as(&self, other: &DataKey) -> (r: bool)
        ensures
            r == (self@ == other@),
    {
        match (self, other) {
            (DataKey::Admin, DataKey::Admin) => true,
            (DataKey::InitializedAtLedger, DataKey::InitializedAtLedger) => true,
            (DataKey::Name, DataKey::Name) => true,
            (DataKey::Symbol, DataKey::Symbol) => true,
            (DataKey::Decimals, DataKey::Decimals) => true,
            (DataKey::TotalSupply, DataKey::TotalSupply) => true,
            (DataKey::MaxSupply, DataKey::MaxSupply) => true,
            (DataKey::BalanceOf(a), DataKey::BalanceOf(b)) => a.same_as(b),
            (DataKey::Paused, DataKey::Paused) => true,
            (DataKey::Frozen(a), DataKey::Frozen(b)) => a.same_as(b),
            _ => false,
        }
    }

    /// Whether the storage layout lets `val` be held under this key.
    pub fn admits(&self, val: &Val) -> (r: bool)
        ensures
            r == self@.admits(val@),
    {
        match self {
            DataKey::Admin => matches!(val, Val::Address(_)),
            DataKey::InitializedAtLedger => matches!(val, Val::U32(_)),
            DataKey::Decimals => matches!(val, Val::U32(_)),
            DataKey::Name => matches!(val, Val::Str(_)),
            DataKey::Symbol => matches!(val, Val::Str(_)),
            DataKey::TotalSupply => matches!(val, Val::I128(_)),
            DataKey::MaxSupply => matches!(val, Val::I128(_)),
            DataKey::BalanceOf(_) => matches!(val, Val::I128(_)),
            DataKey::Paused => matches!(val, Val::Bool(_)),
            DataKey::Frozen(_) => matches!(val, Val::Bool(_)),
        }
    }
}

impl Val {
    /// A copy of this value.
    pub fn duplicate(&self) -> (r: Val)
        ensures
            r@ == self@,
    {
        match self {
            Val::Address(a) => Val::Address(a.duplicate()),
            Val::U32(x) => Val::U32(*x),
            Val::I128(x) => Val::I128(*x),
            Val::Str(s) => Val::Str(s.clone()),
            Val::Bool(b) => Val::Bool(*b),
        }
    }
}

} // verus!

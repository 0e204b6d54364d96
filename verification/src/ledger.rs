//! The contract's persistent storage: a map from [`DataKey`] to [`Val`].
use vstd::prelude::*;
use crate::storage_types::{Address, DataKey, KeyView, Val, ValView};

verus! {

/// The map that a sequence of entries describes; a later entry for a key
/// overrides an earlier one.
pub closed spec fn entries_map(s: Seq<(DataKey, Val)>) -> Map<KeyView, ValView>
    decreases s.len(),
{
    if s.len() == 0 {
        Map::empty()
    } else {
        entries_map(s.drop_last()).insert(s.last().0@, s.last().1@)
    }
}

spec fn distinct_keys(s: Seq<(DataKey, Val)>) -> bool {
    forall|i: int, j: int| 0 <= i < j < s.len() ==> s[i].0@ != s[j].0@
}

spec fn all_admitted(s: Seq<(DataKey, Val)>) -> bool {
    forall|i: int| 0 <= i < s.len() ==> #[trigger] s[i].0@.admits(s[i].1@)
}

/// What every ledger satisfies: finitely many keys, each holding a value of
/// the kind the storage layout gives it.
pub open spec fn ledger_ok(m: Map<KeyView, ValView>) -> bool {
    &&& m.dom().finite()
    &&& forall|k: KeyView| #[trigger] m.contains_key(k) ==> k.admits(m[k])
}

/// The `i128` held under `k`, or `d` when the key is absent.
pub open spec fn i128_or(m: Map<KeyView, ValView>, k: KeyView, d: i128) -> i128 {
    if m.contains_key(k) {
        match m[k] {
            ValView::I128(x) => x,
            _ => d,
        }
    } else {
        d
    }
}

/// The `u32` held under `k`, or `d` when the key is absent.
pub open spec fn u32_or(m: Map<KeyView, ValView>, k: KeyView, d: u32) -> u32 {
    if m.contains_key(k) {
        match m[k] {
            ValView::U32(x) => x,
            _ => d,
        }
    } else {
        d
    }
}

/// The `bool` held under `k`, or `d` when the key is absent.
pub open spec fn bool_or(m: Map<KeyView, ValView>, k: KeyView, d: bool) -> bool {
    if m.contains_key(k) {
        match m[k] {
            ValView::Bool(x) => x,
            _ => d,
        }
    } else {
        d
    }
}

/// The string held under `k`, if any.
pub open spec fn str_at(m: Map<KeyView, ValView>, k: KeyView) -> Option<Seq<char>> {
    if m.contains_key(k) {
        match m[k] {
            ValView::Str(s) => Some(s),
            _ => None,
        }
    } else {
        None
    }
}

/// The address held under `k`, if any.
pub open spec fn address_at(m: Map<KeyView, ValView>, k: KeyView) -> Option<Seq<char>> {
    if m.contains_key(k) {
        match m[k] {
            ValView::Address(s) => Some(s),
            _ => None,
        }
    } else {
        None
    }
}

proof fn lemma_finite(s: Seq<(DataKey, Val)>)
    ensures
        entries_map(s).dom().finite(),
    decreases s.len(),
{
    if s.len() > 0 {
        lemma_finite(s.drop_last());
    }
}

proof fn lemma_lookup(s: Seq<(DataKey, Val)>, i: int)
    requires
        distinct_keys(s),
        0 <= i < s.len(),
    ensures
        entries_map(s).contains_key(s[i].0@),
        entries_map(s)[s[i].0@] == s[i].1@,
    decreases s.len(),
{
    if i < s.len() - 1 {
        let t = s.drop_last();
        assert(t[i] == s[i]);
        assert forall|a: int, b: int| 0 <= a < b < t.len() implies t[a].0@ != t[b].0@ by {
            assert(t[a] == s[a] && t[b] == s[b]);
        }
        lemma_lookup(t, i);
        assert(s[i].0@ != s[s.len() - 1].0@);
    }
}

proof fn lemma_absent(s: Seq<(DataKey, Val)>, k: KeyView)
    requires
        forall|i: int| 0 <= i < s.len() ==> s[i].0@ != k,
    ensures
        !entries_map(s).contains_key(k),
    decreases s.len(),
{
    if s.len() > 0 {
        let t = s.drop_last();
        assert forall|i: int| 0 <= i < t.len() implies t[i].0@ != k by {
            assert(t[i] == s[i]);
        }
        lemma_absent(t, k);
        assert(s[s.len() - 1].0@ != k);
    }
}

proof fn lemma_present(s: Seq<(DataKey, Val)>, k: KeyView) -> (i: int)
    requires
        entries_map(s).contains_key(k),
    ensures
        0 <= i < s.len(),
        s[i].0@ == k,
{
    if !(exists|i: int| 0 <= i < s.len() && s[i].0@ == k) {
        lemma_absent(s, k);
    }
    choose|i: int| 0 <= i < s.len() && s[i].0@ == k
}

proof fn lemma_drop_last_distinct(s: Seq<(DataKey, Val)>)
    requires
        distinct_keys(s),
        s.len() > 0,
    ensures
        distinct_keys(s.drop_last()),
        forall|i: int| 0 <= i < s.len() - 1 ==> s.drop_last()[i].0@ != s.last().0@,
{
    let t = s.drop_last();
    assert forall|a: int, b: int| 0 <= a < b < t.len() implies t[a].0@ != t[b].0@ by {
        assert(t[a] == s[a] && t[b] == s[b]);
    }
    assert forall|i: int| 0 <= i < s.len() - 1 implies t[i].0@ != s.last().0@ by {
        assert(t[i] == s[i]);
    }
}

proof fn lemma_update(s: Seq<(DataKey, Val)>, i: int, e: (DataKey, Val))
    requires
        distinct_keys(s),
        0 <= i < s.len(),
        e.0@ == s[i].0@,
    ensures
        entries_map(s.update(i, e)) == entries_map(s).insert(e.0@, e.1@),
    decreases s.len(),
{
    let u = s.update(i, e);
    let t = s.drop_last();
    lemma_drop_last_distinct(s);
    if i == s.len() - 1 {
        assert(u.drop_last() =~= t);
        assert(entries_map(u) =~= entries_map(s).insert(e.0@, e.1@));
    } else {
        assert(u.drop_last() =~= t.update(i, e));
        assert(t[i] == s[i]);
        lemma_update(t, i, e);
        assert(u.last() == s.last());
        assert(s.last().0@ != e.0@);
        assert(entries_map(u) =~= entries_map(s).insert(e.0@, e.1@));
    }
}

proof fn lemma_remove(s: Seq<(DataKey, Val)>, i: int)
    requires
        distinct_keys(s),
        0 <= i < s.len(),
    ensures
        entries_map(s.remove(i)) == entries_map(s).remove(s[i].0@),
    decreases s.len(),
{
    let k = s[i].0@;
    let t = s.drop_last();
    lemma_drop_last_distinct(s);
    if i == s.len() - 1 {
        assert(s.remove(i) =~= t);
        lemma_absent(t, k);
        assert(entries_map(s).remove(k) =~= entries_map(t));
    } else {
        let r = s.remove(i);
        assert(r.drop_last() =~= t.remove(i));
        assert(r.last() == s.last());
        assert(t[i] == s[i]);
        lemma_remove(t, i);
        assert(s.last().0@ != k);
        assert(entries_map(r) =~= entries_map(s).remove(k));
    }
}

proof fn lemma_len(s: Seq<(DataKey, Val)>)
    requires
        distinct_keys(s),
    ensures
        entries_map(s).dom().len() == s.len(),
    decreases s.len(),
{
    if s.len() > 0 {
        let t = s.drop_last();
        lemma_drop_last_distinct(s);
        lemma_len(t);
        lemma_finite(t);
        lemma_absent(t, s.last().0@);
    }
}

proof fn lemma_ok(s: Seq<(DataKey, Val)>)
    requires
        distinct_keys(s),
        all_admitted(s),
    ensures
        ledger_ok(entries_map(s)),
{
    lemma_finite(s);
    assert forall|k: KeyView| #[trigger] entries_map(s).contains_key(k) implies k.admits(
        entries_map(s)[k],
    ) by {
        let i = lemma_present(s, k);
        lemma_lookup(s, i);
        assert(s[i].0@.admits(s[i].1@));
    }
}

fn find_key(entries: &Vec<(DataKey, Val)>, key: &DataKey) -> (r: Option<usize>)
    ensures
        match r {
            Some(i) => i < entries@.len() && entries@[i as int].0@ == key@,
            None => forall|i: int| 0 <= i < entries@.len() ==> entries@[i].0@ != key@,
        },
{
    let mut i: usize = 0;
    while i < entries.len()
        invariant
            i <= entries@.len(),
            forall|j: int| 0 <= j < i ==> entries@[j].0@ != key@,
        decreases entries@.len() - i,
    {
        if entries[i].0.same_as(key) {
            return Some(i);
        }
        i = i + 1;
    }
    None
}

/// The persistent entries of the contract, one value per key.
pub struct Ledger {
    entries: Vec<(DataKey, Val)>,
}

impl View for Ledger {
    type V = Map<KeyView, ValView>;

    closed spec fn view(&self) -> Map<KeyView, ValView> {
        entries_map(self.entries@)
    }
}

impl Ledger {
    #[verifier::type_invariant]
    spec fn well_formed(self) -> bool {
        &&& distinct_keys(self.entries@)
        &&& all_admitted(self.entries@)
    }

    /// A ledger with no entries, as a freshly deployed contract has.
    pub fn new() -> (r: Ledger)
        ensures
            r@ == Map::<KeyView, ValView>::empty(),
            ledger_ok(r@),
    {
        let r = Ledger { entries: Vec::new() };
        proof {
            lemma_ok(r.entries@);
        }
        r
    }

    /// The ledger holds finitely many entries.
    pub proof fn lemma_view_finite(&self)
        ensures
            self@.dom().finite(),
    {
        lemma_finite(self.entries@);
    }

    /// Whether an entry is stored under `key`.
    pub fn has(&self, key: &DataKey) -> (r: bool)
        ensures
            r == self@.contains_key(key@),
            ledger_ok(self@),
    {
        proof {
            use_type_invariant(self);
            lemma_ok(self.entries@);
        }
        match find_key(&self.entries, key) {
            Some(i) => {
                proof {
                    lemma_lookup(self.entries@, i as int);
                }
                true
            },
            None => {
                proof {
                    lemma_absent(self.entries@, key@);
                }
                false
            },
        }
    }

    /// The value stored under `key`, if any.
    pub fn get(&self, key: &DataKey) -> (r: Option<&Val>)
        ensures
            match r {
                Some(v) => self@.contains_key(key@) && self@[key@] == v@,
                None => !self@.contains_key(key@),
            },
            ledger_ok(self@),
    {
        proof {
            use_type_invariant(self);
            lemma_ok(self.entries@);
        }
        match find_key(&self.entries, key) {
            Some(i) => {
                proof {
                    lemma_lookup(self.entries@, i as int);
                }
                Some(&self.entries[i].1)
            },
            None => {
                proof {
                    lemma_absent(self.entries@, key@);
                }
                None
            },
        }
    }

    /// The `i128` stored under `key`, or `default` when there is none.
    pub fn get_i128_or(&self, key: &DataKey, default: i128) -> (r: i128)
        ensures
            r == i128_or(self@, key@, default),
            ledger_ok(self@),
    {
        match self.get(key) {
            Some(Val::I128(x)) => *x,
            _ => default,
        }
    }

    /// The `u32` stored under `key`, or `default` when there is none.
    pub fn get_u32_or(&self, key: &DataKey, default: u32) -> (r: u32)
        ensures
            r == u32_or(self@, key@, default),
            ledger_ok(self@),
    {
        match self.get(key) {
            Some(Val::U32(x)) => *x,
            _ => default,
        }
    }

    /// The `bool` stored under `key`, or `default` when there is none.
    pub fn get_bool_or(&self, key: &DataKey, default: bool) -> (r: bool)
        ensures
            r == bool_or(self@, key@, default),
            ledger_ok(self@),
    {
        match self.get(key) {
            Some(Val::Bool(x)) => *x,
            _ => default,
        }
    }

    /// A copy of the string stored under `key`, if any.
    pub fn get_str(&self, key: &DataKey) -> (r: Option<String>)
        ensures
            match r {
                Some(s) => str_at(self@, key@) == Some(s@),
                None => str_at(self@, key@) is None,
            },
            ledger_ok(self@),
    {
        match self.get(key) {
            Some(Val::Str(s)) => Some(s.clone()),
            _ => None,
        }
    }

    /// A copy of the address stored under `key`, if any.
    pub fn get_address(&self, key: &DataKey) -> (r: Option<Address>)
        ensures
            match r {
                Some(a) => address_at(self@, key@) == Some(a@),
                None => address_at(self@, key@) is None,
            },
            ledger_ok(self@),
    {
        match self.get(key) {
            Some(Val::Address(a)) => Some(a.duplicate()),
            _ => None,
        }
    }

    /// The number of keys that hold an entry.
    pub fn len(&self) -> (r: usize)
        ensures
            r == self@.dom().len(),
            ledger_ok(self@),
    {
        proof {
            use_type_invariant(self);
            lemma_ok(self.entries@);
            lemma_len(self.entries@);
        }
        self.entries.len()
    }

    /// Stores `val` under `key`, replacing any earlier entry.
    pub fn set(&mut self, key: DataKey, val: Val)
        requires
            key@.admits(val@),
        ensures
            final(self)@ == old(self)@.insert(key@, val@),
            ledger_ok(final(self)@),
    {
        proof {
            use_type_invariant(&*self);
        }
        let ghost k = key@;
        let ghost v = val@;
        let ghost s = self.entries@;
        let mut entries = Vec::new();
        std::mem::swap(&mut entries, &mut self.entries);
        match find_key(&entries, &key) {
            Some(i) => {
                proof {
                    lemma_update(s, i as int, (key, val));
                }
                entries.set(i, (key, val));
                proof {
                    assert(entries@ == s.update(i as int, (key, val)));
                    assert forall|a: int, b: int| 0 <= a < b < entries@.len() implies entries@[a].0@
                        != entries@[b].0@ by {
                        assert(a != i ==> entries@[a] == s[a]);
                        assert(b != i ==> entries@[b] == s[b]);
                    }
                    assert forall|a: int| 0 <= a < entries@.len() implies #[trigger] entries@[a].0@.admits(
                        entries@[a].1@,
                    ) by {
                        assert(a != i ==> entries@[a] == s[a]);
                        assert(s[a].0@.admits(s[a].1@));
                    }
                }
            },
            None => {
                entries.push((key, val));
                proof {
                    assert(entries@.drop_last() =~= s);
                    assert forall|a: int, b: int| 0 <= a < b < entries@.len() implies entries@[a].0@
                        != entries@[b].0@ by {
                        assert(a < s.len() ==> entries@[a] == s[a]);
                        assert(b < s.len() ==> entries@[b] == s[b]);
                    }
                    assert forall|a: int| 0 <= a < entries@.len() implies #[trigger] entries@[a].0@.admits(
                        entries@[a].1@,
                    ) by {
                        assert(a < s.len() ==> entries@[a] == s[a]);
                        assert(a < s.len() ==> s[a].0@.admits(s[a].1@));
                    }
                }
            },
        }
        self.entries = entries;
        proof {
            lemma_ok(self.entries@);
        }
    }

    /// Deletes the entry under `key`, if there is one.
    pub fn remove(&mut self, key: &DataKey)
        ensures
            final(self)@ == old(self)@.remove(key@),
            ledger_ok(final(self)@),
    {
        proof {
            use_type_invariant(&*self);
        }
        let ghost s = self.entries@;
        let mut entries = Vec::new();
        std::mem::swap(&mut entries, &mut self.entries);
        match find_key(&entries, key) {
            Some(i) => {
                proof {
                    lemma_remove(s, i as int);
                }
                entries.remove(i);
                proof {
                    assert(entries@ == s.remove(i as int));
                    assert forall|a: int, b: int| 0 <= a < b < entries@.len() implies entries@[a].0@
                        != entries@[b].0@ by {
                        let a2 = if a < i { a } else { a + 1 };
                        let b2 = if b < i { b } else { b + 1 };
                        assert(entries@[a] == s[a2]);
                        assert(entries@[b] == s[b2]);
                    }
                    assert forall|a: int| 0 <= a < entries@.len() implies #[trigger] entries@[a].0@.admits(
                        entries@[a].1@,
                    ) by {
                        let a2 = if a < i { a } else { a + 1 };
                        assert(entries@[a] == s[a2]);
                        assert(s[a2].0@.admits(s[a2].1@));
                    }
                }
            },
            None => {
                proof {
                    lemma_absent(s, key@);
                    assert(entries_map(s).remove(key@) =~= entries_map(s));
                }
            },
        }
        self.entries = entries;
        proof {
            lemma_ok(self.entries@);
        }
    }

}

} // verus!

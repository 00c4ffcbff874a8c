//! A small map from account names to values, kept in insertion order.

use vstd::prelude::*;

verus! {

/// The entries of a table as a mathematical sequence: account name and value.
pub type Entries<V> = Seq<(Seq<char>, V)>;

/// No account occurs twice among the entries.
pub open spec fn distinct_accounts<V>(e: Entries<V>) -> bool {
    forall|i: int, j: int| 0 <= i < j < e.len() ==> (#[trigger] e[i]).0 != (#[trigger] e[j]).0
}

/// Some entry is for `account`.
pub open spec fn has_account<V>(e: Entries<V>, account: Seq<char>) -> bool {
    exists|i: int| 0 <= i < e.len() && (#[trigger] e[i]).0 == account
}

/// The position of an entry for `account`, where there is one.
pub open spec fn position<V>(e: Entries<V>, account: Seq<char>) -> int {
    choose|i: int| 0 <= i < e.len() && (#[trigger] e[i]).0 == account
}

/// The entries read as a map from account to value.
pub open spec fn as_map<V>(e: Entries<V>) -> Map<Seq<char>, V> {
    Map::new(|a: Seq<char>| has_account(e, a), |a: Seq<char>| e[position(e, a)].1)
}

/// The entries after `value` was stored for `account`: in place of the
/// account's earlier entry, or at the end.
pub open spec fn with_entry<V>(e: Entries<V>, account: Seq<char>, value: V) -> Entries<V> {
    if has_account(e, account) {
        e.update(position(e, account), (account, value))
    } else {
        e.push((account, value))
    }
}

/// With distinct accounts, the entry at `i` is the one its account is found at.
pub proof fn lemma_position<V>(e: Entries<V>, i: int)
    requires
        distinct_accounts(e),
        0 <= i < e.len(),
    ensures
        has_account(e, e[i].0),
        position(e, e[i].0) == i,
        as_map(e).contains_key(e[i].0),
        as_map(e)[e[i].0] == e[i].1,
{
    let a = e[i].0;
    assert(has_account(e, a));
    let p = position(e, a);
    if p < i {
        assert(e[p].0 != e[i].0);
    } else if i < p {
        assert(e[i].0 != e[p].0);
    }
}

/// Appending an entry for a new account inserts it into the map.
pub proof fn lemma_push_entry<V>(e: Entries<V>, account: Seq<char>, value: V)
    requires
        distinct_accounts(e),
        !has_account(e, account),
    ensures
        distinct_accounts(e.push((account, value))),
        as_map(e.push((account, value))) == as_map(e).insert(account, value),
{
    let f = e.push((account, value));
    assert forall|i: int, j: int| 0 <= i < j < f.len() implies (#[trigger] f[i]).0 != (
    #[trigger] f[j]).0 by {
        if j < e.len() {
            assert(f[i] == e[i] && f[j] == e[j]);
        } else {
            assert(f[i] == e[i]);
            if e[i].0 == account {
                assert(has_account(e, account));
            }
        }
    }
    assert forall|a: Seq<char>| has_account(f, a) <==> (a == account || has_account(e, a)) by {
        if has_account(f, a) {
            let i = position(f, a);
            if i < e.len() {
                assert(e[i] == f[i]);
            }
        }
        if a == account {
            assert(f[e.len() as int].0 == account);
        }
        if has_account(e, a) {
            let i = position(e, a);
            assert(f[i] == e[i]);
        }
    }
    assert forall|a: Seq<char>| has_account(f, a) implies #[trigger] as_map(f)[a] == as_map(
        e,
    ).insert(account, value)[a] by {
        if a == account {
            lemma_position(f, e.len() as int);
        } else {
            let i = position(e, a);
            assert(f[i] == e[i]);
            lemma_position(f, i);
        }
    }
    assert(as_map(f) =~= as_map(e).insert(account, value));
}

/// Replacing the value of the entry at `i` updates the map at its account.
pub proof fn lemma_update_entry<V>(e: Entries<V>, i: int, value: V)
    requires
        distinct_accounts(e),
        0 <= i < e.len(),
    ensures
        distinct_accounts(e.update(i, (e[i].0, value))),
        as_map(e.update(i, (e[i].0, value))) == as_map(e).insert(e[i].0, value),
{
    let account = e[i].0;
    let f = e.update(i, (account, value));
    assert forall|k: int| 0 <= k < e.len() implies (#[trigger] f[k]).0 == e[k].0 by {}
    assert forall|k: int, j: int| 0 <= k < j < f.len() implies (#[trigger] f[k]).0 != (
    #[trigger] f[j]).0 by {
        assert(e[k].0 != e[j].0);
    }
    assert forall|a: Seq<char>| has_account(f, a) <==> has_account(e, a) by {
        if has_account(f, a) {
            let k = position(f, a);
            assert(e[k].0 == a);
        }
        if has_account(e, a) {
            let k = position(e, a);
            assert(f[k].0 == a);
        }
    }
    lemma_position(e, i);
    assert forall|a: Seq<char>| has_account(f, a) implies #[trigger] as_map(f)[a] == as_map(
        e,
    ).insert(account, value)[a] by {
        let k = position(f, a);
        lemma_position(f, k);
        if a != account {
            assert(f[k] == e[k]);
            lemma_position(e, k);
        }
    }
    assert(as_map(f) =~= as_map(e).insert(account, value));
}

/// One entry of a table.
#[derive(Debug)]
pub struct Entry<V> {
    pub account: String,
    pub value: V,
}

/// A map from account names to values. Each account occurs once; entries
/// keep the order in which their accounts were first inserted.
#[derive(Debug)]
pub struct AccountMap<V> {
    items: Vec<Entry<V>>,
}

impl<V> AccountMap<V> {
    /// The entries in order.
    pub closed spec fn entries(&self) -> Entries<V> {
        Seq::new(self.items@.len(), |i: int| (self.items@[i].account@, self.items@[i].value))
    }

    /// The table as a map.
    pub open spec fn view(&self) -> Map<Seq<char>, V> {
        as_map(self.entries())
    }

    /// The invariant of the type: no account occurs twice.
    pub open spec fn wf(&self) -> bool {
        distinct_accounts(self.entries())
    }

    /// An empty table.
    pub fn new() -> (table: Self)
        ensures
            table.wf(),
            table.entries() == Entries::<V>::empty(),
            table@ == Map::<Seq<char>, V>::empty(),
    {
        let table = AccountMap { items: Vec::new() };
        assert(table.entries() =~= Entries::<V>::empty());
        assert(table@ =~= Map::<Seq<char>, V>::empty());
        table
    }

    /// The number of entries.
    pub fn len(&self) -> (n: usize)
        ensures
            n == self.entries().len(),
    {
        self.items.len()
    }

    /// The account of the entry at `i`.
    pub fn account_at(&self, i: usize) -> (account: &String)
        requires
            i < self.entries().len(),
        ensures
            account@ == self.entries()[i as int].0,
    {
        &self.items[i].account
    }

    /// The position of the entry for `account`, if the table holds one.
    pub fn find(&self, account: &String) -> (r: Option<usize>)
        requires
            self.wf(),
        ensures
            match r {
                Some(i) => i < self.entries().len() && self.entries()[i as int].0 == account@
                    && position(self.entries(), account@) == i,
                None => !has_account(self.entries(), account@),
            },
            r.is_some() == self@.contains_key(account@),
    {
        let mut i: usize = 0;
        while i < self.items.len()
            invariant
                self.wf(),
                0 <= i <= self.items@.len(),
                self.entries().len() == self.items@.len(),
                forall|j: int| 0 <= j < i ==> (#[trigger] self.entries()[j]).0 != account@,
            decreases self.items@.len() - i,
        {
            if self.items[i].account == *account {
                proof {
                    lemma_position(self.entries(), i as int);
                }
                return Some(i);
            }
            i += 1;
        }
        None
    }

    /// Whether the table holds an entry for `account`.
    pub fn contains(&self, account: &String) -> (r: bool)
        requires
            self.wf(),
        ensures
            r == self@.contains_key(account@),
    {
        self.find(account).is_some()
    }
}

impl<V: Copy> AccountMap<V> {
    /// The value of the entry at `i`.
    pub fn value_at(&self, i: usize) -> (value: V)
        requires
            i < self.entries().len(),
        ensures
            value == self.entries()[i as int].1,
    {
        self.items[i].value
    }

    /// The value stored for `account`, if any.
    pub fn get(&self, account: &String) -> (r: Option<V>)
        requires
            self.wf(),
        ensures
            r == if self@.contains_key(account@) {
                Some(self@[account@])
            } else {
                None
            },
    {
        match self.find(account) {
            Some(i) => {
                proof {
                    lemma_position(self.entries(), i as int);
                }
                Some(self.items[i].value)
            },
            None => None,
        }
    }

    /// Stores `value` for `account`, in place of an earlier value if there
    /// is one, and returns the earlier value.
    pub fn insert(&mut self, account: String, value: V) -> (previous: Option<V>)
        requires
            old(self).wf(),
        ensures
            final(self).wf(),
            final(self)@ == old(self)@.insert(account@, value),
            previous == if old(self)@.contains_key(account@) {
                Some(old(self)@[account@])
            } else {
                None
            },
            final(self).entries() == with_entry(old(self).entries(), account@, value),
    {
        let ghost before = self.entries();
        match self.find(&account) {
            Some(i) => {
                let previous = self.items[i].value;
                proof {
                    lemma_position(before, i as int);
                    lemma_update_entry(before, i as int, value);
                }
                self.items[i] = Entry { account, value };
                assert(self.entries() =~= before.update(i as int, (account@, value)));
                Some(previous)
            },
            None => {
                proof {
                    lemma_push_entry(before, account@, value);
                }
                self.items.push(Entry { account, value });
                assert(self.entries() =~= before.push((account@, value)));
                None
            },
        }
    }
}

impl<V: Copy> Clone for AccountMap<V> {
    fn clone(&self) -> (r: Self)
        ensures
            r.entries() == self.entries(),
    {
        let mut items: Vec<Entry<V>> = Vec::new();
        let mut i: usize = 0;
        while i < self.items.len()
            invariant
                0 <= i <= self.items@.len(),
                items@.len() == i,
                forall|j: int|
                    0 <= j < i ==> (#[trigger] items@[j]).account@ == self.items@[j].account@
                        && items@[j].value == self.items@[j].value,
            decreases self.items@.len() - i,
        {
            items.push(Entry { account: self.items[i].account.clone(), value: self.items[i].value });
            i += 1;
        }
        let r = AccountMap { items };
        assert(r.entries() =~= self.entries());
        r
    }
}

} // verus!

//! Account pools by role, and their persistence without duplicates.
use vstd::prelude::*;

verus! {

/// What a pool of accounts is reserved for.
#[derive(Debug, Clone, Copy, PartialEq, Eq, Structural)]
pub enum Role {
    Mint,
    Buy,
}

/// An account: its address and its key material.
#[derive(Debug, Clone)]
pub struct Account {
    pub address: String,
    pub secret: String,
}

/// An account as stored, tagged by role.
#[derive(Debug, Clone)]
pub struct StoredAccount {
    pub role: Role,
    pub address: String,
    pub secret: String,
}

/// A stored record as plain values: role, address, key material.
pub type RecordView = (Role, Seq<char>, Seq<char>);

pub open spec fn account_view(a: Account) -> (Seq<char>, Seq<char>) {
    (a.address@, a.secret@)
}

pub open spec fn record_view(r: StoredAccount) -> RecordView {
    (r.role, r.address@, r.secret@)
}

pub open spec fn account_views(accounts: Seq<Account>) -> Seq<(Seq<char>, Seq<char>)> {
    accounts.map_values(|a: Account| account_view(a))
}

/// Whether `store` holds a record of `role` at `address`.
pub open spec fn has_key(store: Seq<RecordView>, role: Role, address: Seq<char>) -> bool {
    exists|i: int| 0 <= i < store.len() && (#[trigger] store[i]).0 == role && store[i].1 == address
}

/// No two records share a role and an address.
pub open spec fn unique_keys(store: Seq<RecordView>) -> bool {
    forall|i: int, j: int|
        0 <= i < j < store.len() ==> !((#[trigger] store[i]).0 == (#[trigger] store[j]).0
            && store[i].1 == store[j].1)
}

/// `store` after `accounts` are persisted under `role` in order: each one is
/// appended unless a record of that role and address is already there.
pub open spec fn persisted(
    store: Seq<RecordView>,
    role: Role,
    accounts: Seq<(Seq<char>, Seq<char>)>,
) -> Seq<RecordView>
    decreases accounts.len(),
{
    if accounts.len() == 0 {
        store
    } else {
        let before = persisted(store, role, accounts.drop_last());
        let a = accounts.last();
        if has_key(before, role, a.0) {
            before
        } else {
            before.push((role, a.0, a.1))
        }
    }
}

/// Stored account records, in the order they were added.
pub struct AccountStore {
    records: Vec<StoredAccount>,
}

impl View for AccountStore {
    type V = Seq<RecordView>;

    closed spec fn view(&self) -> Seq<RecordView> {
        self.records@.map_values(|r: StoredAccount| record_view(r))
    }
}

impl AccountStore {
    pub fn new() -> (r: AccountStore)
        ensures
            r@ == Seq::<RecordView>::empty(),
    {
        let r = AccountStore { records: Vec::new() };
        assert(r@ =~= Seq::<RecordView>::empty());
        r
    }

    /// Number of records.
    pub fn len(&self) -> (r: usize)
        ensures
            r == self@.len(),
    {
        self.records.len()
    }

    /// The record at `i`.
    pub fn get(&self, i: usize) -> (r: &StoredAccount)
        requires
            i < self@.len(),
        ensures
            record_view(*r) == self@[i as int],
    {
        &self.records[i]
    }

    /// Whether a record of `role` at `address` is stored.
    pub fn contains(&self, role: Role, address: &String) -> (r: bool)
        ensures
            r == has_key(self@, role, address@),
    {
        let mut i: usize = 0;
        while i < self.records.len()
            invariant
                i <= self@.len(),
                self@.len() == self.records@.len(),
                forall|j: int| 0 <= j < i ==> !((#[trigger] self@[j]).0 == role && self@[j].1 == address@),
            decreases self@.len() - i,
        {
            let rec = &self.records[i];
            assert(self@[i as int] == record_view(*rec));
            if rec.role == role && rec.address == *address {
                return true;
            }
            i = i + 1;
        }
        false
    }

    /// Stores each of `accounts` under `role` unless a record of that role
    /// and address is already there, so that repeating the call changes
    /// nothing.
    pub fn persist(&mut self, role: Role, accounts: &Vec<Account>)
        ensures
            final(self)@ == persisted(old(self)@, role, account_views(accounts@)),
            unique_keys(old(self)@) ==> unique_keys(final(self)@),
    {
        let mut i: usize = 0;
        while i < accounts.len()
            invariant
                i <= accounts@.len(),
                self@ == persisted(old(self)@, role, account_views(accounts@.take(i as int))),
                unique_keys(old(self)@) ==> unique_keys(self@),
            decreases accounts@.len() - i,
        {
            assert(account_views(accounts@.take(i + 1)).drop_last() =~= account_views(
                accounts@.take(i as int),
            ));
            assert(account_views(accounts@.take(i + 1)).last() == account_view(accounts@[i as int]));
            let a = &accounts[i];
            if !self.contains(role, &a.address) {
                let rec = StoredAccount { role, address: a.address.clone(), secret: a.secret.clone() };
                let ghost before = self@;
                self.records.push(rec);
                assert(self@ =~= before.push(record_view(rec)));
            }
            i = i + 1;
        }
        assert(accounts@.take(accounts@.len() as int) =~= accounts@);
    }
}

/// Persisting keeps what was stored and leaves every persisted account's
/// role and address present.
pub proof fn lemma_persisted_extends(
    store: Seq<RecordView>,
    role: Role,
    accounts: Seq<(Seq<char>, Seq<char>)>,
)
    ensures
        persisted(store, role, accounts).len() >= store.len(),
        forall|i: int| 0 <= i < store.len() ==> persisted(store, role, accounts)[i] == store[i],
        forall|j: int|
            0 <= j < accounts.len() ==> has_key(
                persisted(store, role, accounts),
                role,
                (#[trigger] accounts[j]).0,
            ),
    decreases accounts.len(),
{
    if accounts.len() > 0 {
        let rest = accounts.drop_last();
        lemma_persisted_extends(store, role, rest);
        let before = persisted(store, role, rest);
        let after = persisted(store, role, accounts);
        assert forall|j: int| 0 <= j < accounts.len() implies has_key(
            after,
            role,
            (#[trigger] accounts[j]).0,
        ) by {
            if j < accounts.len() - 1 {
                assert(accounts[j] == rest[j]);
                assert(has_key(before, role, rest[j].0));
                let k = choose|k: int|
                    0 <= k < before.len() && (#[trigger] before[k]).0 == role && before[k].1
                        == rest[j].0;
                assert(after[k] == before[k]);
            } else if !has_key(before, role, accounts.last().0) {
                assert(after[before.len() as int] == (role, accounts.last().0, accounts.last().1));
            }
        }
    }
}

/// Persisting accounts whose role and address are all stored already
/// changes nothing.
pub proof fn lemma_persisted_present(
    store: Seq<RecordView>,
    role: Role,
    accounts: Seq<(Seq<char>, Seq<char>)>,
)
    requires
        forall|j: int| 0 <= j < accounts.len() ==> has_key(store, role, (#[trigger] accounts[j]).0),
    ensures
        persisted(store, role, accounts) == store,
    decreases accounts.len(),
{
    if accounts.len() > 0 {
        let rest = accounts.drop_last();
        assert forall|j: int| 0 <= j < rest.len() implies has_key(store, role, (#[trigger] rest[j]).0) by {
            assert(rest[j] == accounts[j]);
        }
        lemma_persisted_present(store, role, rest);
        assert(has_key(store, role, accounts[accounts.len() - 1].0));
    }
}

/// Persisting the same accounts under the same role a second time leaves
/// the store as the first time left it, with the same number of records.
pub proof fn lemma_persist_idempotent(
    store: Seq<RecordView>,
    role: Role,
    accounts: Seq<(Seq<char>, Seq<char>)>,
)
    ensures
        persisted(persisted(store, role, accounts), role, accounts) == persisted(
            store,
            role,
            accounts,
        ),
        persisted(persisted(store, role, accounts), role, accounts).len() == persisted(
            store,
            role,
            accounts,
        ).len(),
{
    lemma_persisted_extends(store, role, accounts);
    lemma_persisted_present(persisted(store, role, accounts), role, accounts);
}

} // verus!

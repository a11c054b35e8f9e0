//! The two stores of the ledger, held in memory: transaction records by
//! transaction identifier and accounts by client identifier.
//!
//! Each store is modelled by the map from its keys to the integer model of
//! its records.

use crate::model::{AccountRecord, Balance, ClientId, Entry, TxId, TxRecord};
use std::collections::BTreeMap;
use vstd::prelude::*;
use vstd::laws_cmp::{
    obeys_cmp, obeys_cmp_ord, obeys_cmp_partial_ord, obeys_partial_cmp_spec_properties,
};
use vstd::laws_eq::obeys_eq_spec_properties;
use vstd::std_specs::btree::{increasing_seq, spec_keys_iter};
use vstd::std_specs::cmp::OrdSpec;
use vstd::std_specs::iter::IteratorSpec;

verus! {

/// Transaction records by transaction identifier.
pub struct TxStore {
    records: BTreeMap<TxId, TxRecord>,
}

impl View for TxStore {
    type V = Map<TxId, Entry>;

    closed spec fn view(&self) -> Map<TxId, Entry> {
        self.records@.map_values(|r: TxRecord| r@)
    }
}

impl TxStore {
    /// A store without records.
    pub fn new() -> (store: TxStore)
        ensures
            store@ == Map::<TxId, Entry>::empty(),
    {
        let store = TxStore { records: BTreeMap::new() };
        assert(store@ =~= Map::<TxId, Entry>::empty());
        store
    }

    /// The record kept under `id`, if there is one.
    pub fn get(&self, id: TxId) -> (record: Option<TxRecord>)
        ensures
            self@.contains_key(id) ==> record is Some && record->0@ == self@[id],
            !self@.contains_key(id) ==> record is None,
    {
        match self.records.get(&id) {
            Some(r) => Some(*r),
            None => None,
        }
    }

    /// Keeps `record` under `id`, in place of any record kept there before.
    pub fn upsert(&mut self, id: TxId, record: TxRecord)
        ensures
            final(self)@ == old(self)@.insert(id, record@),
    {
        self.records.insert(id, record);
        assert(self@ =~= old(self)@.insert(id, record@));
    }
}

/// Accounts by client identifier.
pub struct AccountStore {
    accounts: BTreeMap<ClientId, AccountRecord>,
}

impl View for AccountStore {
    type V = Map<ClientId, Balance>;

    closed spec fn view(&self) -> Map<ClientId, Balance> {
        self.accounts@.map_values(|a: AccountRecord| a@)
    }
}

impl AccountStore {
    /// A store without accounts.
    pub fn new() -> (store: AccountStore)
        ensures
            store@ == Map::<ClientId, Balance>::empty(),
    {
        let store = AccountStore { accounts: BTreeMap::new() };
        assert(store@ =~= Map::<ClientId, Balance>::empty());
        store
    }

    /// The account of `client`, if there is one.
    pub fn get(&self, client: ClientId) -> (account: Option<AccountRecord>)
        ensures
            self@.contains_key(client) ==> account is Some && account->0@ == self@[client],
            !self@.contains_key(client) ==> account is None,
    {
        match self.accounts.get(&client) {
            Some(a) => Some(*a),
            None => None,
        }
    }

    /// Keeps `account` as the account of `client`, in place of any account
    /// kept for that client before.
    pub fn upsert(&mut self, client: ClientId, account: AccountRecord)
        ensures
            final(self)@ == old(self)@.insert(client, account@),
    {
        self.accounts.insert(client, account);
        assert(self@ =~= old(self)@.insert(client, account@));
    }

    /// The clients that have an account, in increasing order.
    pub fn clients(&self) -> (clients: Vec<ClientId>)
        ensures
            forall|i: int, j: int| 0 <= i < j < clients@.len() ==> clients@[i] < clients@[j],
            forall|c: ClientId| self@.contains_key(c) <==> clients@.contains(c),
    {
        let mut out: Vec<ClientId> = Vec::new();
        for client in walk: self.accounts.keys()
            invariant
                out@.len() == walk.index(),
                forall|i: int| 0 <= i < out@.len() ==> out@[i] == *walk.seq()[i],
                walk.seq() == spec_keys_iter(&self.accounts).remaining(),
        {
            out.push(*client);
        }
        proof {
            // The keys of the map come out in increasing order, each once.
            let keys = spec_keys_iter(&self.accounts).remaining();
            assert(out@ =~= keys.unref());
            assert(obeys_cmp::<&ClientId>()) by {
                reveal(obeys_eq_spec_properties);
                reveal(obeys_partial_cmp_spec_properties);
                reveal(obeys_cmp_partial_ord);
                reveal(obeys_cmp_ord);
            }
            assert(increasing_seq(keys));
            assert forall|i: int, j: int| 0 <= i < j < out@.len() implies out@[i] < out@[j] by {
                assert(OrdSpec::cmp_spec(&keys[i], &keys[j]) is Less);
            }
        }
        out
    }

    /// Opens an empty account for `client` unless the client has one. Doing
    /// so again changes nothing.
    pub fn create_if_absent(&mut self, client: ClientId)
        ensures
            old(self)@.contains_key(client) ==> final(self)@ == old(self)@,
            !old(self)@.contains_key(client) ==> final(self)@ == old(self)@.insert(
                client,
                Balance::opening(),
            ),
    {
        if !self.accounts.contains_key(&client) {
            self.upsert(client, AccountRecord::open());
        }
    }
}

} // verus!

//! The ledger: both stores under one owner, and the engine that applies
//! events to them one at a time.

use crate::engine::{handle_event, Outcome};
use crate::model::{report_line, Account, ClientId, EngineError, Event, Tx, TxId, TxRecord};
use crate::laws::law_owner_has_account;
use crate::queue::TxQueue;
use crate::state::{
    client_limit, lemma_empty_sound, lemma_lines_gap, lemma_step_sound, lines_below, LedgerModel,
};
use crate::store::{AccountStore, TxStore};
use vstd::prelude::*;

verus! {

/// Applies one event to the two stores: reads the record under the event's
/// identifier and the account of the client it names, decides, and writes
/// both back or neither.
///
/// The stores may hold anything; where a record names an owner without an
/// account the event is refused.
pub fn apply_event(txs: &mut TxStore, accounts: &mut AccountStore, event: Event) -> (result: Result<
    (),
    EngineError,
>)
    ensures
        (LedgerModel { txs: final(txs)@, accounts: final(accounts)@ }) == (LedgerModel {
            txs: old(txs)@,
            accounts: old(accounts)@,
        }).step(event),
        result == (LedgerModel { txs: old(txs)@, accounts: old(accounts)@ }).verdict(event),
{
    let id = event.tx_id();
    let client = event.client_id();
    match handle_event(event, txs.get(id), accounts.get(client)) {
        Ok(Outcome::Applied { record, account }) => {
            txs.upsert(id, record);
            accounts.upsert(client, account);
            Ok(())
        },
        Ok(Outcome::Skipped) => Ok(()),
        Err(error) => Err(error),
    }
}

/// The two stores, as one atomic scope sees them.
struct Stores {
    txs: TxStore,
    accounts: AccountStore,
}

impl Stores {
    fn new() -> (stores: Stores)
        ensures
            stores@ == LedgerModel::empty(),
    {
        Stores { txs: TxStore::new(), accounts: AccountStore::new() }
    }
}

impl View for Stores {
    type V = LedgerModel;

    closed spec fn view(&self) -> LedgerModel {
        LedgerModel { txs: self.txs@, accounts: self.accounts@ }
    }
}

/// A ledger in memory. It owns the transaction store and the account store,
/// and nothing else writes to them.
pub struct Ledger {
    stores: Stores,
}

impl View for Ledger {
    type V = LedgerModel;

    closed spec fn view(&self) -> LedgerModel {
        self.stores@
    }
}

impl Ledger {
    #[verifier::type_invariant]
    spec fn inv(self) -> bool {
        self@.sound()
    }

    /// A ledger without transactions or accounts.
    pub fn new() -> (ledger: Ledger)
        ensures
            ledger@ == LedgerModel::empty(),
            ledger@.sound(),
    {
        proof {
            lemma_empty_sound();
        }
        Ledger { stores: Stores::new() }
    }

    /// Applies one event, as [`apply_event`] does to the stores of this
    /// ledger. In a ledger no event is refused for want of an account.
    pub fn apply(&mut self, event: Event) -> (result: Result<(), EngineError>)
        ensures
            final(self)@ == old(self)@.step(event),
            result == old(self)@.verdict(event),
            result != Err::<(), EngineError>(EngineError::MissingAccount),
            final(self)@.sound(),
    {
        proof {
            use_type_invariant(&*self);
            lemma_empty_sound();
            lemma_step_sound(self@, event);
            law_owner_has_account(self@, event);
        }
        // The stores leave the ledger for the time of the scope, so that no
        // state between the two writes is ever the ledger's.
        let mut scope = Stores::new();
        std::mem::swap(&mut self.stores, &mut scope);
        let result = apply_event(&mut scope.txs, &mut scope.accounts, event);
        std::mem::swap(&mut self.stores, &mut scope);
        result
    }

    /// Applies one row of the feed: reads it as an event and applies the
    /// event. A row that cannot be read changes nothing.
    pub fn handle_tx(&mut self, tx: Tx) -> (result: Result<(), EngineError>)
        ensures
            final(self)@ == old(self)@.handle(tx@).0,
            result == old(self)@.handle(tx@).1,
            final(self)@.sound(),
    {
        match tx.to_event() {
            Ok(event) => self.apply(event),
            Err(error) => {
                proof {
                    use_type_invariant(&*self);
                }
                Err(error)
            },
        }
    }

    /// Applies the rows of `queue`, oldest first, until the queue is empty or
    /// a row fails. The failed row has left the queue; the rows behind it
    /// stay.
    pub fn process(&mut self, queue: &mut TxQueue) -> (result: Result<(), EngineError>)
        ensures
            final(self)@ == old(self)@.process(old(queue)@).state,
            final(queue)@ == old(self)@.process(old(queue)@).left,
            result == old(self)@.process(old(queue)@).result,
            final(self)@.sound(),
    {
        proof {
            use_type_invariant(&*self);
        }
        loop
            invariant
                self@.process(queue@) == old(self)@.process(old(queue)@),
                self@.sound(),
            decreases queue@.len(),
        {
            match queue.pop() {
                Some(tx) => {
                    if let Err(error) = self.handle_tx(tx) {
                        return Err(error);
                    }
                },
                None => {
                    return Ok(());
                },
            }
        }
    }

    /// The record kept under the transaction identifier `id`, if there is one.
    /// The ledger that is read is sound, as every ledger is at all times.
    pub fn transaction(&self, id: TxId) -> (record: Option<TxRecord>)
        ensures
            self@.txs.contains_key(id) ==> record is Some && record->0@ == self@.txs[id],
            !self@.txs.contains_key(id) ==> record is None,
            self@.sound(),
    {
        proof {
            use_type_invariant(self);
        }
        self.stores.txs.get(id)
    }

    /// The report line of `client`, if the client has an account. The ledger
    /// that is read is sound, so the total of the line can always be held.
    pub fn account(&self, client: ClientId) -> (line: Option<Account>)
        ensures
            self@.accounts.contains_key(client) ==> line == Some(
                report_line(client, self@.accounts[client]),
            ),
            !self@.accounts.contains_key(client) ==> line is None,
            line matches Some(a) ==> a.total@ == a.available@ + a.held@,
            self@.sound(),
    {
        proof {
            use_type_invariant(self);
        }
        match self.stores.accounts.get(client) {
            Some(record) => record.report(client),
            None => None,
        }
    }

    /// The report: one line for every client that ever had an account opened,
    /// in increasing order of client identifier, each with its total.
    pub fn accounts(&self) -> (lines: Vec<Account>)
        ensures
            lines@ == self@.report(),
            forall|i: int|
                0 <= i < lines@.len() ==> (#[trigger] lines@[i]).total@ == lines@[i].available@
                    + lines@[i].held@,
            self@.sound(),
    {
        proof {
            use_type_invariant(self);
        }
        let clients = self.stores.accounts.clients();
        let mut lines: Vec<Account> = Vec::new();
        let mut at: usize = 0;
        proof {
            let first: nat = if clients@.len() > 0 {
                clients@[0] as nat
            } else {
                client_limit()
            };
            assert forall|c: ClientId| 0 <= c < first implies !self@.accounts.contains_key(c) by {
                if self@.accounts.contains_key(c) {
                    assert(clients@.contains(c));
                    let j = choose|j: int| 0 <= j < clients@.len() && clients@[j] == c;
                    assert(clients@[0] <= clients@[j]);
                }
            }
            lemma_lines_gap(self@.accounts, 0, first);
        }
        while at < clients.len()
            invariant
                at <= clients@.len(),
                forall|i: int, j: int| 0 <= i < j < clients@.len() ==> clients@[i] < clients@[j],
                forall|c: ClientId| self@.accounts.contains_key(c) <==> clients@.contains(c),
                lines@ == lines_below(
                    self@.accounts,
                    if at < clients@.len() {
                        clients@[at as int] as nat
                    } else {
                        client_limit()
                    },
                ),
                forall|i: int|
                    0 <= i < lines@.len() ==> (#[trigger] lines@[i]).total@
                        == lines@[i].available@ + lines@[i].held@,
            decreases clients@.len() - at,
        {
            let client = clients[at];
            assert(clients@.contains(client));
            match self.account(client) {
                Some(line) => {
                    lines.push(line);
                },
                None => {
                    assert(false);
                },
            }
            proof {
                let next: nat = if at + 1 < clients@.len() {
                    clients@[at + 1] as nat
                } else {
                    client_limit()
                };
                assert forall|c: ClientId| client < c < next implies !self@.accounts.contains_key(
                    c,
                ) by {
                    if self@.accounts.contains_key(c) {
                        assert(clients@.contains(c));
                        let j = choose|j: int| 0 <= j < clients@.len() && clients@[j] == c;
                        if j < at {
                            assert(clients@[j] < clients@[at as int]);
                        } else if j > at + 1 {
                            assert(clients@[at + 1] < clients@[j]);
                        }
                    }
                }
                assert(lines@ == lines_below(self@.accounts, (client + 1) as nat));
                lemma_lines_gap(self@.accounts, (client + 1) as nat, next);
            }
            at += 1;
        }
        lines
    }
}

} // verus!

//! The state of a ledger as the rules see it, the step one event makes, and
//! what holds of every state that events can reach.

use crate::engine::{transition, Transition};
use crate::model::{
    report_line, Account, Balance, ClientId, EngineError, Entry, Event, TxId, TxRow, TxStatus,
    TxType,
};
use crate::money::fits;
use vstd::prelude::*;

verus! {

/// Every recorded transaction and every account, in ten-thousandths.
pub struct LedgerModel {
    pub txs: Map<TxId, Entry>,
    pub accounts: Map<ClientId, Balance>,
}

/// How the processing of a queue ended: the state it reached, the rows it
/// left in the queue, and the error that stopped it, if one did.
pub struct Processed {
    pub state: LedgerModel,
    pub left: Seq<TxRow>,
    pub result: Result<(), EngineError>,
}

/// One more than the largest transaction identifier.
pub open spec fn id_limit() -> nat {
    0x1_0000_0000
}

/// One more than the largest client identifier.
pub open spec fn client_limit() -> nat {
    0x1_0000
}

/// The report lines of the accounts of the clients below `limit`, in
/// increasing order of client identifier.
pub open spec fn lines_below(accounts: Map<ClientId, Balance>, limit: nat) -> Seq<Account>
    decreases limit,
{
    if limit == 0 {
        Seq::empty()
    } else {
        let before = lines_below(accounts, (limit - 1) as nat);
        let client = (limit - 1) as ClientId;
        if limit <= client_limit() && accounts.contains_key(client) {
            before.push(report_line(client, accounts[client]))
        } else {
            before
        }
    }
}

/// A quantity of an account that the transaction records of its client add
/// up to.
pub enum Measure {
    /// The held funds: what the client has in dispute.
    Held,
    /// The total funds: what the client has deposited, less what it has
    /// withdrawn and what has been charged back.
    Total,
}

/// What one record adds to a measure of its owner.
///
/// To the held funds a record adds its amount while it is in dispute. To the
/// total funds a deposit adds its amount until it is charged back; a
/// withdrawal takes its amount away, and takes it away once more when it is
/// charged back.
pub open spec fn weight(measure: Measure, entry: Entry) -> int {
    match measure {
        Measure::Held => if entry.status is InDispute {
            entry.amount
        } else {
            0
        },
        Measure::Total => match (entry.kind, entry.status) {
            (TxType::Deposit, TxStatus::Chargeback) => 0,
            (TxType::Deposit, _) => entry.amount,
            (TxType::Withdrawal, TxStatus::Chargeback) => -2 * entry.amount,
            (TxType::Withdrawal, _) => -entry.amount,
            _ => 0,
        },
    }
}

/// What the record kept under `id`, if any, adds to a measure of `client`:
/// its weight if the client owns it, and nothing otherwise.
pub open spec fn share_at(
    txs: Map<TxId, Entry>,
    client: ClientId,
    measure: Measure,
    id: TxId,
) -> int {
    if txs.contains_key(id) && txs[id].owner == client {
        weight(measure, txs[id])
    } else {
        0
    }
}

/// What the records with an identifier below `limit` add to a measure of
/// `client`.
pub open spec fn share_below(
    txs: Map<TxId, Entry>,
    client: ClientId,
    measure: Measure,
    limit: nat,
) -> int
    decreases limit,
{
    if limit == 0 {
        0
    } else {
        share_below(txs, client, measure, (limit - 1) as nat) + if limit <= id_limit() {
            share_at(txs, client, measure, (limit - 1) as TxId)
        } else {
            0
        }
    }
}

/// What all records add to a measure of `client`.
pub open spec fn share(txs: Map<TxId, Entry>, client: ClientId, measure: Measure) -> int {
    share_below(txs, client, measure, id_limit())
}

/// Whether a record of `client` has been charged back.
pub open spec fn charged_back(txs: Map<TxId, Entry>, client: ClientId) -> bool {
    exists|id: TxId| #[trigger]
        txs.contains_key(id) && txs[id].owner == client && txs[id].status is Chargeback
}

impl LedgerModel {
    /// The ledger before any event.
    pub open spec fn empty() -> LedgerModel {
        LedgerModel { txs: Map::empty(), accounts: Map::empty() }
    }

    /// What the rules decide for `event` in this state.
    pub open spec fn decision(self, event: Event) -> Transition {
        transition(event, self.txs.get(event.id()), self.accounts.get(event.client()))
    }

    /// The state after `event`: both records replaced if the event is
    /// accepted, and the same state if it is skipped or refused.
    pub open spec fn step(self, event: Event) -> LedgerModel {
        match self.decision(event) {
            Transition::Commit { entry, balance } => LedgerModel {
                txs: self.txs.insert(event.id(), entry),
                accounts: self.accounts.insert(event.client(), balance),
            },
            _ => self,
        }
    }

    /// What the engine reports for `event` in this state: an error if the
    /// event is refused, and success whether it is accepted or skipped.
    pub open spec fn verdict(self, event: Event) -> Result<(), EngineError> {
        match self.decision(event) {
            Transition::Refuse(error) => Err(error),
            _ => Ok(()),
        }
    }

    /// The state after a run of events, each applied in turn. A refused event
    /// changes nothing and the run goes on.
    pub open spec fn run(self, events: Seq<Event>) -> LedgerModel
        decreases events.len(),
    {
        if events.len() == 0 {
            self
        } else {
            self.run(events.drop_last()).step(events.last())
        }
    }

    /// The state after one row of the feed, and what the engine reports for
    /// it. A row that cannot be read as an event changes nothing and is
    /// reported as an error.
    pub open spec fn handle(self, tx: TxRow) -> (LedgerModel, Result<(), EngineError>) {
        match tx.event() {
            Ok(event) => (self.step(event), self.verdict(event)),
            Err(error) => (self, Err(error)),
        }
    }

    /// What processing a queue of rows comes to: the rows are handled oldest
    /// first, and the first error ends the processing with the rows behind
    /// the failed one still in the queue.
    pub open spec fn process(self, rows: Seq<TxRow>) -> Processed
        decreases rows.len(),
    {
        if rows.len() == 0 {
            Processed { state: self, left: rows, result: Ok(()) }
        } else {
            let (next, result) = self.handle(rows[0]);
            match result {
                Ok(_) => next.process(rows.drop_first()),
                Err(error) => Processed {
                    state: next,
                    left: rows.drop_first(),
                    result: Err(error),
                },
            }
        }
    }

    /// The report on this ledger: one line for every account, in increasing
    /// order of client identifier.
    pub open spec fn report(self) -> Seq<Account> {
        lines_below(self.accounts, client_limit())
    }

    /// A measure of the account of `client`, zero for a client without an
    /// account.
    pub open spec fn measured(self, client: ClientId, measure: Measure) -> int {
        if self.accounts.contains_key(client) {
            match measure {
                Measure::Held => self.accounts[client].held,
                Measure::Total => self.accounts[client].total(),
            }
        } else {
            0
        }
    }

    /// Whether `client` has an account and it is locked.
    pub open spec fn locked(self, client: ClientId) -> bool {
        self.accounts.contains_key(client) && self.accounts[client].locked
    }

    /// What holds of every ledger that events have built from the empty one.
    ///
    /// Only deposits and withdrawals are recorded, each with an amount that
    /// is not negative and can be held, and the owner of every record has an
    /// account. The funds of every account, with their total, can be held.
    /// And the accounts say nothing that the records do not: the held and
    /// the total funds of every client are what its records add up to, and a
    /// client is locked exactly if one of its records has been charged back.
    pub open spec fn sound(self) -> bool {
        &&& forall|id: TxId| #[trigger]
            self.txs.contains_key(id) ==> {
                &&& self.txs[id].kind is Deposit || self.txs[id].kind is Withdrawal
                &&& 0 <= self.txs[id].amount
                &&& fits(self.txs[id].amount)
                &&& self.accounts.contains_key(self.txs[id].owner)
            }
        &&& forall|client: ClientId| #[trigger]
            self.accounts.contains_key(client) ==> self.accounts[client].representable()
        &&& forall|client: ClientId, measure: Measure| #[trigger]
            self.measured(client, measure) == share(self.txs, client, measure)
        &&& forall|client: ClientId| #[trigger]
            self.locked(client) == charged_back(self.txs, client)
    }
}

/// Where no client from `from` up to `to` has an account, the report lines
/// below `to` are those below `from`.
pub proof fn lemma_lines_gap(accounts: Map<ClientId, Balance>, from: nat, to: nat)
    requires
        from <= to <= client_limit(),
        forall|client: ClientId| from <= client < to ==> !accounts.contains_key(client),
    ensures
        lines_below(accounts, to) == lines_below(accounts, from),
    decreases to,
{
    if from < to {
        lemma_lines_gap(accounts, from, (to - 1) as nat);
    }
}

/// Writing one record changes a measure of a client by what the new record
/// adds less what the old one added, and only once the limit is past the
/// record's identifier.
pub proof fn lemma_share_below_insert(
    txs: Map<TxId, Entry>,
    client: ClientId,
    measure: Measure,
    id: TxId,
    entry: Entry,
    limit: nat,
)
    requires
        limit <= id_limit(),
    ensures
        share_below(txs.insert(id, entry), client, measure, limit) == share_below(
            txs,
            client,
            measure,
            limit,
        ) + if id < limit {
            share_at(txs.insert(id, entry), client, measure, id) - share_at(
                txs,
                client,
                measure,
                id,
            )
        } else {
            0
        },
    decreases limit,
{
    if limit > 0 {
        lemma_share_below_insert(txs, client, measure, id, entry, (limit - 1) as nat);
        let last = (limit - 1) as TxId;
        if last != id {
            assert(share_at(txs.insert(id, entry), client, measure, last) == share_at(
                txs,
                client,
                measure,
                last,
            ));
        }
    }
}

/// Where no recorded amount is negative, the amounts that a client has in
/// dispute below a limit are not negative together, and are at least what
/// any one record below the limit adds.
pub proof fn lemma_held_share_bounds(txs: Map<TxId, Entry>, client: ClientId, id: TxId, limit: nat)
    requires
        limit <= id_limit(),
        forall|k: TxId| #[trigger] txs.contains_key(k) ==> 0 <= txs[k].amount,
    ensures
        0 <= share_below(txs, client, Measure::Held, limit),
        id < limit ==> share_at(txs, client, Measure::Held, id) <= share_below(
            txs,
            client,
            Measure::Held,
            limit,
        ),
    decreases limit,
{
    if limit > 0 {
        lemma_held_share_bounds(txs, client, id, (limit - 1) as nat);
        let last = (limit - 1) as TxId;
        assert(0 <= share_at(txs, client, Measure::Held, last));
    }
}

/// Without records every measure is zero.
pub proof fn lemma_share_below_empty(client: ClientId, measure: Measure, limit: nat)
    ensures
        share_below(Map::<TxId, Entry>::empty(), client, measure, limit) == 0,
    decreases limit,
{
    if limit > 0 {
        lemma_share_below_empty(client, measure, (limit - 1) as nat);
    }
}

/// The empty ledger is sound.
pub proof fn lemma_empty_sound()
    ensures
        LedgerModel::empty().sound(),
{
    let m = LedgerModel::empty();
    assert forall|client: ClientId, measure: Measure| #[trigger]
        m.measured(client, measure) == share(m.txs, client, measure) by {
        lemma_share_below_empty(client, measure, id_limit());
    }
}

/// An event takes a sound ledger to a sound ledger.
pub proof fn lemma_step_sound(m: LedgerModel, event: Event)
    requires
        m.sound(),
    ensures
        m.step(event).sound(),
{
    let after = m.step(event);
    match m.decision(event) {
        Transition::Commit { entry, balance } => {
            let id = event.id();
            assert forall|client: ClientId, measure: Measure| #[trigger]
                after.measured(client, measure) == share(after.txs, client, measure) by {
                lemma_share_below_insert(m.txs, client, measure, id, entry, id_limit());
                assert(m.measured(client, measure) == share(m.txs, client, measure));
            }
            assert forall|k: TxId| #[trigger] after.txs.contains_key(k) implies {
                &&& after.txs[k].kind is Deposit || after.txs[k].kind is Withdrawal
                &&& 0 <= after.txs[k].amount
                &&& fits(after.txs[k].amount)
                &&& after.accounts.contains_key(after.txs[k].owner)
            } by {
                if k != id {
                    assert(m.txs.contains_key(k));
                }
            }
            assert forall|client: ClientId| #[trigger]
                after.locked(client) == charged_back(after.txs, client) by {
                assert(m.locked(client) == charged_back(m.txs, client));
                if charged_back(m.txs, client) {
                    let k = choose|k: TxId| #[trigger]
                        m.txs.contains_key(k) && m.txs[k].owner == client
                            && m.txs[k].status is Chargeback;
                    assert(after.txs.contains_key(k) && after.txs[k].owner == client
                        && after.txs[k].status is Chargeback);
                }
                if charged_back(after.txs, client) {
                    let k = choose|k: TxId| #[trigger]
                        after.txs.contains_key(k) && after.txs[k].owner == client
                            && after.txs[k].status is Chargeback;
                    if k != id {
                        assert(m.txs.contains_key(k) && m.txs[k].owner == client
                            && m.txs[k].status is Chargeback);
                    }
                }
                if entry.status is Chargeback && entry.owner == client {
                    assert(after.txs.contains_key(id) && after.txs[id].owner == client
                        && after.txs[id].status is Chargeback);
                }
            }
        },
        _ => {},
    }
}

} // verus!

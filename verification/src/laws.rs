//! What holds of the rules for every state and every event.

use crate::engine::{matches_record, Transition};
use crate::model::{Balance, ClientId, EngineError, Entry, Event, TxId, TxRow, TxStatus};
use crate::money::Money;
use crate::state::{
    charged_back, id_limit, lemma_empty_sound, lemma_held_share_bounds, lemma_step_sound, share,
    share_at, LedgerModel, Measure,
};
use vstd::prelude::*;

verus! {

/// Every ledger that a run of events builds from the empty ledger is sound,
/// whatever the events are.
pub proof fn law_run_is_sound(events: Seq<Event>)
    ensures
        LedgerModel::empty().run(events).sound(),
    decreases events.len(),
{
    if events.len() == 0 {
        lemma_empty_sound();
    } else {
        law_run_is_sound(events.drop_last());
        lemma_step_sound(LedgerModel::empty().run(events.drop_last()), events.last());
    }
}

/// Processing any queue of rows takes a sound ledger to a sound ledger,
/// whether or not a row stopped the processing.
pub proof fn law_process_is_sound(m: LedgerModel, rows: Seq<TxRow>)
    requires
        m.sound(),
    ensures
        m.process(rows).state.sound(),
    decreases rows.len(),
{
    if rows.len() > 0 {
        match rows[0].event() {
            Ok(event) => {
                lemma_step_sound(m, event);
            },
            Err(_) => {},
        }
        let (next, result) = m.handle(rows[0]);
        if result is Ok {
            law_process_is_sound(next, rows.drop_first());
        }
    }
}

/// After any event on a sound ledger, the total of every account is its
/// available funds plus its held funds, and all three can be held exactly.
pub proof fn law_total_is_available_plus_held(m: LedgerModel, event: Event, client: ClientId)
    requires
        m.sound(),
        m.step(event).accounts.contains_key(client),
    ensures
        m.step(event).accounts[client].total() == m.step(event).accounts[client].available
            + m.step(event).accounts[client].held,
        m.step(event).accounts[client].representable(),
{
    lemma_step_sound(m, event);
}

/// In a sound ledger the accounts follow from the records: the held funds of
/// a client are the amounts it has in dispute, its total funds are its
/// deposits that were not charged back less its withdrawals, with a
/// charged-back withdrawal taken away twice, and the client is locked exactly
/// if one of its records was charged back.
pub proof fn law_accounts_follow_records(m: LedgerModel, client: ClientId)
    requires
        m.sound(),
        m.accounts.contains_key(client),
    ensures
        m.accounts[client].held == share(m.txs, client, Measure::Held),
        m.accounts[client].total() == share(m.txs, client, Measure::Total),
        m.accounts[client].locked == charged_back(m.txs, client),
{
    assert(m.measured(client, Measure::Held) == share(m.txs, client, Measure::Held));
    assert(m.measured(client, Measure::Total) == share(m.txs, client, Measure::Total));
    assert(m.locked(client) == charged_back(m.txs, client));
}

/// In a sound ledger no event is refused for want of an account: the owner
/// of every record has one.
pub proof fn law_owner_has_account(m: LedgerModel, event: Event)
    requires
        m.sound(),
    ensures
        m.verdict(event) != Err::<(), EngineError>(EngineError::MissingAccount),
{
    if m.txs.contains_key(event.id()) {
        assert(m.accounts.contains_key(m.txs[event.id()].owner));
    }
}

/// In a sound ledger no account holds a negative amount.
pub proof fn law_held_is_not_negative(m: LedgerModel, client: ClientId)
    requires
        m.sound(),
        m.accounts.contains_key(client),
    ensures
        0 <= m.accounts[client].held,
{
    lemma_held_share_bounds(m.txs, client, 0, id_limit());
    assert(m.measured(client, Measure::Held) == share(m.txs, client, Measure::Held));
}

/// Applying any event a second time changes nothing: the state after two
/// applications is the state after one. In particular a deposit or a
/// withdrawal is never applied twice.
pub proof fn law_replay_changes_nothing(m: LedgerModel, event: Event)
    ensures
        m.step(event).step(event) == m.step(event),
{
    let once = m.step(event);
    match m.decision(event) {
        Transition::Commit { entry, balance } => {
            assert(once.txs.contains_key(event.id()));
            assert(once.decision(event) is Skip);
        },
        _ => {},
    }
}

/// A dispute, a resolution or a chargeback against an identifier that was
/// never recorded leaves both stores as they were.
pub proof fn law_unknown_record_is_skipped(m: LedgerModel, event: Event)
    requires
        !m.txs.contains_key(event.id()),
        event is Dispute || event is Resolve || event is Chargeback,
    ensures
        m.step(event) == m,
        m.verdict(event) is Ok,
{
}

/// A chargeback against a disputed record of the client is always accepted
/// in a sound ledger. It locks the account, takes exactly the disputed amount
/// out of the held funds, leaves the available funds alone and marks the
/// record as charged back.
pub proof fn law_chargeback_locks_and_releases(m: LedgerModel, id: TxId, client: ClientId)
    requires
        m.sound(),
        matches_record(m.txs.get(id), client, TxStatus::InDispute),
    ensures
        m.verdict(Event::Chargeback { id, client }) is Ok,
        m.step(Event::Chargeback { id, client }).accounts == m.accounts.insert(
            client,
            Balance {
                available: m.accounts[client].available,
                held: m.accounts[client].held - m.txs[id].amount,
                locked: true,
            },
        ),
        m.step(Event::Chargeback { id, client }).txs == m.txs.insert(
            id,
            Entry { status: TxStatus::Chargeback, ..m.txs[id] },
        ),
{
    assert(m.txs.contains_key(id));
    assert(m.accounts.contains_key(client));
    lemma_held_share_bounds(m.txs, client, id, id_limit());
    assert(m.measured(client, Measure::Held) == share(m.txs, client, Measure::Held));
    assert(share_at(m.txs, client, Measure::Held, id) == m.txs[id].amount);
}

/// A resolution against a disputed record of the client is always accepted
/// in a sound ledger. It moves exactly the disputed amount from the held to
/// the available funds, leaves the lock alone and marks the record as
/// resolved.
pub proof fn law_resolve_releases(m: LedgerModel, id: TxId, client: ClientId)
    requires
        m.sound(),
        matches_record(m.txs.get(id), client, TxStatus::InDispute),
    ensures
        m.verdict(Event::Resolve { id, client }) is Ok,
        m.step(Event::Resolve { id, client }).accounts == m.accounts.insert(
            client,
            Balance {
                available: m.accounts[client].available + m.txs[id].amount,
                held: m.accounts[client].held - m.txs[id].amount,
                locked: m.accounts[client].locked,
            },
        ),
        m.step(Event::Resolve { id, client }).txs == m.txs.insert(
            id,
            Entry { status: TxStatus::Resolved, ..m.txs[id] },
        ),
{
    assert(m.txs.contains_key(id));
    assert(m.accounts.contains_key(client));
    lemma_held_share_bounds(m.txs, client, id, id_limit());
    assert(m.measured(client, Measure::Held) == share(m.txs, client, Measure::Held));
    assert(share_at(m.txs, client, Measure::Held, id) == m.txs[id].amount);
}

/// No chargeback, accepted or not, changes the available funds of any
/// account.
pub proof fn law_chargeback_keeps_available(
    m: LedgerModel,
    id: TxId,
    client: ClientId,
    other: ClientId,
)
    requires
        m.accounts.contains_key(other),
    ensures
        m.step(Event::Chargeback { id, client }).accounts.contains_key(other),
        m.step(Event::Chargeback { id, client }).accounts[other].available
            == m.accounts[other].available,
{
}

/// A resolution undoes exactly what the matching dispute did to the
/// accounts: after an accepted dispute, the resolution of the same
/// transaction by the same client is accepted and every account is as it was
/// before the dispute. The record ends as resolved.
pub proof fn law_resolve_undoes_dispute(m: LedgerModel, id: TxId, client: ClientId)
    requires
        m.sound(),
        m.decision(Event::Dispute { id, client }) is Commit,
    ensures
        m.step(Event::Dispute { id, client }).verdict(Event::Resolve { id, client }) is Ok,
        m.step(Event::Dispute { id, client }).step(Event::Resolve { id, client }).accounts
            == m.accounts,
        m.step(Event::Dispute { id, client }).step(Event::Resolve { id, client }).txs
            == m.txs.insert(id, Entry { status: TxStatus::Resolved, ..m.txs[id] }),
{
    let disputed = m.step(Event::Dispute { id, client });
    let resolved = disputed.step(Event::Resolve { id, client });
    assert(m.txs.contains_key(id));
    assert(m.accounts.contains_key(client));
    assert(disputed.txs.contains_key(id));
    assert(resolved.accounts =~= m.accounts);
    assert(resolved.txs =~= m.txs.insert(id, Entry { status: TxStatus::Resolved, ..m.txs[id] }));
}

/// A record that is resolved or charged back is final: a dispute, a
/// resolution or a chargeback against it changes nothing.
pub proof fn law_terminal_record_is_final(m: LedgerModel, event: Event)
    requires
        m.txs.contains_key(event.id()),
        m.txs[event.id()].status is Resolved || m.txs[event.id()].status is Chargeback,
        event is Dispute || event is Resolve || event is Chargeback,
    ensures
        m.step(event) == m,
        m.verdict(event) is Ok,
{
}

/// An event writes at most the record under its own identifier and the
/// account of the client it names. An accepted event always changes its
/// record; an event that is not accepted changes nothing at all. No record
/// and no account is ever removed.
pub proof fn law_step_is_local(m: LedgerModel, event: Event, id: TxId, client: ClientId)
    ensures
        id != event.id() ==> m.step(event).txs.get(id) == m.txs.get(id),
        client != event.client() ==> m.step(event).accounts.get(client) == m.accounts.get(client),
        m.txs.contains_key(id) ==> m.step(event).txs.contains_key(id),
        m.accounts.contains_key(client) ==> m.step(event).accounts.contains_key(client),
        m.decision(event) is Commit <==> m.step(event).txs != m.txs,
        !(m.decision(event) is Commit) ==> m.step(event) == m,
{
    match m.decision(event) {
        Transition::Commit { entry, balance } => {
            let after = m.step(event);
            assert(after.txs.contains_key(event.id()));
            assert(after.txs[event.id()] == entry);
        },
        _ => {},
    }
}

/// A record is created once and keeps its kind, its owner and its amount for
/// good. Its status only moves forward: from processed to disputed, and from
/// disputed to resolved or charged back.
pub proof fn law_record_moves_forward(m: LedgerModel, event: Event, id: TxId)
    requires
        m.txs.contains_key(id),
    ensures
        m.step(event).txs.contains_key(id),
        m.step(event).txs[id].kind == m.txs[id].kind,
        m.step(event).txs[id].owner == m.txs[id].owner,
        m.step(event).txs[id].amount == m.txs[id].amount,
        m.step(event).txs[id].status == m.txs[id].status || match m.txs[id].status {
            TxStatus::Processed => m.step(event).txs[id].status is InDispute,
            TxStatus::InDispute => m.step(event).txs[id].status is Resolved || m.step(
                event,
            ).txs[id].status is Chargeback,
            _ => false,
        },
{
}

/// A locked account stays locked, and only a chargeback locks an account.
pub proof fn law_lock_is_permanent(m: LedgerModel, event: Event, client: ClientId)
    requires
        m.accounts.contains_key(client),
    ensures
        m.step(event).accounts.contains_key(client),
        m.accounts[client].locked ==> m.step(event).accounts[client].locked,
        !m.accounts[client].locked && m.step(event).accounts[client].locked ==> event is Chargeback
            && event.client() == client,
{
}

/// An account is opened by the first accepted deposit that names its client
/// and by nothing else, and it opens with that deposit as its only funds.
pub proof fn law_account_opens_on_deposit(m: LedgerModel, event: Event, client: ClientId)
    requires
        !m.accounts.contains_key(client),
        m.step(event).accounts.contains_key(client),
    ensures
        event matches Event::Deposit { id, client: named, amount } && named == client
            && !m.txs.contains_key(id) && m.step(event).accounts[client] == (Balance {
            available: amount@,
            held: 0,
            locked: false,
        }),
{
}

/// A withdrawal never takes more than the available funds: after an accepted
/// withdrawal the available funds of the client are not negative.
pub proof fn law_withdrawal_is_covered(
    m: LedgerModel,
    id: TxId,
    client: ClientId,
    amount: Money,
)
    requires
        m.decision(Event::Withdrawal { id, client, amount }) is Commit,
    ensures
        m.step(Event::Withdrawal { id, client, amount }).accounts[client].available
            == m.accounts[client].available - amount@,
        m.step(Event::Withdrawal { id, client, amount }).accounts[client].available >= 0,
        !m.accounts[client].locked,
{
}

} // verus!

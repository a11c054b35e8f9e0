//! The transition rules: what one event does to the transaction record it
//! refers to and to the account of the client it names.
//!
//! The rules are stated once, over integers, by [`transition`]. Each
//! executable function takes the records as they were read from the stores
//! and returns the records to persist, and is proved to realize the rule.
//!
//! A locked account is frozen for new money movements: deposits and
//! withdrawals that name it are skipped and leave no transaction record.
//! Disputes, resolutions and chargebacks settle funds that are already in
//! flight and go through whether or not the account is locked.

use crate::model::{
    AccountRecord, Balance, ClientId, EngineError, Entry, Event, TxRecord, TxStatus, TxType,
};
use crate::money::Money;
use vstd::prelude::*;

verus! {

/// What the rules decide for one event.
pub enum Transition {
    /// The event is accepted: the transaction record and the account are both
    /// replaced by these.
    Commit { entry: Entry, balance: Balance },
    /// The event fails a business rule and is dropped; nothing changes.
    Skip,
    /// The event cannot be processed; nothing changes and the error is
    /// reported.
    Refuse(EngineError),
}

/// Accepts the new records if the new balance can be held, and refuses the
/// event otherwise.
pub open spec fn accept(entry: Entry, balance: Balance) -> Transition {
    if balance.representable() {
        Transition::Commit { entry, balance }
    } else {
        Transition::Refuse(EngineError::Overflow)
    }
}

/// The rule for a deposit of `amount` by `client`, where `entry` is the record
/// already kept under the deposit's identifier and `balance` the client's
/// account, if any.
///
/// A fresh identifier credits the amount to the available funds of the
/// client's account, which is opened on the spot if the client has none, and
/// records the deposit as processed. A reused identifier or a locked account
/// skips the event.
pub open spec fn deposit(
    client: ClientId,
    amount: int,
    entry: Option<Entry>,
    balance: Option<Balance>,
) -> Transition {
    let current = match balance {
        Some(b) => b,
        None => Balance::opening(),
    };
    if amount < 0 {
        Transition::Refuse(EngineError::NegativeAmount)
    } else if entry is Some || current.locked {
        Transition::Skip
    } else {
        accept(
            Entry { kind: TxType::Deposit, owner: client, amount, status: TxStatus::Processed },
            Balance { available: current.available + amount, ..current },
        )
    }
}

/// The rule for a withdrawal of `amount` by `client`.
///
/// A fresh identifier, an existing unlocked account and sufficient available
/// funds debit the amount and record the withdrawal as processed. Anything
/// else skips the event.
pub open spec fn withdrawal(
    client: ClientId,
    amount: int,
    entry: Option<Entry>,
    balance: Option<Balance>,
) -> Transition {
    if amount < 0 {
        Transition::Refuse(EngineError::NegativeAmount)
    } else if entry is Some {
        Transition::Skip
    } else {
        match balance {
            Some(b) if !b.locked && b.available >= amount => accept(
                Entry {
                    kind: TxType::Withdrawal,
                    owner: client,
                    amount,
                    status: TxStatus::Processed,
                },
                Balance { available: b.available - amount, ..b },
            ),
            _ => Transition::Skip,
        }
    }
}

/// Whether `entry` is a record owned by `client` in the given status.
pub open spec fn matches_record(entry: Option<Entry>, client: ClientId, status: TxStatus) -> bool {
    entry matches Some(e) && e.owner == client && e.status == status
}

/// The rule for a dispute raised by `client` against the record `entry`.
///
/// A processed record owned by the client moves its amount from available to
/// held funds and becomes disputed. Anything else skips the event.
pub open spec fn dispute(
    client: ClientId,
    entry: Option<Entry>,
    balance: Option<Balance>,
) -> Transition {
    if matches_record(entry, client, TxStatus::Processed) {
        let e = entry->0;
        match balance {
            Some(b) => accept(
                Entry { status: TxStatus::InDispute, ..e },
                Balance { available: b.available - e.amount, held: b.held + e.amount, ..b },
            ),
            None => Transition::Refuse(EngineError::MissingAccount),
        }
    } else {
        Transition::Skip
    }
}

/// The rule for the resolution of a dispute of `client` on the record `entry`.
///
/// A disputed record owned by the client moves its amount back from held to
/// available funds and becomes resolved. Anything else skips the event.
pub open spec fn resolve(
    client: ClientId,
    entry: Option<Entry>,
    balance: Option<Balance>,
) -> Transition {
    if matches_record(entry, client, TxStatus::InDispute) {
        let e = entry->0;
        match balance {
            Some(b) => accept(
                Entry { status: TxStatus::Resolved, ..e },
                Balance { available: b.available + e.amount, held: b.held - e.amount, ..b },
            ),
            None => Transition::Refuse(EngineError::MissingAccount),
        }
    } else {
        Transition::Skip
    }
}

/// The rule for a chargeback of `client` on the record `entry`.
///
/// A disputed record owned by the client takes its amount out of the held
/// funds, locks the account and becomes charged back. Anything else skips the
/// event.
pub open spec fn chargeback(
    client: ClientId,
    entry: Option<Entry>,
    balance: Option<Balance>,
) -> Transition {
    if matches_record(entry, client, TxStatus::InDispute) {
        let e = entry->0;
        match balance {
            Some(b) => accept(
                Entry { status: TxStatus::Chargeback, ..e },
                Balance { held: b.held - e.amount, locked: true, ..b },
            ),
            None => Transition::Refuse(EngineError::MissingAccount),
        }
    } else {
        Transition::Skip
    }
}

/// The rule for any event, where `entry` is the record kept under the event's
/// identifier and `balance` the account of the client the event names.
pub open spec fn transition(
    event: Event,
    entry: Option<Entry>,
    balance: Option<Balance>,
) -> Transition {
    match event {
        Event::Deposit { client, amount, .. } => deposit(client, amount@, entry, balance),
        Event::Withdrawal { client, amount, .. } => withdrawal(client, amount@, entry, balance),
        Event::Dispute { client, .. } => dispute(client, entry, balance),
        Event::Resolve { client, .. } => resolve(client, entry, balance),
        Event::Chargeback { client, .. } => chargeback(client, entry, balance),
    }
}

/// What an accepted or skipped event asks the caller to persist.
#[derive(Clone, Copy, Debug, PartialEq, Eq, Structural)]
pub enum Outcome {
    /// Store `record` under the event's transaction identifier and `account`
    /// under the event's client, both or neither.
    Applied { record: TxRecord, account: AccountRecord },
    /// Store nothing.
    Skipped,
}

/// The model of a record that may be absent.
pub open spec fn entry_of(record: Option<TxRecord>) -> Option<Entry> {
    match record {
        Some(r) => Some(r@),
        None => None,
    }
}

/// The model of an account that may be absent.
pub open spec fn balance_of(account: Option<AccountRecord>) -> Option<Balance> {
    match account {
        Some(a) => Some(a@),
        None => None,
    }
}

/// Whether `result` is exactly what the decision `rule` calls for.
pub open spec fn realizes(result: Result<Outcome, EngineError>, rule: Transition) -> bool {
    match rule {
        Transition::Commit { entry, balance } => {
            &&& result matches Ok(Outcome::Applied { record, account })
            &&& record@ == entry
            &&& account@ == balance
        },
        Transition::Skip => result == Ok::<Outcome, EngineError>(Outcome::Skipped),
        Transition::Refuse(error) => result == Err::<Outcome, EngineError>(error),
    }
}

/// Builds the account with the given funds, or reports that the total of the
/// two does not fit.
fn accepted(
    record: TxRecord,
    available: Option<Money>,
    held: Option<Money>,
    locked: bool,
) -> (result: Result<Outcome, EngineError>)
    ensures
        match (available, held) {
            (Some(a), Some(h)) => realizes(
                result,
                accept(record@, Balance { available: a@, held: h@, locked }),
            ),
            _ => result == Err::<Outcome, EngineError>(EngineError::Overflow),
        },
{
    match (available, held) {
        (Some(available), Some(held)) => {
            if available.checked_add(held).is_some() {
                Ok(Outcome::Applied { record, account: AccountRecord { available, held, locked } })
            } else {
                Err(EngineError::Overflow)
            }
        },
        _ => Err(EngineError::Overflow),
    }
}

/// Decides a deposit of `amount` by `client`, given the record already kept
/// under the deposit's identifier and the client's account, if any.
pub fn handle_deposit(
    client: ClientId,
    amount: Money,
    record: Option<TxRecord>,
    account: Option<AccountRecord>,
) -> (result: Result<Outcome, EngineError>)
    ensures
        realizes(result, deposit(client, amount@, entry_of(record), balance_of(account))),
{
    if amount.is_negative() {
        return Err(EngineError::NegativeAmount);
    }
    if record.is_some() {
        return Ok(Outcome::Skipped);
    }
    let current = match account {
        Some(a) => a,
        None => AccountRecord::open(),
    };
    if current.locked {
        return Ok(Outcome::Skipped);
    }
    accepted(
        TxRecord {
            tx_type: TxType::Deposit,
            client_id: client,
            amount,
            status: TxStatus::Processed,
        },
        current.available.checked_add(amount),
        Some(current.held),
        current.locked,
    )
}

/// Decides a withdrawal of `amount` by `client`, given the record already
/// kept under the withdrawal's identifier and the client's account, if any.
pub fn handle_withdrawal(
    client: ClientId,
    amount: Money,
    record: Option<TxRecord>,
    account: Option<AccountRecord>,
) -> (result: Result<Outcome, EngineError>)
    ensures
        realizes(result, withdrawal(client, amount@, entry_of(record), balance_of(account))),
{
    if amount.is_negative() {
        return Err(EngineError::NegativeAmount);
    }
    if record.is_some() {
        return Ok(Outcome::Skipped);
    }
    match account {
        Some(current) => {
            if current.locked || !current.available.at_least(&amount) {
                return Ok(Outcome::Skipped);
            }
            accepted(
                TxRecord {
                    tx_type: TxType::Withdrawal,
                    client_id: client,
                    amount,
                    status: TxStatus::Processed,
                },
                current.available.checked_sub(amount),
                Some(current.held),
                current.locked,
            )
        },
        None => Ok(Outcome::Skipped),
    }
}

/// The record, if it is owned by `client` and in the given status.
fn matching(record: Option<TxRecord>, client: ClientId, status: TxStatus) -> (found: Option<
    TxRecord,
>)
    ensures
        matches_record(entry_of(record), client, status) ==> found == record && found is Some,
        !matches_record(entry_of(record), client, status) ==> found is None,
{
    match record {
        Some(r) => {
            if r.client_id == client && r.status == status {
                Some(r)
            } else {
                None
            }
        },
        None => None,
    }
}

/// Decides a dispute raised by `client`, given the record kept under the
/// disputed identifier and the client's account, if any.
pub fn handle_dispute(
    client: ClientId,
    record: Option<TxRecord>,
    account: Option<AccountRecord>,
) -> (result: Result<Outcome, EngineError>)
    ensures
        realizes(result, dispute(client, entry_of(record), balance_of(account))),
{
    let found = match matching(record, client, TxStatus::Processed) {
        Some(r) => r,
        None => {
            return Ok(Outcome::Skipped);
        },
    };
    match account {
        Some(current) => accepted(
            TxRecord { status: TxStatus::InDispute, ..found },
            current.available.checked_sub(found.amount),
            current.held.checked_add(found.amount),
            current.locked,
        ),
        None => Err(EngineError::MissingAccount),
    }
}

/// Decides the resolution of a dispute of `client`, given the record kept
/// under the disputed identifier and the client's account, if any.
pub fn handle_resolve(
    client: ClientId,
    record: Option<TxRecord>,
    account: Option<AccountRecord>,
) -> (result: Result<Outcome, EngineError>)
    ensures
        realizes(result, resolve(client, entry_of(record), balance_of(account))),
{
    let found = match matching(record, client, TxStatus::InDispute) {
        Some(r) => r,
        None => {
            return Ok(Outcome::Skipped);
        },
    };
    match account {
        Some(current) => accepted(
            TxRecord { status: TxStatus::Resolved, ..found },
            current.available.checked_add(found.amount),
            current.held.checked_sub(found.amount),
            current.locked,
        ),
        None => Err(EngineError::MissingAccount),
    }
}

/// Decides a chargeback of `client`, given the record kept under the disputed
/// identifier and the client's account, if any.
pub fn handle_chargeback(
    client: ClientId,
    record: Option<TxRecord>,
    account: Option<AccountRecord>,
) -> (result: Result<Outcome, EngineError>)
    ensures
        realizes(result, chargeback(client, entry_of(record), balance_of(account))),
{
    let found = match matching(record, client, TxStatus::InDispute) {
        Some(r) => r,
        None => {
            return Ok(Outcome::Skipped);
        },
    };
    match account {
        Some(current) => accepted(
            TxRecord { status: TxStatus::Chargeback, ..found },
            Some(current.available),
            current.held.checked_sub(found.amount),
            true,
        ),
        None => Err(EngineError::MissingAccount),
    }
}

/// Decides any event, given the record kept under the event's identifier and
/// the account of the client the event names.
///
/// This is the whole decision for one atomic scope: the caller reads the two
/// records, calls this function, and on [`Outcome::Applied`] writes both
/// records back before it commits.
pub fn handle_event(
    event: Event,
    record: Option<TxRecord>,
    account: Option<AccountRecord>,
) -> (result: Result<Outcome, EngineError>)
    ensures
        realizes(result, transition(event, entry_of(record), balance_of(account))),
{
    match event {
        Event::Deposit { client, amount, .. } => handle_deposit(client, amount, record, account),
        Event::Withdrawal { client, amount, .. } => handle_withdrawal(
            client,
            amount,
            record,
            account,
        ),
        Event::Dispute { client, .. } => handle_dispute(client, record, account),
        Event::Resolve { client, .. } => handle_resolve(client, record, account),
        Event::Chargeback { client, .. } => handle_chargeback(client, record, account),
    }
}

} // verus!

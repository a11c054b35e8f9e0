//! The records the ledger keeps, the events it consumes, and the integer
//! models that the rules are stated over.

use crate::decimal::parsed;
use crate::money::{fits, Money};
use crate::text::str_eq;
use vstd::prelude::*;

verus! {

/// Identifies a client, and so an account.
pub type ClientId = u16;

/// Identifies a transaction. The first event that carries an identifier owns it.
pub type TxId = u32;

/// The kind of an event.
#[derive(Clone, Copy, Debug, PartialEq, Eq, Structural)]
pub enum TxType {
    Deposit,
    Withdrawal,
    Dispute,
    Resolve,
    Chargeback,
}

/// Where a recorded deposit or withdrawal stands in its life.
///
/// A record starts as `Processed`, may move to `InDispute`, and from there to
/// `Resolved` or `Chargeback`, where it stays.
#[derive(Clone, Copy, Debug, PartialEq, Eq, Structural)]
pub enum TxStatus {
    Processed,
    InDispute,
    Resolved,
    Chargeback,
}

/// Whether an account is open for business, as the account store persists
/// it. Only a chargeback blocks an account, and nothing unblocks it.
#[derive(Clone, Copy, Debug, PartialEq, Eq, Structural)]
pub enum AccountStatus {
    Active,
    Blocked,
    Inactive,
}

impl TxType {
    /// The name of the kind, as feeds and stores write it.
    pub open spec fn text(self) -> Seq<char> {
        match self {
            TxType::Deposit => "deposit"@,
            TxType::Withdrawal => "withdrawal"@,
            TxType::Dispute => "dispute"@,
            TxType::Resolve => "resolve"@,
            TxType::Chargeback => "chargeback"@,
        }
    }

    /// The kind that `text` names, if it names one.
    pub open spec fn from_text(text: Seq<char>) -> Option<TxType> {
        if text == "deposit"@ {
            Some(TxType::Deposit)
        } else if text == "withdrawal"@ {
            Some(TxType::Withdrawal)
        } else if text == "dispute"@ {
            Some(TxType::Dispute)
        } else if text == "resolve"@ {
            Some(TxType::Resolve)
        } else if text == "chargeback"@ {
            Some(TxType::Chargeback)
        } else {
            None
        }
    }

    /// The name of the kind.
    pub fn as_str(&self) -> (name: &'static str)
        ensures
            name@ == self.text(),
    {
        match self {
            TxType::Deposit => "deposit",
            TxType::Withdrawal => "withdrawal",
            TxType::Dispute => "dispute",
            TxType::Resolve => "resolve",
            TxType::Chargeback => "chargeback",
        }
    }

    /// The kind that `text` names, or `None` if it names none. Names are
    /// matched exactly, in lower case.
    pub fn parse(text: &str) -> (kind: Option<TxType>)
        ensures
            kind == TxType::from_text(text@),
    {
        if str_eq(text, "deposit") {
            Some(TxType::Deposit)
        } else if str_eq(text, "withdrawal") {
            Some(TxType::Withdrawal)
        } else if str_eq(text, "dispute") {
            Some(TxType::Dispute)
        } else if str_eq(text, "resolve") {
            Some(TxType::Resolve)
        } else if str_eq(text, "chargeback") {
            Some(TxType::Chargeback)
        } else {
            None
        }
    }

    /// Reading the name of a kind gives the kind back.
    pub proof fn law_name_round_trip(self)
        ensures
            TxType::from_text(self.text()) == Some(self),
    {
        reveal_strlit("deposit");
        reveal_strlit("withdrawal");
        reveal_strlit("dispute");
        reveal_strlit("resolve");
        reveal_strlit("chargeback");
        assert("withdrawal"@[0] == 'w');
        assert("dispute"@[0] == 'd' && "dispute"@[1] == 'i');
        assert("deposit"@[1] == 'e');
        assert("resolve"@[0] == 'r');
        assert("chargeback"@[0] == 'c');
    }
}

impl TxStatus {
    /// The name of the status, as stores write it.
    pub open spec fn text(self) -> Seq<char> {
        match self {
            TxStatus::Processed => "processed"@,
            TxStatus::InDispute => "in_dispute"@,
            TxStatus::Resolved => "resolved"@,
            TxStatus::Chargeback => "chargeback"@,
        }
    }

    /// The status that `text` names, if it names one.
    pub open spec fn from_text(text: Seq<char>) -> Option<TxStatus> {
        if text == "processed"@ {
            Some(TxStatus::Processed)
        } else if text == "in_dispute"@ {
            Some(TxStatus::InDispute)
        } else if text == "resolved"@ {
            Some(TxStatus::Resolved)
        } else if text == "chargeback"@ {
            Some(TxStatus::Chargeback)
        } else {
            None
        }
    }

    /// The name of the status.
    pub fn as_str(&self) -> (name: &'static str)
        ensures
            name@ == self.text(),
    {
        match self {
            TxStatus::Processed => "processed",
            TxStatus::InDispute => "in_dispute",
            TxStatus::Resolved => "resolved",
            TxStatus::Chargeback => "chargeback",
        }
    }

    /// The status that `text` names, or `None` if it names none.
    pub fn parse(text: &str) -> (status: Option<TxStatus>)
        ensures
            status == TxStatus::from_text(text@),
    {
        if str_eq(text, "processed") {
            Some(TxStatus::Processed)
        } else if str_eq(text, "in_dispute") {
            Some(TxStatus::InDispute)
        } else if str_eq(text, "resolved") {
            Some(TxStatus::Resolved)
        } else if str_eq(text, "chargeback") {
            Some(TxStatus::Chargeback)
        } else {
            None
        }
    }

    /// Reading the name of a status gives the status back.
    pub proof fn law_name_round_trip(self)
        ensures
            TxStatus::from_text(self.text()) == Some(self),
    {
        reveal_strlit("processed");
        reveal_strlit("in_dispute");
        reveal_strlit("resolved");
        reveal_strlit("chargeback");
        assert("processed"@[0] == 'p');
        assert("in_dispute"@[0] == 'i');
        assert("resolved"@[0] == 'r');
        assert("chargeback"@[0] == 'c');
    }
}

impl AccountStatus {
    /// The name of the status, as stores write it.
    pub open spec fn text(self) -> Seq<char> {
        match self {
            AccountStatus::Active => "active"@,
            AccountStatus::Blocked => "blocked"@,
            AccountStatus::Inactive => "inactive"@,
        }
    }

    /// The status that `text` names, if it names one.
    pub open spec fn from_text(text: Seq<char>) -> Option<AccountStatus> {
        if text == "active"@ {
            Some(AccountStatus::Active)
        } else if text == "blocked"@ {
            Some(AccountStatus::Blocked)
        } else if text == "inactive"@ {
            Some(AccountStatus::Inactive)
        } else {
            None
        }
    }

    /// The name of the status.
    pub fn as_str(&self) -> (name: &'static str)
        ensures
            name@ == self.text(),
    {
        match self {
            AccountStatus::Active => "active",
            AccountStatus::Blocked => "blocked",
            AccountStatus::Inactive => "inactive",
        }
    }

    /// The status that `text` names, or `None` if it names none.
    pub fn parse(text: &str) -> (status: Option<AccountStatus>)
        ensures
            status == AccountStatus::from_text(text@),
    {
        if str_eq(text, "active") {
            Some(AccountStatus::Active)
        } else if str_eq(text, "blocked") {
            Some(AccountStatus::Blocked)
        } else if str_eq(text, "inactive") {
            Some(AccountStatus::Inactive)
        } else {
            None
        }
    }

    /// Reading the name of a status gives the status back.
    pub proof fn law_name_round_trip(self)
        ensures
            AccountStatus::from_text(self.text()) == Some(self),
    {
        reveal_strlit("active");
        reveal_strlit("blocked");
        reveal_strlit("inactive");
        assert("active"@[0] == 'a');
        assert("blocked"@[0] == 'b');
        assert("inactive"@[0] == 'i');
    }

    /// The status under which an account with the given lock is persisted.
    pub fn of_locked(locked: bool) -> (status: AccountStatus)
        ensures
            status == if locked {
                AccountStatus::Blocked
            } else {
                AccountStatus::Active
            },
    {
        if locked {
            AccountStatus::Blocked
        } else {
            AccountStatus::Active
        }
    }

    /// Whether an account persisted under this status is locked: a blocked
    /// account is, any other is not.
    pub fn is_locked(&self) -> (locked: bool)
        ensures
            locked == (self is Blocked),
    {
        match self {
            AccountStatus::Blocked => true,
            _ => false,
        }
    }
}

/// Why an event could not be processed. A refused event changes nothing.
///
/// An event that merely fails a business rule (a reused identifier,
/// insufficient funds, no matching record) is skipped and is no error.
#[derive(Clone, Copy, Debug, PartialEq, Eq, Structural)]
pub enum EngineError {
    /// The amount of a deposit or withdrawal is not a decimal number with at
    /// most four fractional digits.
    MalformedAmount,
    /// The amount is well formed but too large to hold.
    AmountOutOfRange,
    /// The amount of a deposit or withdrawal is below zero.
    NegativeAmount,
    /// A transaction record names an owner that has no account.
    MissingAccount,
    /// The new available, held or total funds would not fit.
    Overflow,
}

/// A typed event of the feed.
#[derive(Clone, Copy, Debug, PartialEq, Eq, Structural)]
pub enum Event {
    Deposit { id: TxId, client: ClientId, amount: Money },
    Withdrawal { id: TxId, client: ClientId, amount: Money },
    Dispute { id: TxId, client: ClientId },
    Resolve { id: TxId, client: ClientId },
    Chargeback { id: TxId, client: ClientId },
}

impl Event {
    /// The transaction the event creates or refers to.
    pub open spec fn id(self) -> TxId {
        match self {
            Event::Deposit { id, .. } => id,
            Event::Withdrawal { id, .. } => id,
            Event::Dispute { id, .. } => id,
            Event::Resolve { id, .. } => id,
            Event::Chargeback { id, .. } => id,
        }
    }

    /// The client the event names.
    pub open spec fn client(self) -> ClientId {
        match self {
            Event::Deposit { client, .. } => client,
            Event::Withdrawal { client, .. } => client,
            Event::Dispute { client, .. } => client,
            Event::Resolve { client, .. } => client,
            Event::Chargeback { client, .. } => client,
        }
    }

    /// The kind of the event.
    pub open spec fn kind(self) -> TxType {
        match self {
            Event::Deposit { .. } => TxType::Deposit,
            Event::Withdrawal { .. } => TxType::Withdrawal,
            Event::Dispute { .. } => TxType::Dispute,
            Event::Resolve { .. } => TxType::Resolve,
            Event::Chargeback { .. } => TxType::Chargeback,
        }
    }

    /// The transaction the event creates or refers to.
    pub fn tx_id(&self) -> (id: TxId)
        ensures
            id == self.id(),
    {
        match self {
            Event::Deposit { id, .. } => *id,
            Event::Withdrawal { id, .. } => *id,
            Event::Dispute { id, .. } => *id,
            Event::Resolve { id, .. } => *id,
            Event::Chargeback { id, .. } => *id,
        }
    }

    /// The client the event names.
    pub fn client_id(&self) -> (client: ClientId)
        ensures
            client == self.client(),
    {
        match self {
            Event::Deposit { client, .. } => *client,
            Event::Withdrawal { client, .. } => *client,
            Event::Dispute { client, .. } => *client,
            Event::Resolve { client, .. } => *client,
            Event::Chargeback { client, .. } => *client,
        }
    }

    /// The kind of the event.
    pub fn tx_type(&self) -> (kind: TxType)
        ensures
            kind == self.kind(),
    {
        match self {
            Event::Deposit { .. } => TxType::Deposit,
            Event::Withdrawal { .. } => TxType::Withdrawal,
            Event::Dispute { .. } => TxType::Dispute,
            Event::Resolve { .. } => TxType::Resolve,
            Event::Chargeback { .. } => TxType::Chargeback,
        }
    }
}

/// One row of the feed, as it arrives: the amount is still text, and is
/// looked at only for a deposit or a withdrawal.
#[derive(Clone, Debug, PartialEq, Eq)]
pub struct Tx {
    pub id: TxId,
    pub tx_type: TxType,
    pub client_id: ClientId,
    pub amount: String,
}

/// One row of the feed as the rules see it: the amount is a sequence of
/// characters.
pub struct TxRow {
    pub id: TxId,
    pub tx_type: TxType,
    pub client_id: ClientId,
    pub amount: Seq<char>,
}

impl View for Tx {
    type V = TxRow;

    open spec fn view(&self) -> TxRow {
        TxRow {
            id: self.id,
            tx_type: self.tx_type,
            client_id: self.client_id,
            amount: self.amount@,
        }
    }
}

impl TxRow {
    /// The typed event that the row stands for. A deposit or a withdrawal
    /// needs an amount that can be read; for the other kinds whatever stands
    /// in the amount is ignored.
    pub open spec fn event(self) -> Result<Event, EngineError> {
        match self.tx_type {
            TxType::Deposit => match parsed(self.amount) {
                Ok(amount) => Ok(Event::Deposit { id: self.id, client: self.client_id, amount }),
                Err(error) => Err(error),
            },
            TxType::Withdrawal => match parsed(self.amount) {
                Ok(amount) => Ok(
                    Event::Withdrawal { id: self.id, client: self.client_id, amount },
                ),
                Err(error) => Err(error),
            },
            TxType::Dispute => Ok(Event::Dispute { id: self.id, client: self.client_id }),
            TxType::Resolve => Ok(Event::Resolve { id: self.id, client: self.client_id }),
            TxType::Chargeback => Ok(Event::Chargeback { id: self.id, client: self.client_id }),
        }
    }
}

/// The rows as the rules see them.
pub open spec fn rows_of(txs: Seq<Tx>) -> Seq<TxRow> {
    Seq::new(txs.len(), |i: int| txs[i]@)
}

impl Tx {
    /// The typed event that the row stands for.
    pub fn to_event(&self) -> (result: Result<Event, EngineError>)
        ensures
            result == self@.event(),
    {
        let id = self.id;
        let client = self.client_id;
        match self.tx_type {
            TxType::Deposit => match Money::parse(self.amount.as_str()) {
                Ok(amount) => Ok(Event::Deposit { id, client, amount }),
                Err(error) => Err(error),
            },
            TxType::Withdrawal => match Money::parse(self.amount.as_str()) {
                Ok(amount) => Ok(Event::Withdrawal { id, client, amount }),
                Err(error) => Err(error),
            },
            TxType::Dispute => Ok(Event::Dispute { id, client }),
            TxType::Resolve => Ok(Event::Resolve { id, client }),
            TxType::Chargeback => Ok(Event::Chargeback { id, client }),
        }
    }
}

/// What the rules know of one recorded transaction: its kind, its owner, its
/// amount in ten-thousandths and its status.
pub struct Entry {
    pub kind: TxType,
    pub owner: ClientId,
    pub amount: int,
    pub status: TxStatus,
}

/// What the rules know of one account, in ten-thousandths.
pub struct Balance {
    pub available: int,
    pub held: int,
    pub locked: bool,
}

impl Balance {
    /// The balance of an account that has just been opened.
    pub open spec fn opening() -> Balance {
        Balance { available: 0, held: 0, locked: false }
    }

    /// Available and held funds together.
    pub open spec fn total(self) -> int {
        self.available + self.held
    }

    /// Whether the available, held and total funds can each be held as
    /// [`Money`].
    pub open spec fn representable(self) -> bool {
        fits(self.available) && fits(self.held) && fits(self.total())
    }
}

/// A persisted deposit or withdrawal, as the transaction store keeps it under
/// the transaction's identifier.
#[derive(Clone, Copy, Debug, PartialEq, Eq, Structural)]
pub struct TxRecord {
    pub tx_type: TxType,
    pub client_id: ClientId,
    pub amount: Money,
    pub status: TxStatus,
}

impl View for TxRecord {
    type V = Entry;

    open spec fn view(&self) -> Entry {
        Entry {
            kind: self.tx_type,
            owner: self.client_id,
            amount: self.amount@,
            status: self.status,
        }
    }
}

/// A persisted account, as the account store keeps it under the client's
/// identifier.
#[derive(Clone, Copy, Debug, PartialEq, Eq, Structural)]
pub struct AccountRecord {
    pub available: Money,
    pub held: Money,
    pub locked: bool,
}

impl View for AccountRecord {
    type V = Balance;

    open spec fn view(&self) -> Balance {
        Balance { available: self.available@, held: self.held@, locked: self.locked }
    }
}

/// One line of the final report: an account with its derived total.
#[derive(Clone, Copy, Debug, PartialEq, Eq, Structural)]
pub struct Account {
    pub client_id: ClientId,
    pub available: Money,
    pub held: Money,
    pub total: Money,
    pub locked: bool,
}

/// The report line of `client` for an account with the given balance.
pub open spec fn report_line(client: ClientId, balance: Balance) -> Account {
    Account {
        client_id: client,
        available: Money { units: balance.available as i64 },
        held: Money { units: balance.held as i64 },
        total: Money { units: balance.total() as i64 },
        locked: balance.locked,
    }
}

impl AccountRecord {
    /// The account a client has before its first deposit is applied.
    pub fn open() -> (record: AccountRecord)
        ensures
            record@ == Balance::opening(),
    {
        AccountRecord { available: Money::zero(), held: Money::zero(), locked: false }
    }

    /// The report line of this account for the client that owns it, with
    /// `total = available + held` computed exactly; `None` when the total
    /// does not fit.
    pub fn report(&self, client_id: ClientId) -> (line: Option<Account>)
        ensures
            self@.representable() ==> line == Some(report_line(client_id, self@)),
            !self@.representable() ==> line is None,
            line matches Some(a) ==> a.total@ == a.available@ + a.held@,
    {
        match self.available.checked_add(self.held) {
            Some(total) => Some(
                Account {
                    client_id,
                    available: self.available,
                    held: self.held,
                    total,
                    locked: self.locked,
                },
            ),
            None => None,
        }
    }
}

} // verus!

//! From a feed to a report in one call: the feed is read, queued, applied to
//! an empty ledger, and the accounts are written out.

use crate::feed::{csv_table, read_csv, table_txs, FeedError};
use crate::ledger::Ledger;
use crate::model::{rows_of, Account, EngineError, Tx, TxRow};
use crate::queue::TxQueue;
use crate::report::{csv_text, report_rows, to_csv, ReportError};
use crate::state::LedgerModel;
use vstd::prelude::*;

verus! {

/// Why a run ended without a report.
#[derive(Clone, Copy, Debug, PartialEq, Eq, Structural)]
pub enum RunError {
    /// The feed could not be read. No event was applied.
    Feed(FeedError),
    /// An event could not be processed. The events behind it were not
    /// applied.
    Engine(EngineError),
    /// The report could not be written.
    Report(ReportError),
}

/// The report lines after the rows have been applied, oldest first, to an
/// empty ledger, or the error of the first row that could not be processed.
pub open spec fn settled(rows: Seq<TxRow>) -> Result<Seq<Account>, EngineError> {
    let processed = LedgerModel::empty().process(rows);
    match processed.result {
        Ok(_) => Ok(processed.state.report()),
        Err(error) => Err(error),
    }
}

/// What a run on a feed comes to, given the table that the feed holds, if it
/// holds one.
pub open spec fn run_of(table: Option<Seq<Seq<Seq<char>>>>) -> Result<Seq<char>, RunError> {
    match table {
        None => Err(RunError::Feed(FeedError::Unreadable)),
        Some(table) => match table_txs(table) {
            Err(error) => Err(RunError::Feed(error)),
            Ok(rows) => match settled(rows) {
                Err(error) => Err(RunError::Engine(error)),
                Ok(lines) => match csv_text(report_rows(lines)) {
                    Some(text) => Ok(text),
                    None => Err(RunError::Report(ReportError::Unwritable)),
                },
            },
        },
    }
}

/// Applies the rows, oldest first, to an empty ledger and reports on the
/// accounts. The first row that cannot be processed ends the run.
pub fn settle(txs: Vec<Tx>) -> (result: Result<Vec<Account>, EngineError>)
    ensures
        match settled(rows_of(txs@)) {
            Ok(lines) => result matches Ok(accounts) && accounts@ == lines,
            Err(error) => result == Err::<Vec<Account>, EngineError>(error),
        },
{
    let mut queue = TxQueue::new();
    let ghost all = rows_of(txs@);
    for tx in walk: txs
        invariant
            all == rows_of(walk.seq()),
            queue@ == all.take(walk.index()),
    {
        queue.push(tx);
        assert(queue@ =~= all.take(walk.index() + 1));
    }
    assert(queue@ =~= all);
    let mut ledger = Ledger::new();
    match ledger.process(&mut queue) {
        Ok(_) => Ok(ledger.accounts()),
        Err(error) => Err(error),
    }
}

/// Reads a feed from comma-separated text, applies it to an empty ledger and
/// writes the report on the accounts as comma-separated text.
pub fn run(input: &[u8]) -> (result: Result<String, RunError>)
    ensures
        match run_of(csv_table(input@)) {
            Ok(text) => result matches Ok(written) && written@ == text,
            Err(error) => result == Err::<String, RunError>(error),
        },
{
    let txs = match read_csv(input) {
        Ok(txs) => txs,
        Err(error) => {
            return Err(RunError::Feed(error));
        },
    };
    let accounts = match settle(txs) {
        Ok(accounts) => accounts,
        Err(error) => {
            return Err(RunError::Engine(error));
        },
    };
    match to_csv(&accounts) {
        Ok(text) => Ok(text),
        Err(error) => Err(RunError::Report(error)),
    }
}

} // verus!

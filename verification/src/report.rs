//! Writing the report: one row of comma-separated text for every account,
//! under a first row that names the columns.

use crate::decimal::{append_digits, digits, text_of};
use crate::model::Account;
use vstd::prelude::*;
use vstd::string::*;

verus! {

/// Why a report could not be written.
#[derive(Clone, Copy, Debug, PartialEq, Eq, Structural)]
pub enum ReportError {
    /// The table of the report could not be put into comma-separated text.
    Unwritable,
}

/// The first row of a report.
pub open spec fn header_row() -> Seq<Seq<char>> {
    seq!["client_id"@, "available"@, "held"@, "total"@, "locked"@]
}

/// How a report writes a truth value.
pub open spec fn bool_text(b: bool) -> Seq<char> {
    if b {
        "true"@
    } else {
        "false"@
    }
}

/// The row of one account: the client, then available, held and total funds
/// with four fractional digits each, then whether the account is locked.
pub open spec fn account_row(account: Account) -> Seq<Seq<char>> {
    seq![
        digits(account.client_id as nat),
        text_of(account.available@),
        text_of(account.held@),
        text_of(account.total@),
        bool_text(account.locked),
    ]
}

/// The table of a report: the first row and one row for each account, in
/// the order given. A report without accounts is empty and has no first row
/// either.
pub open spec fn report_rows(accounts: Seq<Account>) -> Seq<Seq<Seq<char>>> {
    if accounts.len() == 0 {
        Seq::empty()
    } else {
        seq![header_row()] + Seq::new(accounts.len(), |i: int| account_row(accounts[i]))
    }
}

/// The first row of a report.
fn header() -> (row: Vec<String>)
    ensures
        row.deep_view() == header_row(),
{
    let mut row: Vec<String> = Vec::new();
    row.push(String::from_str("client_id"));
    row.push(String::from_str("available"));
    row.push(String::from_str("held"));
    row.push(String::from_str("total"));
    row.push(String::from_str("locked"));
    assert(row.deep_view() =~= header_row());
    row
}

/// The row of one account.
fn row_of(account: &Account) -> (row: Vec<String>)
    ensures
        row.deep_view() == account_row(*account),
{
    let mut client = String::new();
    append_digits(&mut client, account.client_id as u64);
    assert(client@ =~= digits(account.client_id as nat));
    let locked = if account.locked {
        String::from_str("true")
    } else {
        String::from_str("false")
    };
    let mut row: Vec<String> = Vec::new();
    row.push(client);
    row.push(account.available.to_text());
    row.push(account.held.to_text());
    row.push(account.total.to_text());
    row.push(locked);
    assert(row.deep_view() =~= account_row(*account));
    row
}

/// The table of a report on the given accounts.
pub fn report_table(accounts: &Vec<Account>) -> (table: Vec<Vec<String>>)
    ensures
        table.deep_view() == report_rows(accounts@),
{
    let mut table: Vec<Vec<String>> = Vec::new();
    if accounts.len() == 0 {
        assert(table.deep_view() =~= report_rows(accounts@));
        return table;
    }
    table.push(header());
    let mut at: usize = 0;
    while at < accounts.len()
        invariant
            at <= accounts@.len(),
            table@.len() == at + 1,
            table@[0].deep_view() == header_row(),
            forall|i: int|
                0 <= i < at ==> (#[trigger] table@[i + 1]).deep_view() == account_row(
                    accounts@[i],
                ),
        decreases accounts@.len() - at,
    {
        table.push(row_of(&accounts[at]));
        at += 1;
    }
    assert(table.deep_view() =~= report_rows(accounts@)) by {
        assert forall|i: int| 0 <= i < table@.len() implies table.deep_view()[i]
            == report_rows(accounts@)[i] by {
            if i > 0 {
                assert(table@[(i - 1) + 1].deep_view() == account_row(accounts@[i - 1]));
            }
        }
    }
    table
}

/// The comma-separated text that the `csv` crate writes for `table`, one
/// record for each row; `None` where it reports an error. The crate decides
/// where quotes go and how rows end.
pub uninterp spec fn csv_text(table: Seq<Seq<Seq<char>>>) -> Option<Seq<char>>;

/// Writes each row of `table` with `csv::Writer::write_record` to a writer
/// made by `csv::Writer::from_writer` over a buffer in memory, takes the
/// buffer back with `Writer::into_inner` and reads it as UTF-8. Nothing is
/// claimed of the outcome but that it is the one named [`csv_text`]: the same
/// table gives the same text or the same failure.
#[verifier::external_body]
fn csv_write(table: &Vec<Vec<String>>) -> (text: Option<String>)
    ensures
        match text {
            Some(written) => csv_text(table.deep_view()) == Some(written@),
            None => csv_text(table.deep_view()) is None,
        },
{
    let mut writer = csv::Writer::from_writer(Vec::new());
    for row in table {
        writer.write_record(row).ok()?;
    }
    let bytes = writer.into_inner().ok()?;
    String::from_utf8(bytes).ok()
}

/// Writes the report on the given accounts as comma-separated text.
pub fn to_csv(accounts: &Vec<Account>) -> (result: Result<String, ReportError>)
    ensures
        match csv_text(report_rows(accounts@)) {
            Some(text) => result matches Ok(written) && written@ == text,
            None => result == Err::<String, ReportError>(ReportError::Unwritable),
        },
{
    let table = report_table(accounts);
    match csv_write(&table) {
        Some(text) => Ok(text),
        None => Err(ReportError::Unwritable),
    }
}

} // verus!

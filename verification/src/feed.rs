//! Reading the feed: comma-separated text whose first row names the
//! columns `type`, `client`, `tx` and `amount`, in any order and possibly
//! among others, and whose other rows each stand for one event.
//!
//! A feed that cannot be read is refused as a whole, at its first fault.

use crate::decimal::{all_digits, is_digit, mirrors, number, scan_digits};
use crate::model::{rows_of, ClientId, Tx, TxId, TxRow, TxType};
use crate::text::{lemma_first_index, str_eq};
use vstd::prelude::*;
use vstd::string::*;
use vstd::utf8::*;

verus! {

/// A column that every feed must have.
#[derive(Clone, Copy, Debug, PartialEq, Eq, Structural)]
pub enum Column {
    Type,
    Client,
    Tx,
    Amount,
}

impl Column {
    /// The name of the column in the first row of a feed.
    pub open spec fn text(self) -> Seq<char> {
        match self {
            Column::Type => "type"@,
            Column::Client => "client"@,
            Column::Tx => "tx"@,
            Column::Amount => "amount"@,
        }
    }

    /// The name of the column in the first row of a feed.
    pub fn as_str(&self) -> (name: &'static str)
        ensures
            name@ == self.text(),
    {
        match self {
            Column::Type => "type",
            Column::Client => "client",
            Column::Tx => "tx",
            Column::Amount => "amount",
        }
    }
}

/// Why a feed could not be read.
#[derive(Clone, Copy, Debug, PartialEq, Eq, Structural)]
pub enum FeedError {
    /// The text is not a table of comma-separated rows.
    Unreadable,
    /// The first row does not name this column.
    MissingColumn(Column),
    /// The row with this index (the first row has index zero) has no field
    /// in this column, or one that cannot be read.
    InvalidField { row: usize, column: Column },
}

/// Where each column stands in the rows of a feed.
#[derive(Clone, Copy, Debug, PartialEq, Eq, Structural)]
pub struct Layout {
    pub kind: usize,
    pub client: usize,
    pub tx: usize,
    pub amount: usize,
}

/// The identifier that `text` writes: a run of one or more digits that stands
/// for a number up to `max`. Nothing else is an identifier.
pub open spec fn identifier(text: Seq<char>, max: int) -> Option<int> {
    if text.len() > 0 && all_digits(text) && number(text) <= max {
        Some(number(text))
    } else {
        None
    }
}

/// Where the first row puts `column`: at the first field that holds the
/// column's name.
pub open spec fn column_index(header: Seq<Seq<char>>, column: Column) -> Option<int> {
    header.index_of_first(column.text())
}

/// Where the first row puts the four columns, or the first of them, in the
/// order type, client, tx, amount, that it does not name.
pub open spec fn layout_of(header: Seq<Seq<char>>) -> Result<Layout, FeedError> {
    match (
        column_index(header, Column::Type),
        column_index(header, Column::Client),
        column_index(header, Column::Tx),
        column_index(header, Column::Amount),
    ) {
        (None, _, _, _) => Err(FeedError::MissingColumn(Column::Type)),
        (_, None, _, _) => Err(FeedError::MissingColumn(Column::Client)),
        (_, _, None, _) => Err(FeedError::MissingColumn(Column::Tx)),
        (_, _, _, None) => Err(FeedError::MissingColumn(Column::Amount)),
        (Some(kind), Some(client), Some(tx), Some(amount)) => Ok(
            Layout {
                kind: kind as usize,
                client: client as usize,
                tx: tx as usize,
                amount: amount as usize,
            },
        ),
    }
}

/// The field of `row` at `at`, if the row is that long.
pub open spec fn cell(row: Seq<Seq<char>>, at: usize) -> Option<Seq<char>> {
    if at < row.len() {
        Some(row[at as int])
    } else {
        None
    }
}

/// The kind that the row names, if it names one.
pub open spec fn row_kind(layout: Layout, row: Seq<Seq<char>>) -> Option<TxType> {
    match cell(row, layout.kind) {
        Some(text) => TxType::from_text(text),
        None => None,
    }
}

/// The client that the row names, if it names one.
pub open spec fn row_client(layout: Layout, row: Seq<Seq<char>>) -> Option<int> {
    match cell(row, layout.client) {
        Some(text) => identifier(text, u16::MAX as int),
        None => None,
    }
}

/// The transaction that the row names, if it names one.
pub open spec fn row_tx_id(layout: Layout, row: Seq<Seq<char>>) -> Option<int> {
    match cell(row, layout.tx) {
        Some(text) => identifier(text, u32::MAX as int),
        None => None,
    }
}

/// What the row with index `index` stands for, or the first of its fields,
/// in the order type, client, tx, amount, that is missing or cannot be read.
/// The amount is taken as it stands, whatever it holds.
pub open spec fn row_tx(layout: Layout, row: Seq<Seq<char>>, index: usize) -> Result<
    TxRow,
    FeedError,
> {
    if row_kind(layout, row) is None {
        Err(FeedError::InvalidField { row: index, column: Column::Type })
    } else if row_client(layout, row) is None {
        Err(FeedError::InvalidField { row: index, column: Column::Client })
    } else if row_tx_id(layout, row) is None {
        Err(FeedError::InvalidField { row: index, column: Column::Tx })
    } else if cell(row, layout.amount) is None {
        Err(FeedError::InvalidField { row: index, column: Column::Amount })
    } else {
        Ok(
            TxRow {
                id: row_tx_id(layout, row)->0 as TxId,
                tx_type: row_kind(layout, row)->0,
                client_id: row_client(layout, row)->0 as ClientId,
                amount: cell(row, layout.amount)->0,
            },
        )
    }
}

/// What the rows of `table` from the second up to, but not including, the
/// row with index `upto` stand for, or the fault of the first row among them
/// that has one.
pub open spec fn data_txs(layout: Layout, table: Seq<Seq<Seq<char>>>, upto: int) -> Result<
    Seq<TxRow>,
    FeedError,
>
    decreases upto,
{
    if upto <= 1 {
        Ok(Seq::empty())
    } else {
        match data_txs(layout, table, upto - 1) {
            Ok(rows) => match row_tx(layout, table[upto - 1], (upto - 1) as usize) {
                Ok(row) => Ok(rows.push(row)),
                Err(error) => Err(error),
            },
            Err(error) => Err(error),
        }
    }
}

/// What a table stands for: nothing if it is empty, and else what its rows
/// after the first stand for under the layout that the first row gives.
pub open spec fn table_txs(table: Seq<Seq<Seq<char>>>) -> Result<Seq<TxRow>, FeedError> {
    if table.len() == 0 {
        Ok(Seq::empty())
    } else {
        match layout_of(table[0]) {
            Ok(layout) => data_txs(layout, table, table.len() as int),
            Err(error) => Err(error),
        }
    }
}

/// Whether `result` is exactly what `expected` calls for.
pub open spec fn reads_as(
    result: Result<Vec<Tx>, FeedError>,
    expected: Result<Seq<TxRow>, FeedError>,
) -> bool {
    match expected {
        Ok(rows) => result matches Ok(txs) && rows_of(txs@) == rows,
        Err(error) => result == Err::<Vec<Tx>, FeedError>(error),
    }
}

/// The identifier that `text` writes, if it writes one up to `max`.
pub fn parse_identifier(text: &str, max: u32) -> (id: Option<u32>)
    ensures
        match identifier(text@, max as int) {
            Some(n) => id == Some(n as u32) && 0 <= n <= max,
            None => id is None,
        },
{
    let ghost chars = text@;
    if !text.is_ascii() {
        proof {
            if all_digits(chars) {
                assert forall|i: int| 0 <= i < chars.len() implies '\0' <= #[trigger] chars[i]
                    <= '\u{7f}' by {
                    assert(is_digit(chars[i]));
                }
            }
        }
        return None;
    }
    let bytes = text.as_bytes();
    proof {
        is_ascii_chars_encode_utf8(chars);
        assert(mirrors(bytes@, chars));
    }
    let (stop, read) = scan_digits(bytes, Ghost(chars), 0);
    proof {
        if stop == bytes@.len() {
            assert(chars.subrange(0, stop as int) =~= chars);
        } else {
            if all_digits(chars) {
                assert(is_digit(chars[stop as int]));
            }
        }
    }
    if stop == 0 || stop < bytes.len() {
        return None;
    }
    match read {
        Some(n) => {
            if n <= max as u64 {
                Some(n as u32)
            } else {
                None
            }
        },
        None => None,
    }
}

/// Where the first row puts `column`, if it names it.
fn find_column(header: &Vec<String>, column: Column) -> (at: Option<usize>)
    ensures
        match column_index(header.deep_view(), column) {
            Some(index) => at == Some(index as usize) && 0 <= index < header@.len(),
            None => at is None,
        },
{
    let name = column.as_str();
    let mut at: usize = 0;
    while at < header.len()
        invariant
            at <= header@.len(),
            name@ == column.text(),
            forall|j: int| 0 <= j < at ==> header.deep_view()[j] != column.text(),
        decreases header@.len() - at,
    {
        if str_eq(header[at].as_str(), name) {
            proof {
                assert(header.deep_view()[at as int] == header@[at as int]@);
                lemma_first_index(header.deep_view(), column.text(), at as int);
            }
            return Some(at);
        }
        assert(header.deep_view()[at as int] == header@[at as int]@);
        at += 1;
    }
    proof {
        lemma_first_index(header.deep_view(), column.text(), at as int);
    }
    None
}

/// Where the first row of a feed puts the four columns.
pub fn read_layout(header: &Vec<String>) -> (result: Result<Layout, FeedError>)
    ensures
        result == layout_of(header.deep_view()),
{
    let kind = match find_column(header, Column::Type) {
        Some(at) => at,
        None => {
            return Err(FeedError::MissingColumn(Column::Type));
        },
    };
    let client = match find_column(header, Column::Client) {
        Some(at) => at,
        None => {
            return Err(FeedError::MissingColumn(Column::Client));
        },
    };
    let tx = match find_column(header, Column::Tx) {
        Some(at) => at,
        None => {
            return Err(FeedError::MissingColumn(Column::Tx));
        },
    };
    let amount = match find_column(header, Column::Amount) {
        Some(at) => at,
        None => {
            return Err(FeedError::MissingColumn(Column::Amount));
        },
    };
    Ok(Layout { kind, client, tx, amount })
}

/// The field of `row` at `at`, if the row is that long.
fn field(row: &Vec<String>, at: usize) -> (text: Option<&str>)
    ensures
        match cell(row.deep_view(), at) {
            Some(chars) => text is Some && text->0@ == chars,
            None => text is None,
        },
{
    if at < row.len() {
        assert(row.deep_view()[at as int] == row@[at as int]@);
        Some(row[at].as_str())
    } else {
        None
    }
}

/// Reads the row with index `index` under the given layout.
pub fn read_row(layout: &Layout, row: &Vec<String>, index: usize) -> (result: Result<Tx, FeedError>)
    ensures
        match row_tx(*layout, row.deep_view(), index) {
            Ok(expected) => result matches Ok(tx) && tx@ == expected,
            Err(error) => result == Err::<Tx, FeedError>(error),
        },
{
    let kind = match field(row, layout.kind) {
        Some(text) => TxType::parse(text),
        None => None,
    };
    let tx_type = match kind {
        Some(kind) => kind,
        None => {
            return Err(FeedError::InvalidField { row: index, column: Column::Type });
        },
    };
    let client = match field(row, layout.client) {
        Some(text) => parse_identifier(text, 0xffff),
        None => None,
    };
    let client_id = match client {
        Some(client) => client as ClientId,
        None => {
            return Err(FeedError::InvalidField { row: index, column: Column::Client });
        },
    };
    let tx = match field(row, layout.tx) {
        Some(text) => parse_identifier(text, 0xffff_ffff),
        None => None,
    };
    let id = match tx {
        Some(tx) => tx,
        None => {
            return Err(FeedError::InvalidField { row: index, column: Column::Tx });
        },
    };
    let amount = match field(row, layout.amount) {
        Some(text) => text.to_owned(),
        None => {
            return Err(FeedError::InvalidField { row: index, column: Column::Amount });
        },
    };
    Ok(Tx { id, tx_type, client_id, amount })
}

/// Reads a table of fields as a feed: the first row gives the layout, every
/// other row one event.
pub fn txs_from_table(table: &Vec<Vec<String>>) -> (result: Result<Vec<Tx>, FeedError>)
    ensures
        reads_as(result, table_txs(table.deep_view())),
{
    let mut txs: Vec<Tx> = Vec::new();
    if table.len() == 0 {
        assert(rows_of(txs@) =~= Seq::<TxRow>::empty());
        return Ok(txs);
    }
    assert(table.deep_view()[0] == table@[0].deep_view());
    let layout = match read_layout(&table[0]) {
        Ok(layout) => layout,
        Err(error) => {
            return Err(error);
        },
    };
    let mut at: usize = 1;
    assert(rows_of(txs@) =~= Seq::<TxRow>::empty());
    while at < table.len()
        invariant
            1 <= at <= table@.len(),
            layout_of(table.deep_view()[0]) == Ok::<Layout, FeedError>(layout),
            data_txs(layout, table.deep_view(), at as int) == Ok::<Seq<TxRow>, FeedError>(
                rows_of(txs@),
            ),
        decreases table@.len() - at,
    {
        assert(table.deep_view()[at as int] == table@[at as int].deep_view());
        match read_row(&layout, &table[at], at) {
            Ok(tx) => {
                let ghost before = rows_of(txs@);
                txs.push(tx);
                assert(rows_of(txs@) =~= before.push(tx@));
            },
            Err(error) => {
                proof {
                    assert(data_txs(layout, table.deep_view(), at + 1) == Err::<
                        Seq<TxRow>,
                        FeedError,
                    >(error));
                    lemma_fault_stays(layout, table.deep_view(), at + 1, table@.len() as int);
                }
                return Err(error);
            },
        }
        at += 1;
    }
    Ok(txs)
}

/// Once a row has a fault, the rows behind it do not change what the table
/// stands for.
pub proof fn lemma_fault_stays(layout: Layout, table: Seq<Seq<Seq<char>>>, at: int, upto: int)
    requires
        at <= upto,
        data_txs(layout, table, at) is Err,
    ensures
        data_txs(layout, table, upto) == data_txs(layout, table, at),
    decreases upto - at,
{
    if at < upto {
        lemma_fault_stays(layout, table, at, upto - 1);
    }
}

/// The table of fields that the `csv` crate reads from `input`, with the
/// first row as a row like any other; `None` where it reports an error. The
/// crate decides what a field, a quote and a row are.
pub uninterp spec fn csv_table(input: Seq<u8>) -> Option<Seq<Seq<Seq<char>>>>;

/// The error of the `csv` crate, `csv::Error`. It is carried from the reader
/// to the place where the feed is refused, and nothing is read out of it.
#[verifier::external_type_specification]
#[verifier::external_body]
pub struct ExCsvError(csv::Error);

/// Reads `input` with a `csv::Reader` made by `csv::ReaderBuilder` with
/// headers switched off, and collects the records that `Reader::records`
/// yields, up to the first error. Nothing is claimed of the outcome but that
/// it is the one named [`csv_table`]: the same bytes give the same table or
/// the same failure.
#[verifier::external_body]
fn csv_rows(input: &[u8]) -> (rows: Result<Vec<Vec<String>>, csv::Error>)
    ensures
        match rows {
            Ok(table) => csv_table(input@) == Some(table.deep_view()),
            Err(_) => csv_table(input@) is None,
        },
{
    let mut reader = csv::ReaderBuilder::new().has_headers(false).from_reader(input);
    let mut rows = Vec::new();
    for record in reader.records() {
        rows.push(record?.iter().map(|field| field.to_string()).collect());
    }
    Ok(rows)
}

/// Reads a feed from comma-separated text.
pub fn read_csv(input: &[u8]) -> (result: Result<Vec<Tx>, FeedError>)
    ensures
        match csv_table(input@) {
            Some(table) => reads_as(result, table_txs(table)),
            None => result == Err::<Vec<Tx>, FeedError>(FeedError::Unreadable),
        },
{
    match csv_rows(input) {
        Ok(table) => txs_from_table(&table),
        Err(_) => Err(FeedError::Unreadable),
    }
}

} // verus!

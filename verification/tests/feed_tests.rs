use ledger_engine::feed::{
    parse_identifier, read_csv, read_layout, read_row, txs_from_table, Column, FeedError, Layout,
};
use ledger_engine::model::{Account, Tx, TxType};
use ledger_engine::money::Money;
use ledger_engine::report::{report_table, to_csv};
use ledger_engine::text::{bytes_eq, str_eq};

fn tx(tx_type: TxType, client_id: u16, id: u32, amount: &str) -> Tx {
    Tx { id, tx_type, client_id, amount: amount.to_string() }
}

fn strings(fields: &[&str]) -> Vec<String> {
    fields.iter().map(|f| f.to_string()).collect()
}

#[test]
fn read_csv_reads_rows_in_order() {
    let csv = "type,client,tx,amount\ndeposit,1,1,1.0\nwithdrawal,2,7,0.5\ndispute,1,1,\n";
    assert_eq!(
        read_csv(csv.as_bytes()),
        Ok(vec![
            tx(TxType::Deposit, 1, 1, "1.0"),
            tx(TxType::Withdrawal, 2, 7, "0.5"),
            tx(TxType::Dispute, 1, 1, ""),
        ])
    );
}

#[test]
fn read_csv_goes_by_the_names_in_the_first_row() {
    let csv = "note,amount,tx,type,client\nx,3.5,9,deposit,4\n\"a,b\",,10,resolve,5\n";
    assert_eq!(
        read_csv(csv.as_bytes()),
        Ok(vec![tx(TxType::Deposit, 4, 9, "3.5"), tx(TxType::Resolve, 5, 10, "")])
    );
}

#[test]
fn read_csv_takes_quoted_fields_apart() {
    let csv = "type,client,tx,amount\n\"deposit\",\"1\",\"2\",\"1,5\"\n";
    assert_eq!(read_csv(csv.as_bytes()), Ok(vec![tx(TxType::Deposit, 1, 2, "1,5")]));
}

#[test]
fn read_csv_of_nothing_is_no_rows() {
    assert_eq!(read_csv(b""), Ok(vec![]));
    assert_eq!(read_csv(b"type,client,tx,amount\n"), Ok(vec![]));
}

#[test]
fn read_csv_refuses_rows_of_unequal_length() {
    let csv = "type,client,tx,amount\ndispute,1,1\n";
    assert_eq!(read_csv(csv.as_bytes()), Err(FeedError::Unreadable));
}

#[test]
fn read_csv_refuses_text_that_is_not_utf8() {
    assert_eq!(read_csv(b"type,client,tx,amount\ndeposit,1,1,\xff\n"), Err(FeedError::Unreadable));
}

#[test]
fn read_csv_names_the_missing_column() {
    assert_eq!(
        read_csv(b"client,tx,amount\n1,1,1.0\n"),
        Err(FeedError::MissingColumn(Column::Type))
    );
    assert_eq!(
        read_csv(b"type,tx,amount\ndeposit,1,1.0\n"),
        Err(FeedError::MissingColumn(Column::Client))
    );
    assert_eq!(
        read_csv(b"type,client,amount\ndeposit,1,1.0\n"),
        Err(FeedError::MissingColumn(Column::Tx))
    );
    assert_eq!(
        read_csv(b"type,client,tx\ndeposit,1,1\n"),
        Err(FeedError::MissingColumn(Column::Amount))
    );
    assert_eq!(
        read_csv(b"type, client, tx, amount\ndeposit,1,1,1.0\n"),
        Err(FeedError::MissingColumn(Column::Client))
    );
    assert_eq!(read_csv(b"a,b\n1,2\n"), Err(FeedError::MissingColumn(Column::Type)));
}

#[test]
fn read_csv_names_the_first_bad_field() {
    let bad = |row: usize, column: Column| Err(FeedError::InvalidField { row, column });
    assert_eq!(
        read_csv(b"type,client,tx,amount\ndeposit,1,1,1.0\ntransfer,1,2,1.0\n"),
        bad(2, Column::Type)
    );
    assert_eq!(read_csv(b"type,client,tx,amount\ndeposit,65536,1,1.0\n"), bad(1, Column::Client));
    assert_eq!(read_csv(b"type,client,tx,amount\ndeposit,-1,1,1.0\n"), bad(1, Column::Client));
    assert_eq!(read_csv(b"type,client,tx,amount\ndeposit,1,4294967296,1.0\n"), bad(1, Column::Tx));
    assert_eq!(read_csv(b"type,client,tx,amount\ndeposit,1,,1.0\n"), bad(1, Column::Tx));
    assert_eq!(read_csv(b"type,client,tx,amount\nDEPOSIT,x,y,1.0\n"), bad(1, Column::Type));
    assert_eq!(read_csv(b"type,client,tx,amount\ndeposit,x,y,1.0\n"), bad(1, Column::Client));
    assert_eq!(
        read_csv(b"type,client,tx,amount\ndeposit,1,1,1.0\ndeposit,1,2,1.0\ndeposit,1,0x3,1.0\n"),
        bad(3, Column::Tx)
    );
}

#[test]
fn read_csv_leaves_the_amount_unread() {
    assert_eq!(
        read_csv(b"type,client,tx,amount\ndeposit,65535,4294967295,not a number\n"),
        Ok(vec![tx(TxType::Deposit, 65_535, 4_294_967_295, "not a number")])
    );
}

#[test]
fn txs_from_table_on_plain_rows() {
    assert_eq!(txs_from_table(&vec![]), Ok(vec![]));
    let table = vec![
        strings(&["tx", "type", "amount", "client", "type"]),
        strings(&["5", "chargeback", "", "6", "deposit"]),
    ];
    assert_eq!(txs_from_table(&table), Ok(vec![tx(TxType::Chargeback, 6, 5, "")]));
    let short = vec![strings(&["tx", "type", "amount", "client"]), strings(&["5", "chargeback", ""])];
    assert_eq!(
        txs_from_table(&short),
        Err(FeedError::InvalidField { row: 1, column: Column::Client })
    );
}

#[test]
fn read_layout_finds_the_first_field_of_each_name() {
    assert_eq!(
        read_layout(&strings(&["type", "client", "tx", "amount"])),
        Ok(Layout { kind: 0, client: 1, tx: 2, amount: 3 })
    );
    assert_eq!(
        read_layout(&strings(&["amount", "x", "tx", "amount", "client", "type", "tx"])),
        Ok(Layout { kind: 5, client: 4, tx: 2, amount: 0 })
    );
    assert_eq!(read_layout(&strings(&[])), Err(FeedError::MissingColumn(Column::Type)));
    assert_eq!(
        read_layout(&strings(&["type", "client", "Tx", "amount"])),
        Err(FeedError::MissingColumn(Column::Tx))
    );
}

#[test]
fn read_row_follows_the_layout() {
    let layout = Layout { kind: 2, client: 0, tx: 1, amount: 4 };
    assert_eq!(
        read_row(&layout, &strings(&["12", "34", "withdrawal", "skip", "7.25"]), 3),
        Ok(tx(TxType::Withdrawal, 12, 34, "7.25"))
    );
    assert_eq!(
        read_row(&layout, &strings(&["12", "34", "withdrawal", "skip"]), 3),
        Err(FeedError::InvalidField { row: 3, column: Column::Amount })
    );
    assert_eq!(
        read_row(&layout, &strings(&["12", "34"]), 8),
        Err(FeedError::InvalidField { row: 8, column: Column::Type })
    );
}

#[test]
fn parse_identifier_reads_digits_only() {
    assert_eq!(parse_identifier("0", 10), Some(0));
    assert_eq!(parse_identifier("10", 10), Some(10));
    assert_eq!(parse_identifier("11", 10), None);
    assert_eq!(parse_identifier("007", 10), Some(7));
    assert_eq!(parse_identifier("4294967295", u32::MAX), Some(u32::MAX));
    assert_eq!(parse_identifier("4294967296", u32::MAX), None);
    assert_eq!(parse_identifier("99999999999999999999999999", u32::MAX), None);
    for text in ["", "+1", "-1", " 1", "1 ", "1.0", "0x1", "one", "\u{661}"] {
        assert_eq!(parse_identifier(text, u32::MAX), None, "{:?}", text);
    }
}

#[test]
fn column_names() {
    assert_eq!(Column::Type.as_str(), "type");
    assert_eq!(Column::Client.as_str(), "client");
    assert_eq!(Column::Tx.as_str(), "tx");
    assert_eq!(Column::Amount.as_str(), "amount");
}

#[test]
fn text_comparison() {
    assert!(str_eq("", ""));
    assert!(str_eq("abc", "abc"));
    assert!(!str_eq("abc", "abd"));
    assert!(!str_eq("abc", "ab"));
    assert!(!str_eq("e\u{301}", "\u{e9}"));
    assert!(bytes_eq(b"\x00\xff", b"\x00\xff"));
    assert!(!bytes_eq(b"\x00\xff", b"\x00\xfe"));
    assert!(!bytes_eq(b"", b"\x00"));
}

fn line(client_id: u16, available: i64, held: i64, locked: bool) -> Account {
    Account {
        client_id,
        available: Money::from_units(available),
        held: Money::from_units(held),
        total: Money::from_units(available + held),
        locked,
    }
}

#[test]
fn to_csv_writes_a_header_and_one_row_for_each_account() {
    let accounts = vec![line(1, 30_000, 0, false), line(2, -5, 20_005, true)];
    assert_eq!(
        to_csv(&accounts),
        Ok("client_id,available,held,total,locked\n1,3.0000,0.0000,3.0000,false\n2,-0.0005,2.0005,2.0000,true\n"
            .to_string())
    );
}

#[test]
fn to_csv_of_no_accounts_is_empty() {
    assert_eq!(to_csv(&vec![]), Ok(String::new()));
    assert_eq!(report_table(&vec![]), Vec::<Vec<String>>::new());
}

#[test]
fn report_table_holds_the_fields_as_text() {
    assert_eq!(
        report_table(&vec![line(65_535, 1, 2, true)]),
        vec![
            strings(&["client_id", "available", "held", "total", "locked"]),
            strings(&["65535", "0.0001", "0.0002", "0.0003", "true"]),
        ]
    );
}

#[test]
fn a_report_reads_back_as_a_table() {
    let accounts = vec![line(1, 30_000, 0, false), line(2, 0, 20_000, true)];
    let text = to_csv(&accounts).unwrap();
    let mut reader = csv::ReaderBuilder::new().has_headers(false).from_reader(text.as_bytes());
    let rows: Vec<Vec<String>> = reader
        .records()
        .map(|r| r.unwrap().iter().map(|f| f.to_string()).collect())
        .collect();
    assert_eq!(rows, report_table(&accounts));
}

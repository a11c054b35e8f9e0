use ledger_engine::feed::{Column, FeedError};
use ledger_engine::model::{Account, EngineError, Tx, TxType};
use ledger_engine::money::Money;
use ledger_engine::run::{run, settle, RunError};

#[test]
fn run_goes_from_feed_to_report() {
    let csv = "type,client,tx,amount
deposit,1,1,1.0
deposit,2,2,2.0
deposit,1,3,2.0
dispute,1,1,
dispute,2,2,
resolve,2,2,
chargeback,1,1,";
    assert_eq!(
        run(csv.as_bytes()),
        Ok("client_id,available,held,total,locked\n1,2.0000,0.0000,2.0000,true\n2,2.0000,0.0000,2.0000,false\n"
            .to_string())
    );
}

#[test]
fn run_orders_the_report_by_client() {
    let csv = "tx,client,type,amount\n1,9,deposit,0.5\n2,3,deposit,1.25\n3,9,withdrawal,0.1\n";
    assert_eq!(
        run(csv.as_bytes()),
        Ok("client_id,available,held,total,locked\n3,1.2500,0.0000,1.2500,false\n9,0.4000,0.0000,0.4000,false\n"
            .to_string())
    );
}

#[test]
fn run_of_an_empty_feed_reports_nothing() {
    assert_eq!(run(b""), Ok(String::new()));
    assert_eq!(run(b"type,client,tx,amount\n"), Ok(String::new()));
    assert_eq!(run(b"type,client,tx,amount\ndispute,1,1,\nwithdrawal,1,2,1.0\n"), Ok(String::new()));
}

#[test]
fn run_stops_on_a_feed_that_cannot_be_read() {
    assert_eq!(run(b"type,client,tx,amount\ndeposit,1,1\n"), Err(RunError::Feed(FeedError::Unreadable)));
    assert_eq!(
        run(b"type,client,amount\ndeposit,1,1.0\n"),
        Err(RunError::Feed(FeedError::MissingColumn(Column::Tx)))
    );
    assert_eq!(
        run(b"type,client,tx,amount\ndeposit,1,1,1.0\nrefund,1,2,1.0\n"),
        Err(RunError::Feed(FeedError::InvalidField { row: 2, column: Column::Type }))
    );
}

#[test]
fn run_stops_on_an_event_that_cannot_be_processed() {
    assert_eq!(
        run(b"type,client,tx,amount\ndeposit,1,1,1.0\ndeposit,1,2,\n"),
        Err(RunError::Engine(EngineError::MalformedAmount))
    );
    assert_eq!(
        run(b"type,client,tx,amount\ndeposit,1,1,-1.0\n"),
        Err(RunError::Engine(EngineError::NegativeAmount))
    );
    assert_eq!(
        run(b"type,client,tx,amount\ndeposit,1,1,922337203685477.5808\n"),
        Err(RunError::Engine(EngineError::AmountOutOfRange))
    );
    assert_eq!(
        run(b"type,client,tx,amount\ndeposit,1,1,922337203685477.5807\ndeposit,1,2,0.0001\n"),
        Err(RunError::Engine(EngineError::Overflow))
    );
}

#[test]
fn settle_applies_rows_in_order() {
    let tx = |tx_type, client_id, id, amount: &str| Tx { id, tx_type, client_id, amount: amount.to_string() };
    let rows = vec![
        tx(TxType::Withdrawal, 1, 1, "1.0"),
        tx(TxType::Deposit, 1, 2, "1.0"),
        tx(TxType::Withdrawal, 1, 3, "0.25"),
    ];
    assert_eq!(
        settle(rows),
        Ok(vec![Account {
            client_id: 1,
            available: Money::from_units(7_500),
            held: Money::zero(),
            total: Money::from_units(7_500),
            locked: false,
        }])
    );
    assert_eq!(settle(vec![]), Ok(vec![]));
    assert_eq!(
        settle(vec![tx(TxType::Deposit, 1, 1, "1.0"), tx(TxType::Deposit, 1, 2, "1e3")]),
        Err(EngineError::MalformedAmount)
    );
}

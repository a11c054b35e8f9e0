use ledger_engine::model::EngineError;
use ledger_engine::money::Money;

#[test]
fn parse_reads_whole_and_fractional_units() {
    assert_eq!(Money::parse("1"), Ok(Money::from_units(10_000)));
    assert_eq!(Money::parse("1.0"), Ok(Money::from_units(10_000)));
    assert_eq!(Money::parse("2.5"), Ok(Money::from_units(25_000)));
    assert_eq!(Money::parse("0.0001"), Ok(Money::from_units(1)));
    assert_eq!(Money::parse("12.34"), Ok(Money::from_units(123_400)));
    assert_eq!(Money::parse("12.345"), Ok(Money::from_units(123_450)));
    assert_eq!(Money::parse("0007.0100"), Ok(Money::from_units(70_100)));
}

#[test]
fn parse_reads_a_minus_sign() {
    assert_eq!(Money::parse("-1.25"), Ok(Money::from_units(-12_500)));
    assert_eq!(Money::parse("-0"), Ok(Money::from_units(0)));
    assert_eq!(Money::parse("-0.0001"), Ok(Money::from_units(-1)));
}

#[test]
fn parse_refuses_what_is_no_amount() {
    for text in [
        "", "-", ".", "1.", ".5", "-.5", "+1", "1.23456", "1,5", "1.2.3", "1e3", " 1", "1 ", "abc",
        "1.-2", "--1", "1.2a", "\u{663}", "1\u{e9}",
    ] {
        assert_eq!(Money::parse(text), Err(EngineError::MalformedAmount), "{:?}", text);
    }
}

#[test]
fn parse_holds_the_limits_of_the_range() {
    assert_eq!(Money::parse("922337203685477.5807"), Ok(Money::from_units(i64::MAX)));
    assert_eq!(Money::parse("922337203685477.5808"), Err(EngineError::AmountOutOfRange));
    assert_eq!(Money::parse("-922337203685477.5808"), Ok(Money::from_units(i64::MIN)));
    assert_eq!(Money::parse("-922337203685477.5809"), Err(EngineError::AmountOutOfRange));
    assert_eq!(Money::parse("922337203685478"), Err(EngineError::AmountOutOfRange));
    assert_eq!(
        Money::parse("99999999999999999999999999999999999999999.0"),
        Err(EngineError::AmountOutOfRange)
    );
    assert_eq!(
        Money::parse("99999999999999999999999999999999999999999.00000"),
        Err(EngineError::MalformedAmount)
    );
    assert_eq!(
        Money::parse("000000000000000000000000000000000000000001.5"),
        Ok(Money::from_units(15_000))
    );
}

#[test]
fn to_text_writes_four_fractional_digits() {
    assert_eq!(Money::from_units(0).to_text(), "0.0000");
    assert_eq!(Money::from_units(12_345).to_text(), "1.2345");
    assert_eq!(Money::from_units(30_000).to_text(), "3.0000");
    assert_eq!(Money::from_units(-5).to_text(), "-0.0005");
    assert_eq!(Money::from_units(1_000_500).to_text(), "100.0500");
    assert_eq!(Money::from_units(i64::MAX).to_text(), "922337203685477.5807");
    assert_eq!(Money::from_units(i64::MIN).to_text(), "-922337203685477.5808");
}

#[test]
fn text_round_trips() {
    for units in [0, 1, -1, 9, 10, 9_999, 10_000, 10_001, -123_456_789, i64::MAX, i64::MIN] {
        let money = Money::from_units(units);
        assert_eq!(Money::parse(&money.to_text()), Ok(money));
    }
}

#[test]
fn checked_arithmetic_is_exact_or_refused() {
    let one = Money::from_units(10_000);
    let two = Money::from_units(20_000);
    assert_eq!(one.checked_add(two), Some(Money::from_units(30_000)));
    assert_eq!(one.checked_sub(two), Some(Money::from_units(-10_000)));
    assert_eq!(Money::from_units(i64::MAX).checked_add(Money::from_units(1)), None);
    assert_eq!(Money::from_units(i64::MIN).checked_sub(Money::from_units(1)), None);
    assert_eq!(
        Money::from_units(i64::MAX).checked_add(Money::from_units(0)),
        Some(Money::from_units(i64::MAX))
    );
    assert_eq!(Money::from_units(0).checked_sub(Money::from_units(i64::MIN)), None);
}

#[test]
fn repeated_addition_does_not_drift() {
    let tenth = Money::parse("0.1").unwrap();
    let mut sum = Money::zero();
    for _ in 0..10_000 {
        sum = sum.checked_add(tenth).unwrap();
    }
    assert_eq!(sum, Money::parse("1000.0").unwrap());
}

#[test]
fn comparisons_and_accessors() {
    let a = Money::from_units(5);
    let b = Money::from_units(-5);
    assert!(a.at_least(&b));
    assert!(a.at_least(&a));
    assert!(!b.at_least(&a));
    assert!(b.is_negative());
    assert!(!a.is_negative());
    assert!(!Money::zero().is_negative());
    assert_eq!(a.units(), 5);
    assert_eq!(Money::zero().units(), 0);
}

use dconv::converter::format_datetime;
use dconv::input_types::{InputDateType, Operation, ParseError, Symbol, Unit};
use dconv::instant::Duration;

#[test]
fn test_unit_from_str() {
    assert_eq!(Unit::from_str("s").unwrap(), Unit::Seconds);
    assert_eq!(Unit::from_str("m").unwrap(), Unit::Minutes);
    assert_eq!(Unit::from_str("h").unwrap(), Unit::Hours);
    assert_eq!(Unit::from_str("d").unwrap(), Unit::Days);
    assert!(Unit::from_str("x").is_err());
}

#[test]
fn test_symbol_from_str() {
    assert_eq!(Symbol::from_str("+").unwrap(), Symbol::Plus);
    assert_eq!(Symbol::from_str("-").unwrap(), Symbol::Minus);
    assert!(Symbol::from_str("*").is_err());
}

#[test]
fn test_operation_from_str() {
    match Operation::from_str("+10m").unwrap() {
        Operation::Sum(d) => assert_eq!(d, Duration::minutes(10)),
        _ => panic!("Expected Sum"),
    }
    match Operation::from_str("-5h").unwrap() {
        Operation::Subtract(d) => assert_eq!(d, Duration::hours(5)),
        _ => panic!("Expected Subtract"),
    }
    assert!(Operation::from_str("10m").is_err());
    assert!(Operation::from_str("+xx").is_err());
}

#[test]
fn test_input_date_type_from_str() {
    // RFC3339
    let dt = InputDateType::from_str("2025-06-24T20:18:00Z").unwrap();
    match dt {
        InputDateType::DateTime(dt) => {
            let utc_line = format_datetime(&dt, 0);
            assert_eq!(utc_line.lines().next().unwrap(), "2025-06-24T20:18:00+00:00");
        }
        _ => panic!("Expected DateTime"),
    }
    // Timestamp (seconds)
    let ts = InputDateType::from_str("1750796280").unwrap();
    match ts {
        InputDateType::Timestamp(dt) => {
            let utc_line = format_datetime(&dt, 0);
            assert_eq!(utc_line.lines().next().unwrap(), "2025-06-24T20:18:00+00:00");
        }
        _ => panic!("Expected Timestamp"),
    }
    // Now
    let now = InputDateType::from_str("now").unwrap();
    match now {
        InputDateType::Now(_) => {} // Accept any value
        _ => panic!("Expected Now"),
    }
    // Invalid
    assert!(InputDateType::from_str("notadate").is_err());
}

#[test]
fn test_timestamp_units_exact() {
    match InputDateType::from_str("1750796280").unwrap() {
        InputDateType::Timestamp(i) => {
            assert_eq!(i.secs, 1750796280);
            assert_eq!(i.nanos, 0);
        }
        _ => panic!("Expected Timestamp"),
    }
    match InputDateType::from_str("1750796280123").unwrap() {
        InputDateType::Timestamp(i) => {
            assert_eq!(i.secs, 1750796280);
            assert_eq!(i.nanos, 123_000_000);
        }
        _ => panic!("Expected Timestamp"),
    }
    match InputDateType::from_str("1750796280123456").unwrap() {
        InputDateType::Timestamp(i) => {
            assert_eq!(i.secs, 1750796280);
            assert_eq!(i.nanos, 123_456_000);
        }
        _ => panic!("Expected Timestamp"),
    }
    match InputDateType::from_str("1750796280123456789").unwrap() {
        InputDateType::Timestamp(i) => {
            assert_eq!(i.secs, 1750796280);
            assert_eq!(i.nanos, 123_456_789);
        }
        _ => panic!("Expected Timestamp"),
    }
}

#[test]
fn test_negative_timestamp_floors() {
    // -123 milliseconds lies before the epoch: the second floor is -1, the
    // sub-second part counts forward from it.
    match InputDateType::from_str("-000000000123").unwrap() {
        InputDateType::Timestamp(i) => {
            assert_eq!(i.secs, -1);
            assert_eq!(i.nanos, 877_000_000);
        }
        _ => panic!("Expected Timestamp"),
    }
}

#[test]
fn test_unsupported_length_message_carries_length() {
    match InputDateType::from_str("12345678901") {
        Err(e) => {
            assert!(matches!(e, ParseError::UnsupportedTimestampLength(11)));
            assert_eq!(e.message(), "Timestamp of size 11 is not supported");
        }
        Ok(_) => panic!("Expected an error"),
    }
}

#[test]
fn test_operation_error_variants() {
    match Operation::from_str("+1") {
        Err(ParseError::InvalidOperation(raw)) => assert_eq!(raw, "+1"),
        other => panic!("Expected InvalidOperation, got {:?}", other),
    }
    match Operation::from_str("*5h") {
        Err(ParseError::UnrecognizedSymbol(sym)) => assert_eq!(sym, "*"),
        other => panic!("Expected UnrecognizedSymbol, got {:?}", other),
    }
    match Operation::from_str("+5x") {
        Err(ParseError::UnsupportedUnit(unit)) => assert_eq!(unit, "x"),
        other => panic!("Expected UnsupportedUnit, got {:?}", other),
    }
    match Operation::from_str("+a5h") {
        Err(ParseError::InvalidValue(raw)) => assert_eq!(raw, "a5"),
        other => panic!("Expected InvalidValue, got {:?}", other),
    }
}

#[test]
fn test_split_operation_input_parts() {
    let (symbol, value, unit) = dconv::input_types::split_operation_input("+10m").unwrap();
    assert_eq!(symbol, Symbol::Plus);
    assert_eq!(value, 10);
    assert_eq!(unit, Unit::Minutes);
    let (symbol, value, unit) = dconv::input_types::split_operation_input("-365d").unwrap();
    assert_eq!(symbol, Symbol::Minus);
    assert_eq!(value, 365);
    assert_eq!(unit, Unit::Days);
    assert!(dconv::input_types::split_operation_input("+m").is_err());
}

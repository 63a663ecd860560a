use dconv::converter::{convert, datetime_to_timestamp, format_datetime};
use dconv::input_types::{InputDateType, Operation, ParseError};
use dconv::instant::Instant;

// Test conversion from RFC3339 to timestamp
#[test]
fn test_convert_rfc3339() {
    let result = convert("2025-06-24T20:18:00Z", None).expect("Failed to convert str");
    // The result should contain the RFC3339 date and the timestamp
    assert!(result.contains("2025-06-24T20:18:00"));
    assert!(result.contains("1750796280000"));
}

// Test conversion from seconds timestamp (10 digits) to RFC3339
#[test]
fn test_convert_seconds_timestamp() {
    let timestamp = "1750796280"; // 2025-06-24T20:18:00Z in seconds
    let result = convert(timestamp, None).expect("Failed to convert timestamp");

    // Check the first line contains the UTC time
    assert!(result.contains("2025-06-24T20:18:00"));
}

// Test conversion from milliseconds timestamp (13 digits) to RFC3339
#[test]
fn test_convert_millis_timestamp() {
    let timestamp = "1750796280000"; // 2025-06-24T20:18:00Z in milliseconds
    let result = convert(timestamp, None).expect("Failed to convert timestamp");

    // Check the first line contains the UTC time
    assert!(result.contains("2025-06-24T20:18:00"));
}

// Test conversion from microseconds timestamp (16 digits) to RFC3339
#[test]
fn test_convert_micros_timestamp() {
    let timestamp = "1750796280000000"; // 2025-06-24T20:18:00Z in microseconds
    let result = convert(timestamp, None).expect("Failed to convert timestamp");

    // Check the first line contains the UTC time
    assert!(result.contains("2025-06-24T20:18:00"));
}

// Test conversion from nanoseconds timestamp (19 digits) to RFC3339
#[test]
fn test_convert_nanos_timestamp() {
    let timestamp = "1750796280000000000"; // 2025-06-24T20:18:00Z in nanoseconds
    let result = convert(timestamp, None).expect("Failed to convert timestamp");

    // Check the first line contains the UTC time
    assert!(result.contains("2025-06-24T20:18:00"));
}

// Test error case for unsupported timestamp length
#[test]
fn test_unsupported_timestamp_length() {
    let timestamp = "17507962"; // Too few digits
    let result = convert(timestamp, None);
    assert!(result.is_err());

    let err_msg = result.unwrap_err().message();
    assert!(err_msg.contains("Timestamp of size 8 is not supported"));
}

// Test invalid RFC3339 string
#[test]
fn test_invalid_rfc3339() {
    let invalid_date = "2025-13-24T20:18:00Z"; // Invalid month
    let result = convert(invalid_date, None);
    assert!(result.is_err());

    let err_msg = result.unwrap_err().message();
    assert!(err_msg.contains("Unsupported date value '2025-13-24T20:18:00Z'"));
}

// Test round trip conversion
#[test]
fn test_round_trip_conversion() {
    // Start with a known date
    let original_date = "2025-06-24T20:18:00Z";

    // Convert to timestamp
    let timestamp_result = convert(original_date, None).expect("Failed to convert to timestamp");
    // Extract the timestamp line (last line)
    let timestamp = timestamp_result
        .lines()
        .last()
        .expect("No timestamp line in convert result");

    // Convert back to date (will include both UTC and local time)
    let date_result = convert(timestamp, None).expect("Failed to convert back to date");

    // The result should contain the original date in RFC3339 format
    assert!(date_result.contains("2025-06-24T20:18:00"));
}

// Test Operation::Sum with days
#[test]
fn test_operation_sum_days() {
    let input_date = "2025-06-24T20:18:00Z";
    let operation = Some(Operation::from_str("+2d").unwrap());
    let result = convert(input_date, operation.as_ref()).expect("Failed to apply sum operation");
    // Expect 2025-06-26T20:18:00Z
    assert!(result.contains("2025-06-26T20:18:00"));
}

// Test Operation::Subtract with hours
#[test]
fn test_operation_subtract_hours() {
    let input_date = "2025-06-24T20:18:00Z";
    let operation = Some(Operation::from_str("-3h").unwrap());
    let result =
        convert(input_date, operation.as_ref()).expect("Failed to apply subtract operation");
    // Expect 2025-06-24T17:18:00Z
    assert!(result.contains("2025-06-24T17:18:00"));
}

// Test Operation::Sum with minutes
#[test]
fn test_operation_sum_minutes() {
    let input_date = "2025-06-24T20:18:00Z";
    let operation = Some(Operation::from_str("+45m").unwrap());
    let result = convert(input_date, operation.as_ref()).expect("Failed to apply sum operation");
    // Expect 2025-06-24T21:03:00Z
    assert!(result.contains("2025-06-24T21:03:00"));
}

// Test invalid operation string
#[test]
fn test_invalid_operation_string() {
    let operation = Operation::from_str("++1x");
    assert!(operation.is_err());
}

// Test format_datetime function
#[test]
fn test_format_datetime() {
    let date_time = Instant {
        secs: 1750796280,
        nanos: 0,
    };

    // Use a +02:00 offset (2 hours ahead of UTC)
    let offset = 2 * 3600;

    let formatted = format_datetime(&date_time, offset);

    // Check that it contains both the UTC and specified timezone representations
    assert!(formatted.contains("2025-06-24T20:18:00"));
    assert!(formatted.contains("2025-06-24T22:18:00+02:00"));
    // Should have two lines
    assert_eq!(formatted.lines().count(), 2);
}

// Test datetime_to_timestamp function
#[test]
fn test_datetime_to_timestamp() {
    let date_time = match InputDateType::from_str("2025-06-24T20:18:00Z").unwrap() {
        InputDateType::DateTime(i) => i,
        _ => panic!("Expected DateTime"),
    };
    let timestamp = datetime_to_timestamp(&date_time);

    assert_eq!(timestamp, "1750796280000");
}

#[test]
fn test_convert_output_shape() {
    let result = convert("1750796280", None).expect("Failed to convert timestamp");
    let lines: Vec<&str> = result.lines().collect();
    assert_eq!(lines.len(), 3);
    // The UTC line is exact; the second line depends on the local offset.
    assert_eq!(lines[0], "2025-06-24T20:18:00+00:00");
    assert_eq!(lines[2], "1750796280000");
}

#[test]
fn test_convert_now() {
    let result = convert("now", None).expect("Failed to convert now");
    assert_eq!(result.lines().count(), 3);
    let millis_line = result.lines().last().unwrap();
    assert!(millis_line.chars().all(|c| c.is_ascii_digit()));
}

#[test]
fn test_operation_out_of_range() {
    // Subtracting the largest representable span of days leaves any
    // four-digit-year instant far outside the calendar range.
    let operation = Some(Operation::from_str("-106751991167300d").unwrap());
    let result = convert("2025-06-24T20:18:00Z", operation.as_ref());
    match result {
        Err(ParseError::TimestampOutOfRange) => {}
        other => panic!("Expected TimestampOutOfRange, got {:?}", other),
    }
}

#[test]
fn test_leap_second_folds_forward() {
    // A leap second is carried into the following second; the millisecond
    // count is unchanged by the folding.
    let result = convert("1990-12-31T23:59:60Z", None).expect("Failed to convert leap second");
    let lines: Vec<&str> = result.lines().collect();
    assert_eq!(lines[0], "1991-01-01T00:00:00+00:00");
}

#[test]
fn test_convert_applies_fractional_seconds() {
    let result = convert("2025-06-24T20:18:00.250Z", None).expect("Failed to convert");
    let millis_line = result.lines().last().unwrap();
    assert_eq!(millis_line, "1750796280250");
}

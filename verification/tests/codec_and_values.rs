use query_core::errors::ErrorCode;
use query_core::number::NumberDeserializer;
use query_core::state_codec::decode_state;
use query_core::values::{DataField, DataSchema, DataType, DataValue};

#[test]
fn decode_empty_list_yields_no_states() {
    assert_eq!(decode_state("[]").unwrap(), Some(vec![]));
}

#[test]
fn decode_list_yields_each_state_in_order() {
    let got = decode_state("[u1,i-5,n,t,f,i7]").unwrap().unwrap();
    assert_eq!(
        got,
        vec![
            DataValue::UInt64(1),
            DataValue::Int64(-5),
            DataValue::Null,
            DataValue::Boolean(true),
            DataValue::Boolean(false),
            DataValue::Int64(7),
        ]
    );
}

#[test]
fn decode_bare_item_is_a_valid_skip() {
    assert_eq!(decode_state("n").unwrap(), None);
    assert_eq!(decode_state("u12").unwrap(), None);
}

#[test]
fn decode_refuses_malformed_payloads() {
    for bad in ["", "garbage", "[u1,]", "[x]", "[", "u", "i-", "[uz]", "[u1,n", "nn"] {
        match decode_state(bad) {
            Err(ErrorCode::BadState(_)) => {},
            other => panic!("{:?} should be refused, got {:?}", bad, other),
        }
    }
}

#[test]
fn decode_handles_the_numeric_extremes() {
    assert_eq!(
        decode_state("[u18446744073709551615]").unwrap(),
        Some(vec![DataValue::UInt64(u64::MAX)])
    );
    assert_eq!(
        decode_state("[i-9223372036854775808]").unwrap(),
        Some(vec![DataValue::Int64(i64::MIN)])
    );
    match decode_state("[u18446744073709551616]") {
        Err(ErrorCode::BadState(_)) => {},
        other => panic!("overflow should be refused, got {:?}", other),
    }
}

#[test]
fn field_lookup_returns_the_first_match_and_reports_misses() {
    let schema = DataSchema::new(vec![
        DataField::new("x".to_string(), DataType::Int64),
        DataField::new("x".to_string(), DataType::Utf8),
        DataField::new("y".to_string(), DataType::Boolean),
    ]);
    let f = schema.field_with_name("x").unwrap();
    assert_eq!(f.data_type, DataType::Int64);
    match schema.field_with_name("z") {
        Err(ErrorCode::FieldNotFound(_)) => {},
        other => panic!("expected field-not-found, got {:?}", other),
    }
}

#[test]
fn nullable_types_are_nullable() {
    assert!(DataType::Null.is_nullable());
    assert!(DataType::Nullable(Box::new(DataType::Int64)).is_nullable());
    assert!(!DataType::Int64.is_nullable());
}

#[test]
fn data_values_clone_structurally() {
    let v = DataValue::Struct(vec![
        DataValue::Utf8(Some("abc".to_string())),
        DataValue::UInt64(9),
    ]);
    assert_eq!(v.clone(), v);
}

#[test]
fn error_messages_carry_their_reason() {
    let e = ErrorCode::UnknownFunction("nosuch".to_string());
    assert_eq!(e.message(), "nosuch");
}

#[test]
fn number_text_parses_values_and_nulls() {
    let mut d = NumberDeserializer::new();
    d.de_text(b"123").unwrap();
    d.de_text(b"null").unwrap();
    d.de_text(b"NULL").unwrap();
    d.de_text(b"").unwrap();
    d.de_null();
    // Leading non-digits parse as zero digits, hence the value zero, as
    // the partial number parser defines it.
    d.de_text(b"abc").unwrap();
    match d.de_text(b"+") {
        Err(ErrorCode::BadBytes(_)) => {},
        other => panic!("expected bad-bytes, got {:?}", other),
    }
    let col = d.finish_to_series();
    assert_eq!(col, vec![Some(123), None, None, None, None, Some(0)]);
}

#[test]
fn number_binary_reads_little_endian_values() {
    let mut d = NumberDeserializer::new();
    d.de(&[1, 0, 0, 0, 0, 0, 0, 0]).unwrap();
    d.de_batch(&[2, 0, 0, 0, 0, 0, 0, 0, 3, 0, 0, 0, 0, 0, 0, 0], 8, 2).unwrap();
    match d.de(&[1, 2, 3]) {
        Err(ErrorCode::BadBytes(_)) => {},
        other => panic!("expected bad-bytes, got {:?}", other),
    }
    let col = d.finish_to_series();
    assert_eq!(col, vec![Some(1), Some(2), Some(3)]);
}

#[test]
fn decimal_rendering_matches_expected_text() {
    assert_eq!(query_core::num_text::u64_text(0), "0");
    assert_eq!(query_core::num_text::u64_text(9081726354), "9081726354");
}

#[test]
fn every_error_variant_carries_its_message() {
    let cases = vec![
        ErrorCode::FieldNotFound("m".to_string()),
        ErrorCode::UnknownFunction("m".to_string()),
        ErrorCode::LogicalError("m".to_string()),
        ErrorCode::TypeMismatch("m".to_string()),
        ErrorCode::BadState("m".to_string()),
        ErrorCode::BadBytes("m".to_string()),
        ErrorCode::EmptyInput("m".to_string()),
    ];
    for e in cases {
        assert_eq!(e.message(), "m");
    }
}

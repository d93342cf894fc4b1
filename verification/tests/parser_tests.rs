use alice_fix::builder::FixBuilder;
use alice_fix::checksum::compute_checksum;
use alice_fix::numeric::parse_body_length;
use alice_fix::numeric::parse_checksum_value;
use alice_fix::numeric::parse_tag_number;
use alice_fix::parser::parse;
use alice_fix::parser::split_field;
use alice_fix::parser::ParseError;
use alice_fix::tag;

/// Build a minimal valid message byte vector for testing.
fn make_valid_message() -> Vec<u8> {
    FixBuilder::new("FIX.4.4", "0")
        .field(tag::SENDER_COMP_ID, "ALICE")
        .field(tag::TARGET_COMP_ID, "BROKER")
        .field(tag::MSG_SEQ_NUM, "1")
        .field(tag::SENDING_TIME, "20260101-00:00:00")
        .build()
}

#[test]
fn test_parse_valid_message() {
    let bytes = make_valid_message();
    let msg = parse(&bytes).expect("valid message should parse");
    assert_eq!(msg.begin_string, "FIX.4.4");
    assert_eq!(msg.msg_type, "0");
    assert_eq!(msg.get(tag::SENDER_COMP_ID), Some("ALICE"));
    assert_eq!(msg.get(tag::TARGET_COMP_ID), Some("BROKER"));
    assert_eq!(msg.get_u64(tag::MSG_SEQ_NUM), Some(1));
}

#[test]
fn test_parse_empty_input() {
    let result = parse(&[]);
    assert_eq!(result, Err(ParseError::EmptyInput));
}

#[test]
fn test_parse_invalid_checksum() {
    let mut bytes = make_valid_message();
    // Corrupt the checksum digit: the last 4 bytes before the final SOH are "XXX"
    // The checksum field is "10=XXX\x01" (7 bytes at the end).
    let len = bytes.len();
    // Flip one digit of the checksum value.
    bytes[len - 4] = if bytes[len - 4] == b'0' { b'1' } else { b'0' };
    let result = parse(&bytes);
    assert!(matches!(result, Err(ParseError::InvalidChecksum { .. })));
}

#[test]
fn test_parse_missing_begin_string() {
    // Construct a message that starts with tag 9 instead of tag 8.
    let bad: Vec<u8> = b"9=5\x0135=0\x0110=100\x01".to_vec();
    let result = parse(&bad);
    assert_eq!(result, Err(ParseError::MissingBeginString));
}

#[test]
fn test_parse_all_tags_present() {
    let bytes = FixBuilder::new("FIX.4.4", "D")
        .field(tag::SENDER_COMP_ID, "ME")
        .field(tag::TARGET_COMP_ID, "YOU")
        .field(tag::MSG_SEQ_NUM, "7")
        .field(tag::CL_ORD_ID, "ORD-001")
        .field(tag::SYMBOL, "BTCUSD")
        .field(tag::SIDE, "1")
        .field(tag::ORD_TYPE, "2")
        .field(tag::PRICE, "50000")
        .field(tag::ORDER_QTY, "10")
        .build();

    let msg = parse(&bytes).expect("should parse");
    assert_eq!(msg.msg_type, "D");
    assert_eq!(msg.get(tag::CL_ORD_ID), Some("ORD-001"));
    assert_eq!(msg.get(tag::SYMBOL), Some("BTCUSD"));
    assert_eq!(msg.get_i64(tag::PRICE), Some(50000));
    assert_eq!(msg.get_u64(tag::ORDER_QTY), Some(10));
}

#[test]
fn test_parse_error_display_empty_input() {
    assert_eq!(ParseError::EmptyInput.describe(), "empty input");
}

#[test]
fn test_parse_error_display_missing_begin_string() {
    assert_eq!(ParseError::MissingBeginString.describe(), "missing BeginString (tag 8)");
}

#[test]
fn test_parse_error_display_missing_body_length() {
    assert_eq!(ParseError::MissingBodyLength.describe(), "missing BodyLength (tag 9)");
}

#[test]
fn test_parse_error_display_missing_checksum() {
    assert_eq!(ParseError::MissingChecksum.describe(), "missing or misplaced Checksum (tag 10)");
}

#[test]
fn test_parse_error_display_invalid_checksum() {
    let err = ParseError::InvalidChecksum { expected: 100, actual: 200 };
    assert_eq!(err.describe(), "invalid checksum: expected 100, actual 200");
}

#[test]
fn test_parse_error_display_malformed_field() {
    let err = ParseError::MalformedField("no_equals".to_string());
    assert_eq!(err.describe(), "malformed field: no_equals");
}

#[test]
fn test_parse_error_display_invalid_tag() {
    let err = ParseError::InvalidTag("abc".to_string());
    assert_eq!(err.describe(), "invalid tag number: abc");
}

#[test]
fn test_parse_error_clone_and_eq() {
    let a = ParseError::EmptyInput;
    let b = a.clone();
    assert_eq!(a, b);
}

#[test]
fn test_parse_single_byte_not_soh() {
    // A single non-SOH byte is not a valid message.
    let result = parse(b"X");
    assert!(result.is_err());
}

#[test]
fn test_parse_only_soh_bytes() {
    // All SOH bytes produce no fields -> MissingBeginString.
    let result = parse(b"\x01\x01\x01");
    assert!(result.is_err());
}

#[test]
fn test_parse_malformed_field_no_equals() {
    // A field without '=' separator.
    let result = parse(b"8FIX.4.4\x01");
    assert!(matches!(result, Err(ParseError::MalformedField(_))));
}

#[test]
fn test_parse_invalid_tag_non_numeric() {
    // Tag is not a number.
    let result = parse(b"abc=xyz\x01");
    assert!(matches!(result, Err(ParseError::InvalidTag(_))));
}

#[test]
fn test_parse_fixt11_version() {
    let bytes = FixBuilder::new("FIXT.1.1", "0")
        .field(tag::SENDER_COMP_ID, "A")
        .field(tag::TARGET_COMP_ID, "B")
        .field(tag::MSG_SEQ_NUM, "1")
        .build();
    let msg = parse(&bytes).expect("FIXT.1.1 should parse");
    assert_eq!(msg.begin_string, "FIXT.1.1");
    assert_eq!(msg.msg_type, "0");
}

#[test]
fn test_parse_preserves_text_field() {
    let bytes = FixBuilder::new("FIX.4.4", "0")
        .field(tag::SENDER_COMP_ID, "S")
        .field(tag::TEXT, "Hello FIX World")
        .build();
    let msg = parse(&bytes).expect("should parse");
    assert_eq!(msg.get(tag::TEXT), Some("Hello FIX World"));
}

#[test]
fn test_parse_checksum_integrity() {
    // Build a valid message, verify the checksum is correct by re-parsing.
    let bytes = FixBuilder::new("FIX.4.4", "A")
        .field(tag::SENDER_COMP_ID, "ALICE")
        .field(tag::TARGET_COMP_ID, "EXCHANGE")
        .field(tag::MSG_SEQ_NUM, "999")
        .build();
    let msg = parse(&bytes);
    assert!(msg.is_ok());
}

#[test]
fn test_field_iter_skips_empty_segments() {
    // Build a message with the builder (no consecutive SOH issue),
    // but confirm parsing succeeds as expected.
    let bytes = FixBuilder::new("FIX.4.4", "0").field(tag::SENDER_COMP_ID, "X").build();
    let msg = parse(&bytes).expect("should parse");
    assert_eq!(msg.get(tag::SENDER_COMP_ID), Some("X"));
}

#[test]
fn test_parse_body_length_mismatch() {
    // Manually construct a message with wrong body length.
    // "8=FIX.4.4\x019=999\x0135=0\x0110=000\x01"
    let bad = b"8=FIX.4.4\x019=999\x0135=0\x0110=000\x01";
    let result = parse(bad);
    assert!(result.is_err());
}

#[test]
fn test_compute_checksum_empty() {
    assert_eq!(compute_checksum(&[]), 0);
}

#[test]
fn test_compute_checksum_known_value() {
    // Sum of [0x41, 0x42, 0x43] = 65+66+67 = 198
    assert_eq!(compute_checksum(b"ABC"), 198);
}

#[test]
fn test_compute_checksum_wraps_at_256() {
    // 256 bytes of 0x01 = sum 256, mod 256 = 0
    let data = vec![1u8; 256];
    assert_eq!(compute_checksum(&data), 0);
}

#[test]
fn test_parse_tag_number_empty() {
    assert_eq!(parse_tag_number(b""), None);
}

#[test]
fn test_parse_tag_number_valid() {
    assert_eq!(parse_tag_number(b"49"), Some(49));
    assert_eq!(parse_tag_number(b"0"), Some(0));
    assert_eq!(parse_tag_number(b"999999"), Some(999999));
}

#[test]
fn test_parse_tag_number_non_digit() {
    assert_eq!(parse_tag_number(b"12x"), None);
    assert_eq!(parse_tag_number(b"abc"), None);
}

#[test]
fn test_parse_body_length_empty() {
    assert_eq!(parse_body_length(b""), None);
}

#[test]
fn test_parse_body_length_valid() {
    assert_eq!(parse_body_length(b"42"), Some(42));
    assert_eq!(parse_body_length(b"0"), Some(0));
}

#[test]
fn test_parse_checksum_value_empty() {
    assert_eq!(parse_checksum_value(b""), None);
}

#[test]
fn test_parse_checksum_value_valid() {
    assert_eq!(parse_checksum_value(b"000"), Some(0));
    assert_eq!(parse_checksum_value(b"127"), Some(127));
    assert_eq!(parse_checksum_value(b"255"), Some(255));
}

#[test]
fn test_parse_checksum_value_wraps_at_256() {
    // 256 & 0xFF = 0
    assert_eq!(parse_checksum_value(b"256"), Some(0));
}

#[test]
fn test_split_field_valid() {
    let (tag, val) = split_field(b"49=ALICE").unwrap();
    assert_eq!(tag, 49);
    assert_eq!(val, b"ALICE");
}

#[test]
fn test_split_field_empty_value() {
    let (tag, val) = split_field(b"58=").unwrap();
    assert_eq!(tag, 58);
    assert_eq!(val, b"");
}

#[test]
fn test_split_field_no_equals() {
    let result = split_field(b"no_equals_here");
    assert!(matches!(result, Err(ParseError::MalformedField(_))));
}

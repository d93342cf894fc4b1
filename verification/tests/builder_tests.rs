use alice_fix::builder::FixBuilder;
use alice_fix::parser;
use alice_fix::parser::SOH;
use alice_fix::tag;

#[test]
fn test_build_simple_message() {
    let bytes = FixBuilder::new("FIX.4.4", "0")
        .field(tag::SENDER_COMP_ID, "ALICE")
        .field(tag::TARGET_COMP_ID, "BROKER")
        .field(tag::MSG_SEQ_NUM, "1")
        .build();

    // Must start with BeginString.
    assert!(bytes.starts_with(b"8=FIX.4.4\x01"));
    // Must end with "10=XXX\x01".
    assert_eq!(bytes.last(), Some(&SOH));
    let end_str = core::str::from_utf8(&bytes[bytes.len() - 7..]).unwrap();
    assert!(end_str.starts_with("10="));
}

#[test]
fn test_build_includes_msg_type() {
    let bytes = FixBuilder::new("FIX.4.4", "D").field(tag::SENDER_COMP_ID, "X").build();
    let msg = parser::parse(&bytes).unwrap();
    assert_eq!(msg.msg_type, "D");
}

#[test]
fn test_roundtrip_build_parse() {
    let bytes = FixBuilder::new("FIX.4.4", "D")
        .field(tag::SENDER_COMP_ID, "ALICE")
        .field(tag::TARGET_COMP_ID, "BROKER")
        .field(tag::MSG_SEQ_NUM, "5")
        .field(tag::CL_ORD_ID, "ORD-42")
        .field(tag::SYMBOL, "BTCUSD")
        .field(tag::SIDE, "1")
        .field(tag::ORD_TYPE, "2")
        .field(tag::PRICE, "50000")
        .field(tag::ORDER_QTY, "10")
        .build();

    let msg = parser::parse(&bytes).expect("round-trip parse should succeed");

    assert_eq!(msg.begin_string, "FIX.4.4");
    assert_eq!(msg.msg_type, "D");
    assert_eq!(msg.get(tag::SENDER_COMP_ID), Some("ALICE"));
    assert_eq!(msg.get(tag::TARGET_COMP_ID), Some("BROKER"));
    assert_eq!(msg.get_u64(tag::MSG_SEQ_NUM), Some(5));
    assert_eq!(msg.get(tag::CL_ORD_ID), Some("ORD-42"));
    assert_eq!(msg.get(tag::SYMBOL), Some("BTCUSD"));
    assert_eq!(msg.get(tag::SIDE), Some("1"));
    assert_eq!(msg.get(tag::ORD_TYPE), Some("2"));
    assert_eq!(msg.get_i64(tag::PRICE), Some(50000));
    assert_eq!(msg.get_u64(tag::ORDER_QTY), Some(10));
}

#[test]
fn test_field_i64() {
    let bytes = FixBuilder::new("FIX.4.4", "D")
        .field(tag::SENDER_COMP_ID, "X")
        .field_i64(tag::PRICE, -100)
        .build();
    let msg = parser::parse(&bytes).unwrap();
    assert_eq!(msg.get_i64(tag::PRICE), Some(-100));
}

#[test]
fn test_checksum_is_three_digits() {
    let bytes = FixBuilder::new("FIX.4.4", "0").field(tag::SENDER_COMP_ID, "A").build();
    // The last 7 bytes are "10=XXX\x01"
    let chk_field = core::str::from_utf8(&bytes[bytes.len() - 7..]).unwrap();
    assert_eq!(&chk_field[..3], "10=");
    assert_eq!(chk_field.len(), 7);
    let digits = &chk_field[3..6];
    assert!(digits.chars().all(|c| c.is_ascii_digit()));
}

#[test]
fn test_build_field_u64() {
    let bytes = FixBuilder::new("FIX.4.4", "D")
        .field(tag::SENDER_COMP_ID, "X")
        .field_u64(tag::ORDER_QTY, 500)
        .build();
    let msg = parser::parse(&bytes).unwrap();
    assert_eq!(msg.get_u64(tag::ORDER_QTY), Some(500));
}

#[test]
fn test_build_field_i64_positive() {
    let bytes = FixBuilder::new("FIX.4.4", "D")
        .field(tag::SENDER_COMP_ID, "X")
        .field_i64(tag::PRICE, 99999)
        .build();
    let msg = parser::parse(&bytes).unwrap();
    assert_eq!(msg.get_i64(tag::PRICE), Some(99999));
}

#[test]
fn test_build_no_user_fields() {
    // Build a message with only the mandatory type and version.
    let bytes = FixBuilder::new("FIX.4.4", "0").build();
    let msg = parser::parse(&bytes).unwrap();
    assert_eq!(msg.msg_type, "0");
    assert_eq!(msg.begin_string, "FIX.4.4");
}

#[test]
fn test_build_body_length_is_correct() {
    let bytes = FixBuilder::new("FIX.4.4", "D").field(tag::SENDER_COMP_ID, "ALICE").build();
    // Extract body length from the raw bytes.
    let s = String::from_utf8_lossy(&bytes);
    let tag9_start = s.find("9=").unwrap() + 2;
    let tag9_end = s[tag9_start..].find('\x01').unwrap() + tag9_start;
    let body_len: usize = s[tag9_start..tag9_end].parse().unwrap();

    // Body is from after "9=N\x01" to before "10=XXX\x01"
    let body_start = tag9_end + 1; // after the SOH following tag 9
    let body_end = bytes.len() - 7; // before "10=XXX\x01"
    assert_eq!(body_end - body_start, body_len);
}

#[test]
fn test_build_multiple_fields_order_preserved() {
    let bytes = FixBuilder::new("FIX.4.4", "D")
        .field(tag::SENDER_COMP_ID, "A")
        .field(tag::TARGET_COMP_ID, "B")
        .field(tag::CL_ORD_ID, "ORD-1")
        .field(tag::SYMBOL, "ETHUSD")
        .build();
    let msg = parser::parse(&bytes).unwrap();
    assert_eq!(msg.get(tag::SENDER_COMP_ID), Some("A"));
    assert_eq!(msg.get(tag::TARGET_COMP_ID), Some("B"));
    assert_eq!(msg.get(tag::CL_ORD_ID), Some("ORD-1"));
    assert_eq!(msg.get(tag::SYMBOL), Some("ETHUSD"));
}

#[test]
fn test_build_fixt11() {
    let bytes = FixBuilder::new("FIXT.1.1", "A").build();
    let msg = parser::parse(&bytes).unwrap();
    assert_eq!(msg.begin_string, "FIXT.1.1");
    assert_eq!(msg.msg_type, "A");
}

#[test]
fn test_build_empty_value_field() {
    let bytes = FixBuilder::new("FIX.4.4", "0").field(tag::TEXT, "").build();
    let msg = parser::parse(&bytes).unwrap();
    assert_eq!(msg.get(tag::TEXT), Some(""));
}

#[test]
fn test_build_large_seq_number() {
    let bytes = FixBuilder::new("FIX.4.4", "0").field_u64(tag::MSG_SEQ_NUM, 999_999_999).build();
    let msg = parser::parse(&bytes).unwrap();
    assert_eq!(msg.get_u64(tag::MSG_SEQ_NUM), Some(999_999_999));
}

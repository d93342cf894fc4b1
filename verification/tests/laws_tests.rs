use alice_fix::builder::FixBuilder;
use alice_fix::checksum::compute_checksum;
use alice_fix::parser::parse;
use alice_fix::parser::ParseError;
use alice_fix::parser::SOH;
use alice_fix::session::FixSession;
use alice_fix::session::SessionState;
use alice_fix::tag;

#[test]
fn test_checksum_law_exact_values() {
    // The checksum is the byte sum reduced modulo 256.
    assert_eq!(compute_checksum(&[]), 0);
    assert_eq!(compute_checksum(&[200, 100]), 44); // 300 mod 256
    assert_eq!(compute_checksum(&[255, 255, 255]), 253); // 765 mod 256
    let ones = vec![1u8; 256];
    assert_eq!(compute_checksum(&ones), 0);
}

#[test]
fn test_round_trip_concrete_scenario() {
    // Encode version "V1", type "0", fields (49,"A"), (56,"B"), (34,"1");
    // decoding must give back exactly that content, with no structural
    // tag in the field map.
    let bytes = FixBuilder::new("V1", "0")
        .field(49, "A")
        .field(56, "B")
        .field(34, "1")
        .build();
    let msg = parse(&bytes).expect("round trip should succeed");
    assert_eq!(msg.begin_string, "V1");
    assert_eq!(msg.msg_type, "0");
    assert_eq!(msg.get(49), Some("A"));
    assert_eq!(msg.get(56), Some("B"));
    assert_eq!(msg.get(34), Some("1"));
    assert_eq!(msg.fields.len(), 3);
    assert_eq!(msg.get(8), None);
    assert_eq!(msg.get(9), None);
    assert_eq!(msg.get(10), None);
    assert_eq!(msg.get(35), None);
}

#[test]
fn test_round_trip_zero_staged_fields() {
    let bytes = FixBuilder::new("FIX.4.4", "5").build();
    let msg = parse(&bytes).expect("empty body should round-trip");
    assert_eq!(msg.begin_string, "FIX.4.4");
    assert_eq!(msg.msg_type, "5");
    assert!(msg.fields.is_empty());
}

#[test]
fn test_round_trip_duplicate_field_last_wins() {
    let bytes = FixBuilder::new("FIX.4.4", "D")
        .field(tag::SYMBOL, "AAA")
        .field(tag::SYMBOL, "BBB")
        .build();
    let msg = parse(&bytes).expect("should parse");
    assert_eq!(msg.get(tag::SYMBOL), Some("BBB"));
    assert_eq!(msg.fields.len(), 1);
}

#[test]
fn test_length_integrity_corrupted_declared_length() {
    // Change a digit of the declared body length: decode must report the
    // length mismatch.
    let mut bytes = FixBuilder::new("FIX.4.4", "0").field(tag::SENDER_COMP_ID, "A").build();
    let s = String::from_utf8_lossy(&bytes);
    let pos = s.find("9=").unwrap() + 2;
    bytes[pos] = if bytes[pos] == b'9' { b'8' } else { b'9' };
    assert_eq!(parse(&bytes), Err(ParseError::MissingBodyLength));
}

#[test]
fn test_checksum_integrity_exact_payload() {
    // Flip one checksum digit: the error carries the corrupted declared
    // value as `expected` and the checksum of the unmodified bytes as
    // `actual`.
    let mut bytes = FixBuilder::new("FIX.4.4", "0").field(tag::SENDER_COMP_ID, "A").build();
    let len = bytes.len();
    let actual = compute_checksum(&bytes[..len - 7]);
    // The trailer is "10=DDD\x01"; corrupt the middle digit.
    let old = bytes[len - 3];
    let new = if old == b'9' { b'0' } else { old + 1 };
    bytes[len - 3] = new;
    let declared: u8 = core::str::from_utf8(&bytes[len - 4..len - 1])
        .unwrap()
        .parse::<u16>()
        .map(|v| (v % 256) as u8)
        .unwrap();
    assert_eq!(
        parse(&bytes),
        Err(ParseError::InvalidChecksum { expected: declared, actual })
    );
}

#[test]
fn test_sequencer_ordinal_law() {
    // A fresh sequencer's first four build calls (logon, heartbeat,
    // heartbeat, logout) yield ordinals 1, 2, 3, 4; the state afterwards
    // is LogoutSent.
    let mut session = FixSession::new("S", "T", "FIX.4.4");
    let b1 = session.build_logon();
    let b2 = session.build_heartbeat();
    let b3 = session.build_heartbeat();
    let b4 = session.build_logout();
    assert_eq!(parse(&b1).unwrap().get_u64(tag::MSG_SEQ_NUM), Some(1));
    assert_eq!(parse(&b2).unwrap().get_u64(tag::MSG_SEQ_NUM), Some(2));
    assert_eq!(parse(&b3).unwrap().get_u64(tag::MSG_SEQ_NUM), Some(3));
    assert_eq!(parse(&b4).unwrap().get_u64(tag::MSG_SEQ_NUM), Some(4));
    assert_eq!(*session.state(), SessionState::LogoutSent);
}

#[test]
fn test_inbound_validation_law() {
    // Starting at expected=1: 1 then 2 succeed and advance to 3; 1 again
    // fails without advancing; a value two above expected fails; the
    // correct next value then succeeds.
    let mut session = FixSession::new("S", "T", "FIX.4.4");
    assert!(session.validate_incoming_seq(1));
    assert!(session.validate_incoming_seq(2));
    assert!(!session.validate_incoming_seq(1));
    assert!(!session.validate_incoming_seq(5));
    assert!(session.validate_incoming_seq(3));
}

#[test]
fn test_parse_missing_body_length_tag() {
    // Tag 8 present but the second field is not tag 9.
    let bad = b"8=FIX.4.4\x0135=0\x0110=000\x01";
    assert_eq!(parse(bad), Err(ParseError::MissingBodyLength));
}

#[test]
fn test_parse_missing_checksum_tag() {
    // Framing lengths agree but the final segment does not carry tag 10.
    let bad = b"8=F\x019=5\x0135=0\x0177=xyz\x01";
    assert_eq!(parse(bad), Err(ParseError::MissingChecksum));
}

#[test]
fn test_parse_unparseable_declared_length() {
    let bad = b"8=F\x019=xy\x0135=0\x0110=000\x01";
    assert_eq!(parse(bad), Err(ParseError::MissingBodyLength));
}

#[test]
fn test_describe_zero_pads_checksums() {
    let err = ParseError::InvalidChecksum { expected: 5, actual: 42 };
    assert_eq!(err.describe(), "invalid checksum: expected 005, actual 042");
}

#[test]
fn test_parse_invalid_utf8_value_becomes_empty() {
    // A field value that is not valid UTF-8 decodes to the empty string.
    let mut bytes: Vec<u8> = Vec::new();
    bytes.extend_from_slice(b"8=F\x01");
    let body = b"35=0\x0158=\xff\xfe\x01";
    bytes.extend_from_slice(format!("9={}\x01", body.len()).as_bytes());
    bytes.extend_from_slice(body);
    let chk = compute_checksum(&bytes);
    bytes.extend_from_slice(format!("10={chk:03}").as_bytes());
    bytes.push(SOH);
    let msg = parse(&bytes).expect("non-UTF-8 values are tolerated");
    assert_eq!(msg.get(58), Some(""));
}

#[test]
fn test_parse_invalid_utf8_tag_is_lossy() {
    // A malformed segment's diagnostic text replaces invalid bytes.
    let result = parse(b"8\xff\x01");
    assert_eq!(result, Err(ParseError::MalformedField("8\u{fffd}".to_string())));
}

#[test]
fn test_parse_checksum_fold_above_255() {
    // A declared checksum above 255 is folded modulo 256 before the
    // comparison rather than rejected.
    let mut bytes: Vec<u8> = Vec::new();
    bytes.extend_from_slice(b"8=F\x01");
    let body = b"35=0\x01";
    bytes.extend_from_slice(format!("9={}\x01", body.len()).as_bytes());
    bytes.extend_from_slice(body);
    let chk = compute_checksum(&bytes);
    let folded = chk as u16 + 256;
    bytes.extend_from_slice(format!("10={folded}").as_bytes());
    bytes.push(SOH);
    let msg = parse(&bytes).expect("folded checksum should be accepted");
    assert_eq!(msg.msg_type, "0");
}

#[test]
fn test_builder_extreme_numeric_fields() {
    let bytes = FixBuilder::new("FIX.4.4", "D")
        .field_i64(tag::PRICE, i64::MIN)
        .field_u64(tag::ORDER_QTY, u64::MAX)
        .field_i64(tag::LAST_PX, 0)
        .build();
    let msg = parse(&bytes).unwrap();
    assert_eq!(msg.get_i64(tag::PRICE), Some(i64::MIN));
    assert_eq!(msg.get_u64(tag::ORDER_QTY), Some(u64::MAX));
    assert_eq!(msg.get_i64(tag::LAST_PX), Some(0));
}

#[test]
fn test_get_u64_accepts_plus_sign() {
    let mut msg = alice_fix::message::FixMessage::new("FIX.4.4", "D");
    msg.set(tag::ORDER_QTY, "+7");
    assert_eq!(msg.get_u64(tag::ORDER_QTY), Some(7));
    assert_eq!(msg.get_i64(tag::ORDER_QTY), Some(7));
}

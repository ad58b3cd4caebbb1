use dns_lib::domain::error::TryFromError;
use dns_lib::message::question::{
    parse_question, KnownQClass, KnownQType, QClass, QType, QuestionTryFromError,
};

#[test]
fn qtype_new_keeps_raw_value() {
    for value in [1u16, 5, 16, 255, 2048] {
        assert_eq!(QType::new(value).value, value);
    }
}

#[test]
fn qtype_to_known_type() {
    let cases: &[(u16, Option<KnownQType>)] = &[
        (1, Some(KnownQType::A)),
        (2, Some(KnownQType::NS)),
        (3, Some(KnownQType::MD)),
        (4, Some(KnownQType::MF)),
        (5, Some(KnownQType::CNAME)),
        (6, Some(KnownQType::SOA)),
        (7, Some(KnownQType::MB)),
        (8, Some(KnownQType::MG)),
        (9, Some(KnownQType::MR)),
        (10, Some(KnownQType::NULL)),
        (11, Some(KnownQType::WKS)),
        (12, Some(KnownQType::PTR)),
        (13, Some(KnownQType::HINFO)),
        (14, Some(KnownQType::MINFO)),
        (15, Some(KnownQType::MX)),
        (16, Some(KnownQType::TXT)),
        (252, Some(KnownQType::AXFR)),
        (253, Some(KnownQType::MAILB)),
        (254, Some(KnownQType::MAILA)),
        (255, Some(KnownQType::ANY)),
        (0, None),
        (17, None),
        (251, None),
        (1024, None),
    ];
    for (value, expected) in cases {
        assert_eq!(QType::new(*value).to_known_type(), *expected);
    }
}

#[test]
fn qtype_from_known_qtype_round_trips() {
    let known = [
        KnownQType::A,
        KnownQType::NS,
        KnownQType::SOA,
        KnownQType::AXFR,
        KnownQType::ANY,
    ];
    for k in known {
        assert_eq!(QType::from(k).to_known_type(), Some(k));
    }
}

#[test]
fn qclass_new_keeps_raw_value() {
    for value in [1u16, 2, 4, 255, 2048] {
        assert_eq!(QClass::new(value).value, value);
    }
}

#[test]
fn qclass_to_known_class() {
    let cases: &[(u16, Option<KnownQClass>)] = &[
        (1, Some(KnownQClass::IN)),
        (2, Some(KnownQClass::CS)),
        (3, Some(KnownQClass::CH)),
        (4, Some(KnownQClass::HS)),
        (255, Some(KnownQClass::ANY)),
        (0, None),
        (5, None),
        (1024, None),
    ];
    for (value, expected) in cases {
        assert_eq!(QClass::new(*value).to_known_class(), *expected);
    }
}

#[test]
fn qclass_from_known_qclass_round_trips() {
    let known = [
        KnownQClass::IN,
        KnownQClass::CS,
        KnownQClass::CH,
        KnownQClass::HS,
        KnownQClass::ANY,
    ];
    for k in known {
        assert_eq!(QClass::from(k).to_known_class(), Some(k));
    }
}

#[test]
fn parse_question_plain_name() {
    // example.com, type A, class IN, no compression: 17 bytes consumed.
    let input: &[u8] = &[
        7, b'e', b'x', b'a', b'm', b'p', b'l', b'e', 3, b'c', b'o', b'm', 0, 0, 1, 0, 1,
    ];
    let data = parse_question(input, 0).unwrap();
    assert_eq!(data.question.q_name.to_string(), "example.com");
    assert_eq!(data.question.q_type.value, 1);
    assert_eq!(data.question.q_type.to_known_type(), Some(KnownQType::A));
    assert_eq!(data.question.q_class.value, 1);
    assert_eq!(data.question.q_class.to_known_class(), Some(KnownQClass::IN));
    assert_eq!(data.bytes_read, 17);
}

#[test]
fn parse_question_at_offset() {
    let input: &[u8] = &[
        0, 0, 0, 7, b'e', b'x', b'a', b'm', b'p', b'l', b'e', 3, b'c', b'o', b'm', 0, 0, 1, 0, 1,
    ];
    let data = parse_question(input, 3).unwrap();
    assert_eq!(data.question.q_name.to_string(), "example.com");
    assert_eq!(data.bytes_read, 17);
}

#[test]
fn parse_question_with_compression() {
    // test.example.com via a pointer back to example.com at offset 3;
    // bytes_read counts only the local label, the pointer pair, and the
    // fixed fields: 4 + 1 + 2 + 4 = 11.
    let input: &[u8] = &[
        0, 0, 0, 7, b'e', b'x', b'a', b'm', b'p', b'l', b'e', 3, b'c', b'o', b'm', 0, 4, b't',
        b'e', b's', b't', 0b1100_0000, 3, 0, 1, 0, 1,
    ];
    let data = parse_question(input, 16).unwrap();
    assert_eq!(data.question.q_name.to_string(), "test.example.com");
    assert_eq!(data.question.q_type.to_known_type(), Some(KnownQType::A));
    assert_eq!(data.question.q_class.to_known_class(), Some(KnownQClass::IN));
    assert_eq!(data.bytes_read, 11);
}

#[test]
fn parse_question_with_nested_compression() {
    // test -> pointer to example -> pointer to com: the chain is followed
    // transitively, and bytes_read still counts only the local span.
    let input: &[u8] = &[
        3, b'c', b'o', b'm', 0, 7, b'e', b'x', b'a', b'm', b'p', b'l', b'e', 0b1100_0000, 0, 4,
        b't', b'e', b's', b't', 0b1100_0000, 5, 0, 1, 0, 1,
    ];
    let data = parse_question(input, 15).unwrap();
    assert_eq!(data.question.q_name.to_string(), "test.example.com");
    assert_eq!(data.bytes_read, 11);
}

#[test]
fn parse_question_root_name() {
    // A lone terminator byte yields a name with no labels.
    let input: &[u8] = &[0, 0, 1, 0, 1];
    let data = parse_question(input, 0).unwrap();
    assert_eq!(data.question.q_name.to_string(), "");
    assert_eq!(data.bytes_read, 5);
}

#[test]
fn parse_question_fails_on_empty_buffer() {
    let input: &[u8] = &[];
    assert_eq!(
        parse_question(input, 0),
        Err(QuestionTryFromError::TruncatedMessage)
    );
}

#[test]
fn parse_question_fails_on_offset_past_end() {
    let input: &[u8] = &[0, 0, 1, 0, 1];
    assert_eq!(
        parse_question(input, 40),
        Err(QuestionTryFromError::TruncatedMessage)
    );
}

#[test]
fn parse_question_fails_on_truncated_label() {
    // Length byte promises 3 bytes but only one follows.
    let input: &[u8] = &[3, b'a'];
    assert_eq!(
        parse_question(input, 0),
        Err(QuestionTryFromError::TruncatedMessage)
    );
}

#[test]
fn parse_question_fails_on_missing_fixed_fields() {
    // The name decodes, but QTYPE and QCLASS need four more bytes.
    let input: &[u8] = &[1, b'a', 0, 0, 1];
    assert_eq!(
        parse_question(input, 0),
        Err(QuestionTryFromError::TruncatedMessage)
    );
}

#[test]
fn parse_question_fails_on_pointer_past_end() {
    let input: &[u8] = &[0b1100_0000, 0x10, 0];
    assert_eq!(
        parse_question(input, 0),
        Err(QuestionTryFromError::InvalidPointerTarget)
    );
}

#[test]
fn parse_question_fails_on_pointer_to_itself() {
    let input: &[u8] = &[0b1100_0000, 0x00];
    assert_eq!(
        parse_question(input, 0),
        Err(QuestionTryFromError::CompressionLoopDetected)
    );
}

#[test]
fn parse_question_fails_on_pointer_cycle() {
    // Two pointers that point at each other.
    let input: &[u8] = &[0b1100_0000, 2, 0b1100_0000, 0];
    assert_eq!(
        parse_question(input, 0),
        Err(QuestionTryFromError::CompressionLoopDetected)
    );
}

#[test]
fn parse_question_fails_on_invalid_label_format() {
    let input: &[u8] = &[3, b'4', b'2', b'0', 0, 0, 1, 0, 1];
    assert_eq!(
        parse_question(input, 0),
        Err(QuestionTryFromError::Domain(TryFromError::LabelInvalidFormat(
            "420".to_string()
        )))
    );
}

#[test]
fn parse_question_fails_on_over_long_label() {
    // A length byte of 100 is structurally read but fails label
    // validation, since no label may exceed 63 bytes.
    let mut input: Vec<u8> = vec![100];
    input.extend(std::iter::repeat(b'a').take(100));
    input.extend([0, 0, 1, 0, 1]);
    assert_eq!(
        parse_question(&input, 0),
        Err(QuestionTryFromError::Domain(TryFromError::LabelTooLong(
            "a".repeat(100)
        )))
    );
}

#[test]
fn parse_question_fails_on_invalid_label_encoding() {
    let input: &[u8] = &[2, 0xff, 0xfe, 0, 0, 1, 0, 1];
    assert!(matches!(
        parse_question(input, 0),
        Err(QuestionTryFromError::Domain(
            TryFromError::LabelInvalidEncoding(_)
        ))
    ));
}

#[test]
fn parse_question_unknown_qtype_and_qclass_are_retained() {
    let input: &[u8] = &[1, b'a', 0, 0x04, 0x00, 0x08, 0x00];
    let data = parse_question(input, 0).unwrap();
    assert_eq!(data.question.q_type.value, 0x0400);
    assert_eq!(data.question.q_type.to_known_type(), None);
    assert_eq!(data.question.q_class.value, 0x0800);
    assert_eq!(data.question.q_class.to_known_class(), None);
}

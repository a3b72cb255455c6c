use dns_wire::DecodeError;
use dns_wire::header::Header;
use dns_wire::header::Opcode;
use dns_wire::header::ResponseCode;
use dns_wire::message::Message;
use dns_wire::message::QClass;
use dns_wire::message::QType;

fn header_bytes(flags1: u8, flags2: u8, qdcount: u16) -> Vec<u8> {
    let mut b = vec![0x12u8, 0x34, flags1, flags2];
    b.push((qdcount >> 8) as u8);
    b.push((qdcount & 0xFF) as u8);
    b.extend_from_slice(&[0, 0, 0, 0, 0, 0]);
    b
}

#[test]
fn header_wrong_length_is_malformed() {
    assert_eq!(Header::parse(&[]), Err(DecodeError::MalformedHeader));
    assert_eq!(Header::parse(&[0u8; 11]), Err(DecodeError::MalformedHeader));
    assert_eq!(Header::parse(&[0u8; 13]), Err(DecodeError::MalformedHeader));
    assert_eq!(Header::parse(&[0u8; 512]), Err(DecodeError::MalformedHeader));
}

#[test]
fn header_round_trip_known_fields() {
    // ID 0x1234, QR clear (query), opcode 0, AA=0, TC=0, RD=1, RA=0,
    // RCODE=0, QDCOUNT=1, ANCOUNT=0, NSCOUNT=0, ARCOUNT=0.
    let b = [0x12u8, 0x34, 0b0000_0001, 0x00, 0x00, 0x01, 0, 0, 0, 0, 0, 0];
    let h = Header::parse(&b).unwrap();
    assert_eq!(h.id, 0x1234);
    assert!(h.is_query);
    assert_eq!(h.opcode, Opcode::StandardQuery);
    assert!(!h.is_authoritative_answer);
    assert!(!h.truncated);
    assert!(h.recursion_desired);
    assert!(!h.recursion_available);
    assert_eq!(h.response_code, ResponseCode::NoError);
    assert_eq!(h.questions, 1);
    assert_eq!(h.answers, 0);
    assert_eq!(h.nameservers, 0);
    assert_eq!(h.additional, 0);
}

#[test]
fn header_response_flags() {
    // QR set (response), AA set, TC set, RA set, RCODE=5 (Refused).
    let b = [0xABu8, 0xCD, 0b1000_0110, 0b1000_0101, 0, 0, 0, 2, 0, 3, 0, 4];
    let h = Header::parse(&b).unwrap();
    assert_eq!(h.id, 0xABCD);
    assert!(!h.is_query);
    assert!(h.is_authoritative_answer);
    assert!(h.truncated);
    assert!(!h.recursion_desired);
    assert!(h.recursion_available);
    assert_eq!(h.response_code, ResponseCode::Refused);
    assert_eq!(h.questions, 0);
    assert_eq!(h.answers, 2);
    assert_eq!(h.nameservers, 3);
    assert_eq!(h.additional, 4);
}

#[test]
fn reserved_bit_is_rejected() {
    for flags2 in [0b0100_0000u8, 0b0010_0000, 0b0001_0000, 0b0111_0000] {
        let b = header_bytes(0, flags2, 0);
        assert_eq!(Header::parse(&b), Err(DecodeError::ReservedBitSet));
    }
}

#[test]
fn opcode_values_decode_or_reject() {
    let cases = [
        (0u8, Opcode::StandardQuery),
        (1, Opcode::InverseQuery),
        (2, Opcode::ServerStatusRequest),
    ];
    for (v, want) in cases {
        let b = header_bytes(v << 3, 0, 0);
        assert_eq!(Header::parse(&b).unwrap().opcode, want);
    }
    for v in 3u8..=15 {
        let b = header_bytes(v << 3, 0, 0);
        assert_eq!(Header::parse(&b), Err(DecodeError::InvalidOpcode(v)));
    }
}

#[test]
fn response_code_values_decode_or_reject() {
    let cases = [
        (0u8, ResponseCode::NoError),
        (1, ResponseCode::FormatError),
        (2, ResponseCode::ServerFailure),
        (3, ResponseCode::NameError),
        (4, ResponseCode::NotImplemented),
        (5, ResponseCode::Refused),
    ];
    for (v, want) in cases {
        let b = header_bytes(0, v, 0);
        assert_eq!(Header::parse(&b).unwrap().response_code, want);
    }
    for v in 6u8..=15 {
        let b = header_bytes(0, v, 0);
        assert_eq!(Header::parse(&b), Err(DecodeError::InvalidResponseCode(v)));
    }
}

#[test]
fn opcode_error_precedes_reserved_bit() {
    // An invalid opcode nibble together with a set reserved bit reports the
    // opcode, which is validated first.
    let b = header_bytes(3 << 3, 0b0100_0000, 0);
    assert_eq!(Header::parse(&b), Err(DecodeError::InvalidOpcode(3)));
}

#[test]
fn enum_conversions() {
    assert_eq!(Opcode::try_from(2), Ok(Opcode::ServerStatusRequest));
    assert_eq!(Opcode::try_from(9), Err(DecodeError::InvalidOpcode(9)));
    assert_eq!(ResponseCode::try_from(4), Ok(ResponseCode::NotImplemented));
    assert_eq!(ResponseCode::try_from(12), Err(DecodeError::InvalidResponseCode(12)));
    assert_eq!(QType::try_from(1), Ok(QType::A));
    assert_eq!(QType::try_from(28), Err(DecodeError::InvalidQType(28)));
    assert_eq!(QClass::try_from(1), Ok(QClass::Internet));
    assert_eq!(QClass::try_from(3), Err(DecodeError::InvalidQClass(3)));
}

fn one_question_message() -> Vec<u8> {
    let mut b = header_bytes(0, 0, 1);
    b.push(7);
    b.extend_from_slice(b"fiwippi");
    b.push(3);
    b.extend_from_slice(b"net");
    b.push(0);
    b.extend_from_slice(&[0x00, 0x01, 0x00, 0x01]);
    b
}

#[test]
fn question_with_two_labels() {
    let b = one_question_message();
    let m = Message::parse(&b).unwrap();
    assert_eq!(m.questions.len(), 1);
    let q = &m.questions[0];
    assert_eq!(q.name, vec!["fiwippi".to_string(), "net".to_string()]);
    assert_eq!(q.qtype, QType::A);
    assert_eq!(q.qclass, QClass::Internet);
}

#[test]
fn root_name_question() {
    let mut b = header_bytes(0, 0, 1);
    b.extend_from_slice(&[0x00, 0x00, 0x01, 0x00, 0x01]);
    let m = Message::parse(&b).unwrap();
    assert_eq!(m.questions.len(), 1);
    assert!(m.questions[0].name.is_empty());
}

#[test]
fn truncated_mid_label_is_eof() {
    let mut b = header_bytes(0, 0, 1);
    b.push(7);
    b.extend_from_slice(b"fiw");
    assert!(matches!(Message::parse(&b), Err(DecodeError::UnexpectedEof)));
}

#[test]
fn missing_name_terminator_is_eof() {
    let mut b = header_bytes(0, 0, 1);
    b.push(3);
    b.extend_from_slice(b"net");
    assert!(matches!(Message::parse(&b), Err(DecodeError::UnexpectedEof)));
}

#[test]
fn truncated_qtype_is_eof() {
    let mut b = header_bytes(0, 0, 1);
    b.extend_from_slice(&[0x00, 0x00]);
    assert!(matches!(Message::parse(&b), Err(DecodeError::UnexpectedEof)));
}

#[test]
fn truncated_qclass_is_eof() {
    let mut b = header_bytes(0, 0, 1);
    b.extend_from_slice(&[0x00, 0x00, 0x01, 0x00]);
    assert!(matches!(Message::parse(&b), Err(DecodeError::UnexpectedEof)));
}

#[test]
fn invalid_utf8_label_is_rejected() {
    let mut b = header_bytes(0, 0, 1);
    b.push(2);
    b.extend_from_slice(&[0xFF, 0xFE]);
    b.push(0);
    b.extend_from_slice(&[0x00, 0x01, 0x00, 0x01]);
    assert!(matches!(Message::parse(&b), Err(DecodeError::InvalidLabelEncoding)));
}

#[test]
fn unknown_qtype_is_rejected() {
    let mut b = header_bytes(0, 0, 1);
    b.extend_from_slice(&[0x00, 0x00, 0x02, 0x00, 0x01]);
    assert!(matches!(Message::parse(&b), Err(DecodeError::InvalidQType(2))));
}

#[test]
fn unknown_qclass_is_rejected() {
    let mut b = header_bytes(0, 0, 1);
    b.extend_from_slice(&[0x00, 0x00, 0x01, 0x00, 0x04]);
    assert!(matches!(Message::parse(&b), Err(DecodeError::InvalidQClass(4))));
}

#[test]
fn two_questions_in_buffer_order() {
    let mut b = header_bytes(0, 0, 2);
    b.push(3);
    b.extend_from_slice(b"one");
    b.push(0);
    b.extend_from_slice(&[0x00, 0x01, 0x00, 0x01]);
    b.push(3);
    b.extend_from_slice(b"two");
    b.push(0);
    b.extend_from_slice(&[0x00, 0x01, 0x00, 0x01]);
    let m = Message::parse(&b).unwrap();
    assert_eq!(m.header.questions, 2);
    assert_eq!(m.questions.len(), 2);
    assert_eq!(m.questions[0].name, vec!["one".to_string()]);
    assert_eq!(m.questions[1].name, vec!["two".to_string()]);
}

#[test]
fn zero_questions_ignores_trailing_bytes() {
    let mut b = header_bytes(0, 0, 0);
    b.extend_from_slice(&[0xDE, 0xAD, 0xBE, 0xEF]);
    let m = Message::parse(&b).unwrap();
    assert_eq!(m.questions.len(), 0);
}

#[test]
fn message_shorter_than_header_is_eof() {
    assert!(matches!(Message::parse(&[]), Err(DecodeError::UnexpectedEof)));
    assert!(matches!(Message::parse(&[0u8; 11]), Err(DecodeError::UnexpectedEof)));
}

#[test]
fn message_header_errors_propagate() {
    // Reserved bit set in the flags of a full message.
    let b = header_bytes(0, 0b0010_0000, 0);
    assert!(matches!(Message::parse(&b), Err(DecodeError::ReservedBitSet)));
}

#[test]
fn fewer_questions_than_declared_is_eof() {
    let mut b = header_bytes(0, 0, 2);
    b.extend_from_slice(&[0x00, 0x00, 0x01, 0x00, 0x01]);
    assert!(matches!(Message::parse(&b), Err(DecodeError::UnexpectedEof)));
}

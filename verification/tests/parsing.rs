use dummy_ocs::avp_header::AvpHeader;
use dummy_ocs::avp_parsers::{parse_u32, round_up};
use dummy_ocs::base::ParseError;
use dummy_ocs::message_header::MessageHeader;
use dummy_ocs::server::{check_payload_len, ClientError, READ_BUFFER_SIZE};

fn header_bytes(length: u32, flags: u8, code: u32, app: u32, hbh: u32, e2e: u32) -> Vec<u8> {
    let mut b = Vec::new();
    b.push(0x01);
    b.extend_from_slice(&length.to_be_bytes()[1..4]);
    b.push(flags);
    b.extend_from_slice(&code.to_be_bytes()[1..4]);
    b.extend_from_slice(&app.to_be_bytes());
    b.extend_from_slice(&hbh.to_be_bytes());
    b.extend_from_slice(&e2e.to_be_bytes());
    b
}

#[test]
fn message_header_round_trip() {
    let b = header_bytes(48, 0x80, 272, 4, 0x11223344, 0x55667788);
    let h = MessageHeader::parse(&b).unwrap();
    assert_eq!(48, h.length);
    assert_eq!(0x80, h.flags);
    assert_eq!(272, h.command_id.code);
    assert_eq!(4, h.command_id.application_id);
    assert_eq!(0x11223344, h.hop_by_hop.0);
    assert_eq!(0x55667788, h.end_to_end.0);
    assert_eq!(28, h.payload_len());
    assert_eq!(48, h.total_len());
}

#[test]
fn message_header_rejects_reserved_bit() {
    let b = header_bytes(20, 0x08, 257, 0, 0, 0);
    assert_eq!(Err(ParseError::InvalidBitInHeader), MessageHeader::parse(&b));
}

#[test]
fn message_header_rejects_short_length() {
    let b = header_bytes(19, 0, 257, 0, 0, 0);
    assert_eq!(Err(ParseError::InvalidMessageLength), MessageHeader::parse(&b));
}

#[test]
fn overflow_closes_connection() {
    let b = header_bytes(20000, 0x80, 272, 4, 0, 0);
    let h = MessageHeader::parse(&b).unwrap();
    match check_payload_len(&h, READ_BUFFER_SIZE) {
        Err(ClientError::ReadBufferOverflow(n)) => assert_eq!(19980, n),
        _ => panic!("expected a read-buffer overflow"),
    }
}

#[test]
fn payload_within_buffer_is_accepted() {
    let b = header_bytes(1044, 0x80, 272, 4, 0, 0);
    let h = MessageHeader::parse(&b).unwrap();
    match check_payload_len(&h, READ_BUFFER_SIZE) {
        Ok(n) => assert_eq!(1024, n),
        _ => panic!("expected the exact payload length"),
    }
}

#[test]
fn avp_header_basic() {
    let b: Vec<u8> = vec![0x00, 0x00, 0x01, 0x07, 0x40, 0x00, 0x00, 0x0C, 1, 2, 3, 4];
    let h = AvpHeader::parse(&b).unwrap();
    assert_eq!(263, h.avp_id.code);
    assert_eq!(0, h.avp_id.vendor_id);
    assert_eq!(0x40, h.flags);
    assert_eq!(12, h.length);
    assert_eq!(8, h.header_len());
    assert_eq!(12, h.total_len());
    assert_eq!(4, h.payload_len());
}

#[test]
fn avp_header_vendor_form() {
    let b: Vec<u8> = vec![
        0x00, 0x00, 0x03, 0x64, 0x80, 0x00, 0x00, 0x10, 0x00, 0x00, 0x28, 0xAF, 0, 0, 0, 1,
    ];
    let h = AvpHeader::parse(&b).unwrap();
    assert_eq!(868, h.avp_id.code);
    assert_eq!(10415, h.avp_id.vendor_id);
    assert_eq!(12, h.header_len());
    assert_eq!(16, h.length);
}

#[test]
fn avp_header_rejects_reserved_bits() {
    let b: Vec<u8> = vec![0x00, 0x00, 0x01, 0x07, 0x01, 0x00, 0x00, 0x0C, 1, 2, 3, 4];
    assert_eq!(Err(ParseError::InvalidAvpBits), AvpHeader::parse(&b));
}

#[test]
fn avp_header_rejects_short_input() {
    let b: Vec<u8> = vec![0x00, 0x00, 0x01, 0x07, 0x00, 0x00];
    assert_eq!(Err(ParseError::InvalidAvpLength), AvpHeader::parse(&b));
    // The vendor form needs 12 bytes.
    let b: Vec<u8> = vec![0x00, 0x00, 0x01, 0x07, 0x80, 0x00, 0x00, 0x10, 0x00];
    assert_eq!(Err(ParseError::InvalidAvpLength), AvpHeader::parse(&b));
}

#[test]
fn avp_header_rejects_length_under_header() {
    let b: Vec<u8> = vec![0x00, 0x00, 0x01, 0x07, 0x00, 0x00, 0x00, 0x04, 1, 2, 3, 4];
    assert_eq!(Err(ParseError::InvalidAvpLength), AvpHeader::parse(&b));
}

#[test]
fn parse_u32_wants_exactly_four_bytes() {
    assert_eq!(Ok(0x01020304), parse_u32(&[1, 2, 3, 4]));
    assert_eq!(Err(ParseError::InvalidAvpLength), parse_u32(&[1, 2, 3]));
    assert_eq!(Err(ParseError::InvalidAvpLength), parse_u32(&[1, 2, 3, 4, 5]));
}

#[test]
fn round_up_to_four() {
    assert_eq!(0, round_up(0));
    assert_eq!(4, round_up(1));
    assert_eq!(4, round_up(4));
    assert_eq!(12, round_up(9));
    assert_eq!(12, round_up(11));
    assert_eq!(12, round_up(12));
}

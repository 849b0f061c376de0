use dummy_ocs::avp_header::AvpHeader;
use dummy_ocs::avp_parsers::round_up;
use dummy_ocs::base::{IpAddress, ParseError};
use dummy_ocs::gy::CcRequest;
use dummy_ocs::message_header::MessageHeader;
use dummy_ocs::server::{handle_packet, Config};

fn test_config() -> Config {
    Config {
        origin_host: b"dummy_host".to_vec(),
        origin_realm: b"dummy_realm".to_vec(),
        product_name: b"Dummy OCS".to_vec(),
        firmware_revision: 1,
        host_ip_address: IpAddress::V4([127, 0, 0, 1]),
        vendor_id: 0xFFFFFFFF,
        validity_time: 15 * 60,
        time: 0,
        time_threshold: 0,
        input_octets: 0,
        output_octets: 0,
        total_octets: 1024 * 1024,
        volume_threshold: 0,
    }
}

fn request_header(flags: u8, code: u32, app: u32, length: u32, hbh: u32, e2e: u32) -> MessageHeader {
    let mut b = Vec::new();
    b.push(0x01);
    b.extend_from_slice(&length.to_be_bytes()[1..4]);
    b.push(flags);
    b.extend_from_slice(&code.to_be_bytes()[1..4]);
    b.extend_from_slice(&app.to_be_bytes());
    b.extend_from_slice(&hbh.to_be_bytes());
    b.extend_from_slice(&e2e.to_be_bytes());
    MessageHeader::parse(&b).unwrap()
}

/// Splits a stream of AVP records into (code, vendor id, payload) triples.
fn walk_avps(buf: &[u8]) -> Vec<(u32, u32, Vec<u8>)> {
    let mut out = Vec::new();
    let mut pos = 0;
    while pos < buf.len() {
        let h = AvpHeader::parse(&buf[pos..]).unwrap();
        let padded = round_up(h.total_len());
        assert!(padded <= buf.len() - pos, "record overruns the stream");
        let payload = buf[pos + h.header_len()..pos + h.total_len()].to_vec();
        out.push((h.avp_id.code, h.avp_id.vendor_id, payload));
        pos += padded;
    }
    out
}

fn u32_payload(v: u32) -> Vec<u8> {
    v.to_be_bytes().to_vec()
}

/// Appends one AVP record with vendor id 0 to a raw payload under build.
fn push_avp(buf: &mut Vec<u8>, code: u32, payload: &[u8]) {
    buf.extend_from_slice(&code.to_be_bytes());
    buf.push(0);
    let length = (8 + payload.len()) as u32;
    buf.extend_from_slice(&length.to_be_bytes()[1..4]);
    buf.extend_from_slice(payload);
    while buf.len() % 4 != 0 {
        buf.push(0);
    }
}

#[test]
fn cer_answer_vector() {
    let config = test_config();
    let header = request_header(0x80, 257, 0, 20, 0x11223344, 0x55667788);
    let mut ccr = CcRequest::new();
    let (out, keep) = handle_packet(&config, &header, &[], Vec::new(), &mut ccr);
    assert!(keep);
    // Version byte and computed length.
    assert_eq!(0x01, out[0]);
    assert_eq!(&[0x00, 0x00], &out[1..3]);
    assert_eq!(out.len(), out[3] as usize);
    let answer = MessageHeader::parse(&out[0..20]).unwrap();
    assert_eq!(0, answer.flags);
    assert_eq!(257, answer.command_id.code);
    assert_eq!(0, answer.command_id.application_id);
    assert_eq!(0x11223344, answer.hop_by_hop.0);
    assert_eq!(0x55667788, answer.end_to_end.0);
    assert_eq!(out.len() as u32, answer.length);
    let avps = walk_avps(&out[20..]);
    let codes: Vec<u32> = avps.iter().map(|a| a.0).collect();
    assert_eq!(vec![268, 264, 296, 266, 269, 267, 257, 265, 258], codes);
    assert_eq!(u32_payload(2001), avps[0].2);
    assert_eq!(b"dummy_host".to_vec(), avps[1].2);
    assert_eq!(b"dummy_realm".to_vec(), avps[2].2);
    assert_eq!(u32_payload(0xFFFFFFFF), avps[3].2);
    assert_eq!(b"Dummy OCS".to_vec(), avps[4].2);
    assert_eq!(u32_payload(1), avps[5].2);
    assert_eq!(vec![0x00, 0x01, 127, 0, 0, 1], avps[6].2);
    assert_eq!(u32_payload(10415), avps[7].2);
    assert_eq!(u32_payload(4), avps[8].2);
}

#[test]
fn dwr_answer() {
    let config = test_config();
    let header = request_header(0x80, 280, 0, 20, 7, 8);
    let mut ccr = CcRequest::new();
    let (out, keep) = handle_packet(&config, &header, &[], Vec::new(), &mut ccr);
    assert!(keep);
    let avps = walk_avps(&out[20..]);
    let codes: Vec<u32> = avps.iter().map(|a| a.0).collect();
    assert_eq!(vec![268, 264, 296], codes);
    assert_eq!(u32_payload(2001), avps[0].2);
}

#[test]
fn dpr_closes_connection() {
    let config = test_config();
    let header = request_header(0x80, 282, 0, 20, 7, 8);
    let mut ccr = CcRequest::new();
    let (out, keep) = handle_packet(&config, &header, &[], Vec::new(), &mut ccr);
    assert!(!keep, "a Disconnect-Peer request must close the connection");
    let avps = walk_avps(&out[20..]);
    assert_eq!(u32_payload(2001), avps[0].2);
}

#[test]
fn incoming_answer_gets_no_reply() {
    let config = test_config();
    let header = request_header(0x00, 280, 0, 20, 7, 8);
    let mut ccr = CcRequest::new();
    let (out, keep) = handle_packet(&config, &header, &[], Vec::new(), &mut ccr);
    assert!(keep);
    assert!(out.is_empty());
}

#[test]
fn unknown_command_unsupported_application() {
    let config = test_config();
    let header = request_header(0x80, 999, 7, 20, 1, 2);
    let mut ccr = CcRequest::new();
    let (out, keep) = handle_packet(&config, &header, &[], Vec::new(), &mut ccr);
    assert!(keep);
    let answer = MessageHeader::parse(&out[0..20]).unwrap();
    assert_eq!(0x20, answer.flags); // error bit
    assert_eq!(999, answer.command_id.code);
    let avps = walk_avps(&out[20..]);
    assert_eq!(vec![268, 264, 296], avps.iter().map(|a| a.0).collect::<Vec<u32>>());
    assert_eq!(u32_payload(3007), avps[0].2);
}

#[test]
fn unknown_command_known_application() {
    let config = test_config();
    let mut ccr = CcRequest::new();
    let header = request_header(0x80, 999, 0, 20, 1, 2);
    let (out, _) = handle_packet(&config, &header, &[], Vec::new(), &mut ccr);
    assert_eq!(u32_payload(3001), walk_avps(&out[20..])[0].2);
    let header = request_header(0x80, 999, 4, 20, 1, 2);
    let (out, _) = handle_packet(&config, &header, &[], Vec::new(), &mut ccr);
    assert_eq!(u32_payload(3001), walk_avps(&out[20..])[0].2);
}

#[test]
fn ccr_success_with_one_service() {
    let config = test_config();
    // Session-Id "S", CC-Request-Type 1, CC-Request-Number 0, one MSCC
    // group with Service-Identifier 7, Rating-Group 9 and a
    // Requested-Service-Unit.
    let mut payload = Vec::new();
    push_avp(&mut payload, 263, b"S");
    push_avp(&mut payload, 416, &u32_payload(1));
    push_avp(&mut payload, 415, &u32_payload(0));
    let mut group = Vec::new();
    push_avp(&mut group, 439, &u32_payload(7));
    push_avp(&mut group, 432, &u32_payload(9));
    push_avp(&mut group, 437, &[]);
    push_avp(&mut payload, 456, &group);
    let header = request_header(0x80, 272, 4, 20 + payload.len() as u32, 3, 4);
    let mut ccr = CcRequest::new();
    let (out, keep) = handle_packet(&config, &header, &payload, Vec::new(), &mut ccr);
    assert!(keep);
    let answer = MessageHeader::parse(&out[0..20]).unwrap();
    assert_eq!(0, answer.flags);
    assert_eq!(272, answer.command_id.code);
    assert_eq!(4, answer.command_id.application_id);
    let avps = walk_avps(&out[20..]);
    let codes: Vec<u32> = avps.iter().map(|a| a.0).collect();
    assert_eq!(vec![263, 268, 264, 296, 258, 416, 415, 418, 455, 456], codes);
    assert_eq!(b"S".to_vec(), avps[0].2);
    assert_eq!(u32_payload(2001), avps[1].2);
    assert_eq!(u32_payload(1), avps[5].2);
    assert_eq!(u32_payload(0), avps[6].2);
    assert_eq!(u32_payload(1), avps[7].2); // CC-Session-Failover = 1
    assert!(avps[8].2.is_empty()); // Multiple-Services-Indicator
    let group = walk_avps(&avps[9].2);
    let group_codes: Vec<u32> = group.iter().map(|a| a.0).collect();
    assert_eq!(vec![268, 439, 432, 448, 431], group_codes);
    assert_eq!(u32_payload(2001), group[0].2);
    assert_eq!(u32_payload(7), group[1].2);
    assert_eq!(u32_payload(9), group[2].2);
    assert_eq!(u32_payload(900), group[3].2); // Validity-Time
    let gsu = walk_avps(&group[4].2);
    assert_eq!(vec![(421, 0, 1048576u64.to_be_bytes().to_vec())], gsu);
}

#[test]
fn ccr_proxiable_flag_propagates() {
    let config = test_config();
    let mut payload = Vec::new();
    push_avp(&mut payload, 263, b"S");
    let header = request_header(0xC0, 272, 4, 20 + payload.len() as u32, 3, 4);
    let mut ccr = CcRequest::new();
    let (out, _) = handle_packet(&config, &header, &payload, Vec::new(), &mut ccr);
    let answer = MessageHeader::parse(&out[0..20]).unwrap();
    assert_eq!(0x40, answer.flags);
}

#[test]
fn duplicate_session_id_answers_5009() {
    let config = test_config();
    let mut payload = Vec::new();
    push_avp(&mut payload, 263, b"S");
    push_avp(&mut payload, 263, b"S");
    let mut ccr = CcRequest::new();
    assert_eq!(Err(ParseError::AvpOccursTooManyTimes), ccr.parse(&payload));
    let header = request_header(0x80, 272, 4, 20 + payload.len() as u32, 3, 4);
    let (out, keep) = handle_packet(&config, &header, &payload, Vec::new(), &mut ccr);
    assert!(keep);
    let avps = walk_avps(&out[20..]);
    // The first decoded session id is echoed, then the mapped result code;
    // no failover, indicator or service groups follow.
    let codes: Vec<u32> = avps.iter().map(|a| a.0).collect();
    assert_eq!(vec![263, 268, 264, 296, 258], codes);
    assert_eq!(u32_payload(5009), avps[1].2);
}

#[test]
fn ccr_empty_session_id_answers_5004() {
    let config = test_config();
    let mut payload = Vec::new();
    push_avp(&mut payload, 263, &[]);
    let mut ccr = CcRequest::new();
    assert_eq!(Err(ParseError::InvalidAvpValue), ccr.parse(&payload));
    let header = request_header(0x80, 272, 4, 20 + payload.len() as u32, 3, 4);
    let (out, _) = handle_packet(&config, &header, &payload, Vec::new(), &mut ccr);
    let avps = walk_avps(&out[20..]);
    assert_eq!(vec![268, 264, 296, 258], avps.iter().map(|a| a.0).collect::<Vec<u32>>());
    assert_eq!(u32_payload(5004), avps[0].2);
}

#[test]
fn ccr_unknown_avps_are_ignored() {
    let config = test_config();
    let mut payload = Vec::new();
    push_avp(&mut payload, 263, b"session-0");
    push_avp(&mut payload, 9999, b"whatever");
    let mut ccr = CcRequest::new();
    assert_eq!(Ok(()), ccr.parse(&payload));
    assert_eq!(b"session-0".to_vec(), ccr.session_id);
    assert_eq!(None, ccr.request_type);
    assert!(ccr.services.is_empty());
    let header = request_header(0x80, 272, 4, 20 + payload.len() as u32, 3, 4);
    let (out, _) = handle_packet(&config, &header, &payload, Vec::new(), &mut ccr);
    assert_eq!(u32_payload(2001), walk_avps(&out[20..])[1].2);
}

#[test]
fn quota_thresholds_use_vendor_avps() {
    let mut config = test_config();
    config.time = 60;
    config.time_threshold = 10;
    config.volume_threshold = 2048;
    config.input_octets = 5;
    config.output_octets = 6;
    let mut payload = Vec::new();
    push_avp(&mut payload, 263, b"S");
    let mut group = Vec::new();
    push_avp(&mut group, 437, &[]);
    push_avp(&mut payload, 456, &group);
    let header = request_header(0x80, 272, 4, 20 + payload.len() as u32, 3, 4);
    let mut ccr = CcRequest::new();
    let (out, _) = handle_packet(&config, &header, &payload, Vec::new(), &mut ccr);
    let avps = walk_avps(&out[20..]);
    let mscc = walk_avps(&avps[avps.len() - 1].2);
    let ids: Vec<(u32, u32)> = mscc.iter().map(|a| (a.0, a.1)).collect();
    assert_eq!(vec![(268, 0), (448, 0), (868, 10415), (869, 10415), (431, 0)], ids);
    let gsu = walk_avps(&mscc[4].2);
    let gsu_codes: Vec<u32> = gsu.iter().map(|a| a.0).collect();
    assert_eq!(vec![420, 412, 414, 421], gsu_codes);
    assert_eq!(u32_payload(60), gsu[0].2);
    assert_eq!(5u64.to_be_bytes().to_vec(), gsu[1].2);
}

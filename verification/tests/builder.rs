use dummy_ocs::base::{AvpId, CommandId, CAPABILITIES_EXCHANGE, ORIGIN_HOST};
use dummy_ocs::message_builder::MessageBuilder;
use dummy_ocs::message_header::{EndToEnd, HopByHop};

fn cer_cmd() -> CommandId {
    CommandId::new(CAPABILITIES_EXCHANGE, 0)
}

#[test]
pub fn testme() {
    let bb = vec![0u8; 0];
    let mut mb = MessageBuilder::new(bb, 0, cer_cmd(), HopByHop(0), EndToEnd(0));
    mb.put_avp_u32(AvpId::base(ORIGIN_HOST), 0, 50);
    let bb = mb.finish();
    assert_eq!(20 + 12, bb.len());
}

#[test]
pub fn testme2() {
    let bb = vec![0u8; 0];
    let mut mb = MessageBuilder::new(bb, 0, cer_cmd(), HopByHop(0), EndToEnd(0));
    mb.put_avp_u32(AvpId::base(ORIGIN_HOST), 0, 50);
    mb.put_avp_u32(AvpId::base(ORIGIN_HOST), 0, 50);
    let bb = mb.finish();
    assert_eq!(20 + 2 * 12, bb.len());
}

#[test]
fn builder_basic_bytes() {
    let mut mb = MessageBuilder::new(Vec::new(), 0, cer_cmd(), HopByHop(0), EndToEnd(0));
    mb.put_avp_u32(AvpId::base(ORIGIN_HOST), 0, 50);
    let bb = mb.finish();
    let expected: Vec<u8> = vec![
        0x01, 0x00, 0x00, 0x20, // version 1, length 32
        0x00, 0x00, 0x01, 0x01, // flags 0, command 257
        0x00, 0x00, 0x00, 0x00, // application id 0
        0x00, 0x00, 0x00, 0x00, // hop-by-hop 0
        0x00, 0x00, 0x00, 0x00, // end-to-end 0
        0x00, 0x00, 0x01, 0x08, // AVP code 264
        0x00, 0x00, 0x00, 0x0C, // AVP flags 0, length 12
        0x00, 0x00, 0x00, 0x32, // value 50
    ];
    assert_eq!(expected, bb);
}

#[test]
fn padding_three_byte_payload() {
    // A 3-byte payload makes a 12-byte record whose length field reads 11.
    let mut mb = MessageBuilder::new(Vec::new(), 0, cer_cmd(), HopByHop(0), EndToEnd(0));
    mb.put_avp_bytes(AvpId::base(ORIGIN_HOST), 0, &[0xAA, 0xBB, 0xCC]);
    let bb = mb.finish();
    assert_eq!(32, bb.len());
    assert_eq!(&[0x00, 0x00, 0x0B], &bb[25..28]); // length field: 11
    assert_eq!(&[0xAA, 0xBB, 0xCC, 0x00], &bb[28..32]); // payload plus one zero pad
}

#[test]
fn padding_after_every_writer() {
    let mut mb = MessageBuilder::new(Vec::new(), 0, cer_cmd(), HopByHop(0), EndToEnd(0));
    for payload_len in 0..6 {
        let payload = vec![0x55u8; payload_len];
        mb.put_avp_bytes(AvpId::base(ORIGIN_HOST), 0, &payload);
        assert_eq!(0, mb.buffer.len() % 4);
    }
    mb.put_avp_u64(AvpId::base(ORIGIN_HOST), 0, 7);
    assert_eq!(0, mb.buffer.len() % 4);
    mb.put_avp_empty(AvpId::base(ORIGIN_HOST), 0);
    assert_eq!(0, mb.buffer.len() % 4);
}

#[test]
fn backpatch_preserves_flag_byte() {
    let mut mb = MessageBuilder::new(Vec::new(), 0, cer_cmd(), HopByHop(0), EndToEnd(0));
    let group_start = mb.buffer.len();
    mb.begin_avp(AvpId::base(ORIGIN_HOST), 0x40);
    let flag_byte_at_open = mb.buffer[group_start + 4];
    mb.put_avp_u32(AvpId::base(ORIGIN_HOST), 0, 1);
    mb.put_avp_u32(AvpId::base(ORIGIN_HOST), 0, 2);
    mb.end_avp();
    assert_eq!(0x40, flag_byte_at_open);
    assert_eq!(flag_byte_at_open, mb.buffer[group_start + 4]);
    // The patched length covers the group header and both members.
    assert_eq!(&[0x00, 0x00, 0x20], &mb.buffer[group_start + 5..group_start + 8]);
    let bb = mb.finish();
    assert_eq!(20 + 8 + 24, bb.len());
}

#[test]
fn vendor_avp_has_twelve_byte_header() {
    let mut mb = MessageBuilder::new(Vec::new(), 0, cer_cmd(), HopByHop(0), EndToEnd(0));
    mb.put_avp_u32(AvpId::vendor(868, 10415), 0x80, 3600);
    let bb = mb.finish();
    assert_eq!(20 + 16, bb.len());
    assert_eq!(&[0x00, 0x00, 0x03, 0x64], &bb[20..24]); // code 868
    assert_eq!(0x80, bb[24]); // vendor flag survives
    assert_eq!(&[0x00, 0x00, 0x10], &bb[25..28]); // length 16
    assert_eq!(&[0x00, 0x00, 0x28, 0xAF], &bb[28..32]); // vendor id 10415
    assert_eq!(&[0x00, 0x00, 0x0E, 0x10], &bb[32..36]); // value 3600
}

#[test]
fn optional_and_conditional_writers() {
    let mut mb = MessageBuilder::new(Vec::new(), 0, cer_cmd(), HopByHop(0), EndToEnd(0));
    mb.put_avp_u32_option(AvpId::base(ORIGIN_HOST), 0, None);
    mb.put_avp_u32_nonzero(AvpId::base(ORIGIN_HOST), 0, 0);
    mb.put_avp_u64_nonzero(AvpId::base(ORIGIN_HOST), 0, 0);
    mb.put_avp_bytes_nonempty(AvpId::base(ORIGIN_HOST), 0, &[]);
    let bb = mb.finish();
    assert_eq!(20, bb.len()); // nothing was emitted

    let mut mb = MessageBuilder::new(Vec::new(), 0, cer_cmd(), HopByHop(0), EndToEnd(0));
    mb.put_avp_u32_option(AvpId::base(ORIGIN_HOST), 0, Some(1));
    mb.put_avp_u32_nonzero(AvpId::base(ORIGIN_HOST), 0, 2);
    mb.put_avp_u64_nonzero(AvpId::base(ORIGIN_HOST), 0, 3);
    mb.put_avp_bytes_nonempty(AvpId::base(ORIGIN_HOST), 0, &[9]);
    let bb = mb.finish();
    assert_eq!(20 + 12 + 12 + 16 + 12, bb.len());
}

#[test]
fn builder_appends_at_buffer_tail() {
    // A reused buffer keeps what was there before the message opened.
    let mut first = MessageBuilder::new(Vec::new(), 0, cer_cmd(), HopByHop(1), EndToEnd(2));
    first.put_avp_u32(AvpId::base(ORIGIN_HOST), 0, 5);
    let prefix = first.finish();
    let prefix_len = prefix.len();
    let mut second = MessageBuilder::new(prefix, 0, cer_cmd(), HopByHop(3), EndToEnd(4));
    second.put_avp_u32(AvpId::base(ORIGIN_HOST), 0, 6);
    let both = second.finish();
    assert_eq!(2 * prefix_len, both.len());
    assert_eq!(&[0x01, 0x00, 0x00, 0x20], &both[prefix_len..prefix_len + 4]);
}

//! Per-request dispatch: selects and composes the answer to each incoming
//! Diameter request, and classifies the errors that end a connection.

use vstd::prelude::*;
use crate::base::{
    AvpId, CommandId, IpAddress, ParseError, AUTH_APPLICATION_ID, BASE_APPLICATION_ID,
    CAPABILITIES_EXCHANGE, DEVICE_WATCHDOG, DISCONNECT_PEER, FIRMWARE_REVISION, HOST_IP_ADDRESS,
    AVP_VENDOR, MSG_ERROR, MSG_PROXIABLE, MSG_REQUEST, ORIGIN_HOST, ORIGIN_REALM, PRODUCT_NAME, RC_APPLICATION_UNSUPPORTED,
    RC_COMMAND_UNSUPPORTED, RC_SUCCESS, RESULT_CODE, SESSION_ID, SUPPORTED_VENDOR_ID, VENDOR_ID,
};
use crate::bytes::be32_bytes;
use crate::gy::{
    empty_request, CcRequest, CcRequestV, CcService, APPLICATION_ID, CC_INPUT_OCTETS,
    CC_OUTPUT_OCTETS, CC_REQUEST_NUMBER, CC_REQUEST_TYPE, CC_SESSION_FAILOVER, CC_TIME,
    CC_TOTAL_OCTETS, CREDIT_CONTROL, GRANTED_SERVICE_UNIT, MULTIPLE_SERVICES_CC,
    MULTIPLE_SERVICES_INDICATOR, RATING_GROUP, SERVICE_IDENTIFIER, TGPP_VENDOR_ID,
    TIME_QUOTA_THRESHOLD, VALIDITY_TIME, VOLUME_QUOTA_THRESHOLD,
};
use crate::gy::lemma_ccr_run_bounds;
use crate::avp_parsers::parse_avps_run;
use crate::message_builder::{
    avp_encoding, lemma_avp_encoding_len, lemma_end_group, lemma_finish_message, message_bytes,
    message_header_tail, nonempty_bytes_avp, nonzero_u32_avp, nonzero_u64_avp, opt_u32_avp,
    MessageBuilder,
};
use crate::message_header::MessageHeader;

verus! {

broadcast use lemma_avp_encoding_len;

/// The per-connection read buffer: a message payload beyond this closes
/// the connection.
pub const READ_BUFFER_SIZE: usize = 16 * 1024;

/// Everything the answers carry that comes from configuration rather than
/// from the request.
pub struct Config {
    pub origin_host: Vec<u8>,
    pub origin_realm: Vec<u8>,
    pub product_name: Vec<u8>,
    pub firmware_revision: u32,
    pub host_ip_address: IpAddress,
    pub vendor_id: u32,
    pub validity_time: u32,
    pub time: u32,
    pub time_threshold: u32,
    pub input_octets: u64,
    pub output_octets: u64,
    pub total_octets: u64,
    pub volume_threshold: u32,
}

impl Config {
    /// The configured names stay small enough that every answer fits the
    /// 24-bit message length.
    pub open spec fn wf(self) -> bool {
        &&& self.origin_host@.len() <= 0xFFFF
        &&& self.origin_realm@.len() <= 0xFFFF
        &&& self.product_name@.len() <= 0xFFFF
    }
}

/// Relies on std::io::Error only as an opaque value carried inside
/// `ClientError` for the caller to report; nothing is assumed about it.
#[verifier::external_type_specification]
#[verifier::external_body]
pub struct ExIoError(std::io::Error);

/// Why a connection ends.
#[derive(Debug)]
pub enum ClientError {
    IoError(std::io::Error),
    ParseError(ParseError),
    ReadBufferOverflow(u32),
    DisconnectRequested,
}

impl From<std::io::Error> for ClientError {
    fn from(err: std::io::Error) -> (r: Self) {
        ClientError::IoError(err)
    }
}

impl vstd::std_specs::convert::FromSpecImpl<std::io::Error> for ClientError {
    open spec fn obeys_from_spec() -> bool {
        true
    }

    open spec fn from_spec(t: std::io::Error) -> Self {
        ClientError::IoError(t)
    }
}

impl From<ParseError> for ClientError {
    fn from(err: ParseError) -> (r: Self) {
        ClientError::ParseError(err)
    }
}

impl vstd::std_specs::convert::FromSpecImpl<ParseError> for ClientError {
    open spec fn obeys_from_spec() -> bool {
        true
    }

    open spec fn from_spec(t: ParseError) -> Self {
        ClientError::ParseError(t)
    }
}

/// Decides whether the payload a header announces fits the read buffer:
/// the exact payload length when it does, the overflow error carrying that
/// length when it does not.
pub fn check_payload_len(header: &MessageHeader, capacity: usize) -> (r: Result<u32, ClientError>)
    requires
        header.wf(),
    ensures
        header.length - 20 > capacity ==> (r matches Err(ClientError::ReadBufferOverflow(n))
            && n == header.length - 20),
        header.length - 20 <= capacity ==> (r matches Ok(n) && n == header.length - 20),
{
    let plen = header.payload_len();
    if plen as usize > capacity {
        Err(ClientError::ReadBufferOverflow(plen))
    } else {
        Ok(plen)
    }
}

/// The AVPs of a Capabilities-Exchange-Answer, in their fixed order.
pub open spec fn cea_body(c: Config) -> Seq<u8> {
    avp_encoding(AvpId::spec_base(RESULT_CODE), 0, be32_bytes(RC_SUCCESS)) + avp_encoding(
        AvpId::spec_base(ORIGIN_HOST),
        0,
        c.origin_host@,
    ) + avp_encoding(AvpId::spec_base(ORIGIN_REALM), 0, c.origin_realm@) + avp_encoding(
        AvpId::spec_base(VENDOR_ID),
        0,
        be32_bytes(c.vendor_id),
    ) + avp_encoding(AvpId::spec_base(PRODUCT_NAME), 0, c.product_name@) + avp_encoding(
        AvpId::spec_base(FIRMWARE_REVISION),
        0,
        be32_bytes(c.firmware_revision),
    ) + avp_encoding(
        AvpId::spec_base(HOST_IP_ADDRESS),
        0,
        crate::message_builder::address_payload(c.host_ip_address),
    ) + avp_encoding(AvpId::spec_base(SUPPORTED_VENDOR_ID), 0, be32_bytes(TGPP_VENDOR_ID))
        + avp_encoding(AvpId::spec_base(AUTH_APPLICATION_ID), 0, be32_bytes(APPLICATION_ID))
}

/// The complete Capabilities-Exchange-Answer to a request with header `h`.
pub open spec fn cea_bytes(c: Config, h: MessageHeader) -> Seq<u8> {
    message_bytes(0, h.command_id, h.hop_by_hop, h.end_to_end, cea_body(c))
}

/// The AVPs shared by Device-Watchdog and Disconnect-Peer answers.
pub open spec fn basic_answer_body(c: Config) -> Seq<u8> {
    avp_encoding(AvpId::spec_base(RESULT_CODE), 0, be32_bytes(RC_SUCCESS)) + avp_encoding(
        AvpId::spec_base(ORIGIN_HOST),
        0,
        c.origin_host@,
    ) + avp_encoding(AvpId::spec_base(ORIGIN_REALM), 0, c.origin_realm@)
}

/// The complete Device-Watchdog or Disconnect-Peer answer.
pub open spec fn basic_answer_bytes(c: Config, h: MessageHeader) -> Seq<u8> {
    message_bytes(0, h.command_id, h.hop_by_hop, h.end_to_end, basic_answer_body(c))
}

/// The result code of an answer to an unsupported command: 3001 for a
/// known application, 3007 otherwise.
pub open spec fn unknown_result_code(h: MessageHeader) -> u32 {
    if h.command_id.application_id == BASE_APPLICATION_ID || h.command_id.application_id
        == APPLICATION_ID {
        RC_COMMAND_UNSUPPORTED
    } else {
        RC_APPLICATION_UNSUPPORTED
    }
}

/// The complete answer to an unsupported command: error flag set, the
/// mapped result code, then the origin AVPs.
pub open spec fn unknown_answer_bytes(c: Config, h: MessageHeader) -> Seq<u8> {
    message_bytes(
        MSG_ERROR,
        h.command_id,
        h.hop_by_hop,
        h.end_to_end,
        avp_encoding(AvpId::spec_base(RESULT_CODE), 0, be32_bytes(unknown_result_code(h)))
            + avp_encoding(AvpId::spec_base(ORIGIN_HOST), 0, c.origin_host@) + avp_encoding(
            AvpId::spec_base(ORIGIN_REALM),
            0,
            c.origin_realm@,
        ),
    )
}

/// Appends a Capabilities-Exchange-Answer to `output`.
#[verifier::rlimit(100)]
#[verifier::spinoff_prover]
pub fn handle_cer(config: &Config, header: &MessageHeader, output: Vec<u8>) -> (r: Vec<u8>)
    requires
        config.wf(),
        header.wf(),
        output@.len() % 4 == 0,
    ensures
        r@ == output@ + cea_bytes(*config, *header),
{
    let mut mb = MessageBuilder::new(
        output,
        0,
        header.command_id,
        header.hop_by_hop,
        header.end_to_end,
    );
    mb.put_avp_u32(AvpId::base(RESULT_CODE), 0, RC_SUCCESS);
    mb.put_avp_bytes(AvpId::base(ORIGIN_HOST), 0, config.origin_host.as_slice());
    mb.put_avp_bytes(AvpId::base(ORIGIN_REALM), 0, config.origin_realm.as_slice());
    mb.put_avp_u32(AvpId::base(VENDOR_ID), 0, config.vendor_id);
    mb.put_avp_bytes(AvpId::base(PRODUCT_NAME), 0, config.product_name.as_slice());
    mb.put_avp_u32(AvpId::base(FIRMWARE_REVISION), 0, config.firmware_revision);
    mb.put_avp_address(AvpId::base(HOST_IP_ADDRESS), 0, config.host_ip_address);
    mb.put_avp_u32(AvpId::base(SUPPORTED_VENDOR_ID), 0, TGPP_VENDOR_ID);
    mb.put_avp_u32(AvpId::base(AUTH_APPLICATION_ID), 0, APPLICATION_ID);
    proof {
        assert(mb.buffer@ =~= output@ + seq![0u8, 0u8, 0u8, 0u8] + message_header_tail(
            0,
            header.command_id,
            header.hop_by_hop,
            header.end_to_end,
        ) + cea_body(*config));
        lemma_finish_message(
            output@,
            0,
            header.command_id,
            header.hop_by_hop,
            header.end_to_end,
            cea_body(*config),
        );
    }
    mb.finish()
}

/// Appends a Device-Watchdog-Answer to `output`.
pub fn handle_dwr(config: &Config, header: &MessageHeader, output: Vec<u8>) -> (r: Vec<u8>)
    requires
        config.wf(),
        header.wf(),
        output@.len() % 4 == 0,
    ensures
        r@ == output@ + basic_answer_bytes(*config, *header),
{
    let mut mb = MessageBuilder::new(
        output,
        0,
        header.command_id,
        header.hop_by_hop,
        header.end_to_end,
    );
    mb.put_avp_u32(AvpId::base(RESULT_CODE), 0, RC_SUCCESS);
    mb.put_avp_bytes(AvpId::base(ORIGIN_HOST), 0, config.origin_host.as_slice());
    mb.put_avp_bytes(AvpId::base(ORIGIN_REALM), 0, config.origin_realm.as_slice());
    proof {
        assert(mb.buffer@ =~= output@ + seq![0u8, 0u8, 0u8, 0u8] + message_header_tail(
            0,
            header.command_id,
            header.hop_by_hop,
            header.end_to_end,
        ) + basic_answer_body(*config));
        lemma_finish_message(
            output@,
            0,
            header.command_id,
            header.hop_by_hop,
            header.end_to_end,
            basic_answer_body(*config),
        );
    }
    mb.finish()
}

/// Appends a Disconnect-Peer-Answer to `output`.
pub fn handle_dpr(config: &Config, header: &MessageHeader, output: Vec<u8>) -> (r: Vec<u8>)
    requires
        config.wf(),
        header.wf(),
        output@.len() % 4 == 0,
    ensures
        r@ == output@ + basic_answer_bytes(*config, *header),
{
    handle_dwr(config, header, output)
}

/// Appends the error answer for an unsupported command to `output`.
pub fn handle_unknown(config: &Config, header: &MessageHeader, output: Vec<u8>) -> (r: Vec<u8>)
    requires
        config.wf(),
        header.wf(),
        output@.len() % 4 == 0,
    ensures
        r@ == output@ + unknown_answer_bytes(*config, *header),
{
    let result_code = if header.command_id.application_id == BASE_APPLICATION_ID {
        RC_COMMAND_UNSUPPORTED
    } else if header.command_id.application_id == APPLICATION_ID {
        RC_COMMAND_UNSUPPORTED
    } else {
        RC_APPLICATION_UNSUPPORTED
    };
    let mut mb = MessageBuilder::new(
        output,
        MSG_ERROR,
        header.command_id,
        header.hop_by_hop,
        header.end_to_end,
    );
    mb.put_avp_u32(AvpId::base(RESULT_CODE), 0, result_code);
    mb.put_avp_bytes(AvpId::base(ORIGIN_HOST), 0, config.origin_host.as_slice());
    mb.put_avp_bytes(AvpId::base(ORIGIN_REALM), 0, config.origin_realm.as_slice());
    proof {
        let body = avp_encoding(AvpId::spec_base(RESULT_CODE), 0, be32_bytes(unknown_result_code(*header)))
            + avp_encoding(AvpId::spec_base(ORIGIN_HOST), 0, config.origin_host@) + avp_encoding(
            AvpId::spec_base(ORIGIN_REALM),
            0,
            config.origin_realm@,
        );
        assert(mb.buffer@ =~= output@ + seq![0u8, 0u8, 0u8, 0u8] + message_header_tail(
            MSG_ERROR,
            header.command_id,
            header.hop_by_hop,
            header.end_to_end,
        ) + body);
        lemma_finish_message(
            output@,
            MSG_ERROR,
            header.command_id,
            header.hop_by_hop,
            header.end_to_end,
            body,
        );
    }
    mb.finish()
}

/// The AVPs inside a Granted-Service-Unit group: each quota only when its
/// configured value is positive.
pub open spec fn gsu_inner(c: Config) -> Seq<u8> {
    nonzero_u32_avp(AvpId::spec_base(CC_TIME), 0, c.time) + nonzero_u64_avp(
        AvpId::spec_base(CC_INPUT_OCTETS),
        0,
        c.input_octets,
    ) + nonzero_u64_avp(AvpId::spec_base(CC_OUTPUT_OCTETS), 0, c.output_octets) + nonzero_u64_avp(
        AvpId::spec_base(CC_TOTAL_OCTETS),
        0,
        c.total_octets,
    )
}

/// The AVPs inside one Multiple-Services-Credit-Control answer group; the
/// quota section appears only when the request asked for units.
pub open spec fn mscc_inner(c: Config, s: CcService) -> Seq<u8> {
    avp_encoding(AvpId::spec_base(RESULT_CODE), 0, be32_bytes(RC_SUCCESS)) + opt_u32_avp(
        AvpId::spec_base(SERVICE_IDENTIFIER),
        0,
        s.service_id,
    ) + opt_u32_avp(AvpId::spec_base(RATING_GROUP), 0, s.rating_group) + if s.units_requested {
        nonzero_u32_avp(AvpId::spec_base(VALIDITY_TIME), 0, c.validity_time) + nonzero_u32_avp(
            AvpId::spec_vendor(TIME_QUOTA_THRESHOLD, TGPP_VENDOR_ID),
            AVP_VENDOR,
            c.time_threshold,
        ) + nonzero_u32_avp(
            AvpId::spec_vendor(VOLUME_QUOTA_THRESHOLD, TGPP_VENDOR_ID),
            AVP_VENDOR,
            c.volume_threshold,
        ) + avp_encoding(AvpId::spec_base(GRANTED_SERVICE_UNIT), 0, gsu_inner(c))
    } else {
        Seq::empty()
    }
}

/// One complete Multiple-Services-Credit-Control group on the wire.
pub open spec fn mscc_group(c: Config, s: CcService) -> Seq<u8> {
    avp_encoding(AvpId::spec_base(MULTIPLE_SERVICES_CC), 0, mscc_inner(c, s))
}

/// The first `n` answer groups, in the order the services were requested.
pub open spec fn mscc_groups(c: Config, svcs: Seq<CcService>, n: int) -> Seq<u8>
    decreases n,
{
    if n <= 0 {
        Seq::empty()
    } else {
        mscc_groups(c, svcs, n - 1) + mscc_group(c, svcs[n - 1])
    }
}

/// One answer group never exceeds 160 bytes.
#[verifier::rlimit(100)]
pub proof fn lemma_mscc_group_len(c: Config, s: CcService)
    ensures
        mscc_group(c, s).len() <= 160,
{
    assert(gsu_inner(c).len() <= 60);
    assert(avp_encoding(AvpId::spec_base(GRANTED_SERVICE_UNIT), 0, gsu_inner(c)).len() <= 71);
    assert(mscc_inner(c, s).len() <= 148);
}

/// The answer groups together stay far below the 24-bit message length.
pub proof fn lemma_mscc_groups_len(c: Config, svcs: Seq<CcService>, n: int)
    requires
        n >= 0,
    ensures
        mscc_groups(c, svcs, n).len() <= n * 160,
    decreases n,
{
    if n > 0 {
        lemma_mscc_groups_len(c, svcs, n - 1);
        lemma_mscc_group_len(c, svcs[n - 1]);
    }
}

/// Appends the Granted-Service-Unit group with the configured quotas.
#[verifier::rlimit(100)]
#[verifier::spinoff_prover]
fn put_gsu(config: &Config, builder: &mut MessageBuilder)
    requires
        config.wf(),
        old(builder).wf(),
        old(builder).buffer@.len() + 68 <= old(builder).msg_start + 0xFFFFFF,
    ensures
        final(builder).wf(),
        final(builder).buffer@ == old(builder).buffer@ + avp_encoding(
            AvpId::spec_base(GRANTED_SERVICE_UNIT),
            0,
            gsu_inner(*config),
        ),
        final(builder).msg_start == old(builder).msg_start,
        final(builder).groups@ == old(builder).groups@,
{
    let pos0 = builder.buffer.len();
    let ghost g0 = builder.buffer@;
    builder.begin_avp(AvpId::base(GRANTED_SERVICE_UNIT), 0);
    builder.put_avp_u32_nonzero(AvpId::base(CC_TIME), 0, config.time);
    builder.put_avp_u64_nonzero(AvpId::base(CC_INPUT_OCTETS), 0, config.input_octets);
    builder.put_avp_u64_nonzero(AvpId::base(CC_OUTPUT_OCTETS), 0, config.output_octets);
    builder.put_avp_u64_nonzero(AvpId::base(CC_TOTAL_OCTETS), 0, config.total_octets);
    let ghost opened = builder.buffer@;
    proof {
        assert(opened =~= g0 + crate::message_builder::avp_header_bytes(
            AvpId::spec_base(GRANTED_SERVICE_UNIT),
            0,
            8,
        ) + gsu_inner(*config));
        lemma_end_group(g0, AvpId::spec_base(GRANTED_SERVICE_UNIT), 0, gsu_inner(*config));
        assert(builder.groups@.last() == pos0);
    }
    builder.end_avp();
    proof {
        assert(builder.groups@ =~= old(builder).groups@);
        assert(builder.buffer@ == opened.subrange(0, pos0 as int + 5) + crate::bytes::be24_bytes(
            (opened.len() - pos0) as u32,
        ) + opened.subrange(pos0 as int + 8, opened.len() as int));
        assert(builder.buffer@ == g0 + avp_encoding(
            AvpId::spec_base(GRANTED_SERVICE_UNIT),
            0,
            gsu_inner(*config),
        ));
    }
}

/// Appends the AVPs inside one Multiple-Services-Credit-Control group.
#[verifier::rlimit(100)]
#[verifier::spinoff_prover]
fn put_mscc_contents(config: &Config, service: &CcService, builder: &mut MessageBuilder)
    requires
        config.wf(),
        old(builder).wf(),
        old(builder).buffer@.len() + 152 <= old(builder).msg_start + 0xFFFFFF,
    ensures
        final(builder).wf(),
        final(builder).buffer@ == old(builder).buffer@ + mscc_inner(*config, *service),
        final(builder).msg_start == old(builder).msg_start,
        final(builder).groups@ == old(builder).groups@,
{
    let ghost b0 = builder.buffer@;
    builder.put_avp_u32(AvpId::base(RESULT_CODE), 0, RC_SUCCESS);
    builder.put_avp_u32_option(AvpId::base(SERVICE_IDENTIFIER), 0, service.service_id);
    builder.put_avp_u32_option(AvpId::base(RATING_GROUP), 0, service.rating_group);
    if service.units_requested {
        builder.put_avp_u32_nonzero(AvpId::base(VALIDITY_TIME), 0, config.validity_time);
        builder.put_avp_u32_nonzero(
            AvpId::vendor(TIME_QUOTA_THRESHOLD, TGPP_VENDOR_ID),
            AVP_VENDOR,
            config.time_threshold,
        );
        builder.put_avp_u32_nonzero(
            AvpId::vendor(VOLUME_QUOTA_THRESHOLD, TGPP_VENDOR_ID),
            AVP_VENDOR,
            config.volume_threshold,
        );
        put_gsu(config, builder);
        assert(builder.buffer@ =~= b0 + mscc_inner(*config, *service));
    } else {
        assert(builder.buffer@ =~= b0 + mscc_inner(*config, *service));
    }
}

/// Appends one Multiple-Services-Credit-Control group for `service`.
#[verifier::rlimit(100)]
#[verifier::spinoff_prover]
pub fn put_service(config: &Config, service: &CcService, builder: &mut MessageBuilder)
    requires
        config.wf(),
        old(builder).wf(),
        old(builder).buffer@.len() + 160 <= old(builder).msg_start + 0xFFFFFF,
    ensures
        final(builder).wf(),
        final(builder).buffer@ == old(builder).buffer@ + mscc_group(*config, *service),
        final(builder).buffer@.len() <= old(builder).buffer@.len() + 160,
        final(builder).msg_start == old(builder).msg_start,
        final(builder).groups@ == old(builder).groups@,
{
    let pos0 = builder.buffer.len();
    let ghost b0 = builder.buffer@;
    builder.begin_avp(AvpId::base(MULTIPLE_SERVICES_CC), 0);
    put_mscc_contents(config, service, builder);
    let ghost opened = builder.buffer@;
    proof {
        lemma_service_record(b0, opened, *config, *service);
        assert(builder.groups@.last() == pos0);
    }
    builder.end_avp();
    proof {
        assert(builder.groups@ =~= old(builder).groups@);
        assert(builder.buffer@ == b0 + mscc_group(*config, *service));
    }
}

/// Back-patching the group header turns what `put_mscc_contents` emitted
/// into exactly one complete Multiple-Services-Credit-Control record.
#[verifier::rlimit(100)]
#[verifier::spinoff_prover]
proof fn lemma_service_record(b0: Seq<u8>, opened: Seq<u8>, c: Config, s: CcService)
    requires
        opened == b0 + crate::message_builder::avp_header_bytes(
            AvpId::spec_base(MULTIPLE_SERVICES_CC),
            0,
            8,
        ) + mscc_inner(c, s),
        b0.len() % 4 == 0,
        opened.len() % 4 == 0,
        opened.len() - b0.len() <= 0xFFFFFF,
    ensures
        opened.subrange(0, b0.len() as int + 5) + crate::bytes::be24_bytes(
            (opened.len() - b0.len()) as u32,
        ) + opened.subrange(b0.len() as int + 8, opened.len() as int) == b0 + mscc_group(c, s),
        mscc_group(c, s).len() <= 160,
{
    assert(mscc_inner(c, s).len() % 4 == 0);
    lemma_end_group(b0, AvpId::spec_base(MULTIPLE_SERVICES_CC), 0, mscc_inner(c, s));
    lemma_mscc_group_len(c, s);
}

/// Appends one Multiple-Services-Credit-Control group per decoded service,
/// in wire order.
#[verifier::rlimit(100)]
#[verifier::spinoff_prover]
fn put_services(config: &Config, services: &Vec<CcService>, builder: &mut MessageBuilder)
    requires
        config.wf(),
        old(builder).wf(),
        old(builder).buffer@.len() + services@.len() * 160 <= old(builder).msg_start + 0xFFFFFF,
    ensures
        final(builder).wf(),
        final(builder).buffer@ == old(builder).buffer@ + mscc_groups(
            *config,
            services@,
            services@.len() as int,
        ),
        final(builder).msg_start == old(builder).msg_start,
        final(builder).groups@ == old(builder).groups@,
{
    let ghost base = builder.buffer@;
    proof {
        assert(base + mscc_groups(*config, services@, 0) =~= base);
    }
    let n = services.len();
    let mut i: usize = 0;
    while i < n
        invariant
            i <= n,
            n == services@.len(),
            config.wf(),
            builder.wf(),
            builder.msg_start == old(builder).msg_start,
            builder.groups@ == old(builder).groups@,
            builder.buffer@ == base + mscc_groups(*config, services@, i as int),
            builder.buffer@.len() + (n - i) * 160 <= builder.msg_start + 0xFFFFFF,
        decreases n - i,
    {
        let service = services[i];
        put_service(config, &service, builder);
        proof {
            assert(builder.buffer@ =~= base + mscc_groups(*config, services@, i as int + 1));
        }
        i = i + 1;
    }
}

/// The AVPs of a Credit-Control-Answer, in their fixed order: the echoed
/// session id when one was decoded, the result code, the origin AVPs, the
/// application id, the echoed request type and number, and — only on
/// success — the failover indicator, the services indicator and one group
/// per requested service.
pub open spec fn cca_body(c: Config, v: CcRequestV, rc: u32) -> Seq<u8> {
    nonempty_bytes_avp(AvpId::spec_base(SESSION_ID), 0, v.session_id) + avp_encoding(
        AvpId::spec_base(RESULT_CODE),
        0,
        be32_bytes(rc),
    ) + avp_encoding(AvpId::spec_base(ORIGIN_HOST), 0, c.origin_host@) + avp_encoding(
        AvpId::spec_base(ORIGIN_REALM),
        0,
        c.origin_realm@,
    ) + avp_encoding(AvpId::spec_base(AUTH_APPLICATION_ID), 0, be32_bytes(APPLICATION_ID))
        + opt_u32_avp(AvpId::spec_base(CC_REQUEST_TYPE), 0, v.request_type) + opt_u32_avp(
        AvpId::spec_base(CC_REQUEST_NUMBER),
        0,
        v.request_number,
    ) + if rc == RC_SUCCESS {
        avp_encoding(AvpId::spec_base(CC_SESSION_FAILOVER), 0, be32_bytes(1)) + avp_encoding(
            AvpId::spec_base(MULTIPLE_SERVICES_INDICATOR),
            0,
            Seq::<u8>::empty(),
        ) + mscc_groups(c, v.services, v.services.len() as int)
    } else {
        Seq::empty()
    }
}

/// The complete Credit-Control-Answer to a request whose payload is
/// `payload`: the request is decoded (possibly partially), the result code
/// is 2001 or the error's mapped code, and only the proxiable flag of the
/// request survives into the answer.
pub open spec fn cca_bytes(c: Config, h: MessageHeader, payload: Seq<u8>) -> Seq<u8> {
    let run = parse_avps_run::<CcRequest>(payload, empty_request());
    let rc = match run.1 {
        None => RC_SUCCESS,
        Some(e) => e.spec_result_code(),
    };
    message_bytes(h.flags & MSG_PROXIABLE, h.command_id, h.hop_by_hop, h.end_to_end, cca_body(c, run.0, rc))
}

/// At most one answer group fits in each eight bytes of request payload.
proof fn lemma_ccr_services_bound(payload: Seq<u8>)
    ensures
        parse_avps_run::<CcRequest>(payload, empty_request()).0.services.len() * 8 <= payload.len(),
{
    lemma_ccr_run_bounds(payload, empty_request());
}

/// Appends a Credit-Control-Answer to `output`: decodes the payload into
/// `ccr` and answers with 2001 and the granted services on success, or
/// with the error's mapped result code.
#[verifier::rlimit(100)]
#[verifier::spinoff_prover]
pub fn handle_gy_ccr(
    config: &Config,
    header: &MessageHeader,
    payload: &[u8],
    output: Vec<u8>,
    ccr: &mut CcRequest,
) -> (r: Vec<u8>)
    requires
        config.wf(),
        header.wf(),
        payload@.len() <= READ_BUFFER_SIZE,
        output@.len() % 4 == 0,
    ensures
        r@ == output@ + cca_bytes(*config, *header, payload@),
        final(ccr)@ == parse_avps_run::<CcRequest>(payload@, empty_request()).0,
{
    let result_code = match ccr.parse(payload) {
        Ok(()) => RC_SUCCESS,
        Err(e) => e.result_code(),
    };
    proof {
        lemma_ccr_run_bounds(payload@, empty_request());
    }
    let ghost run = parse_avps_run::<CcRequest>(payload@, empty_request());
    let ghost rc = match run.1 {
        None => RC_SUCCESS,
        Some(e) => e.spec_result_code(),
    };
    let new_flags = header.flags & MSG_PROXIABLE;
    let ghost head = output@ + seq![0u8, 0u8, 0u8, 0u8] + message_header_tail(
        new_flags,
        header.command_id,
        header.hop_by_hop,
        header.end_to_end,
    );
    let ghost prefix = nonempty_bytes_avp(AvpId::spec_base(SESSION_ID), 0, run.0.session_id)
        + avp_encoding(AvpId::spec_base(RESULT_CODE), 0, be32_bytes(rc)) + avp_encoding(
        AvpId::spec_base(ORIGIN_HOST),
        0,
        config.origin_host@,
    ) + avp_encoding(AvpId::spec_base(ORIGIN_REALM), 0, config.origin_realm@) + avp_encoding(
        AvpId::spec_base(AUTH_APPLICATION_ID),
        0,
        be32_bytes(APPLICATION_ID),
    ) + opt_u32_avp(AvpId::spec_base(CC_REQUEST_TYPE), 0, run.0.request_type) + opt_u32_avp(
        AvpId::spec_base(CC_REQUEST_NUMBER),
        0,
        run.0.request_number,
    );
    let mut mb = MessageBuilder::new(
        output,
        new_flags,
        header.command_id,
        header.hop_by_hop,
        header.end_to_end,
    );
    mb.put_avp_bytes_nonempty(AvpId::base(SESSION_ID), 0, ccr.session_id.as_slice());
    mb.put_avp_u32(AvpId::base(RESULT_CODE), 0, result_code);
    mb.put_avp_bytes(AvpId::base(ORIGIN_HOST), 0, config.origin_host.as_slice());
    mb.put_avp_bytes(AvpId::base(ORIGIN_REALM), 0, config.origin_realm.as_slice());
    mb.put_avp_u32(AvpId::base(AUTH_APPLICATION_ID), 0, APPLICATION_ID);
    mb.put_avp_u32_option(AvpId::base(CC_REQUEST_TYPE), 0, ccr.request_type);
    mb.put_avp_u32_option(AvpId::base(CC_REQUEST_NUMBER), 0, ccr.request_number);
    proof {
        assert(mb.buffer@ =~= head + prefix);
    }
    if result_code == RC_SUCCESS {
        mb.put_avp_u32(AvpId::base(CC_SESSION_FAILOVER), 0, 1);
        mb.put_avp_empty(AvpId::base(MULTIPLE_SERVICES_INDICATOR), 0);
        proof {
            lemma_ccr_services_bound(payload@);
        }
        put_services(config, &ccr.services, &mut mb);
        proof {
            assert(cca_body(*config, run.0, rc) =~= prefix + (avp_encoding(
                AvpId::spec_base(CC_SESSION_FAILOVER),
                0,
                be32_bytes(1),
            ) + avp_encoding(AvpId::spec_base(MULTIPLE_SERVICES_INDICATOR), 0, Seq::<u8>::empty())
                + mscc_groups(*config, run.0.services, run.0.services.len() as int)));
            assert(mb.buffer@ =~= head + cca_body(*config, run.0, rc));
        }
    } else {
        proof {
            assert(cca_body(*config, run.0, rc) =~= prefix);
            assert(mb.buffer@ =~= head + cca_body(*config, run.0, rc));
        }
    }
    proof {
        lemma_finish_message(
            output@,
            new_flags,
            header.command_id,
            header.hop_by_hop,
            header.end_to_end,
            cca_body(*config, run.0, rc),
        );
    }
    mb.finish()
}

/// What the server answers to one complete incoming message: nothing at
/// all when the request bit is clear, else the answer its command selects.
pub open spec fn packet_answer_bytes(c: Config, h: MessageHeader, payload: Seq<u8>) -> Seq<u8> {
    if h.flags & MSG_REQUEST == 0 {
        Seq::empty()
    } else if h.command_id == CommandId::spec_new(CAPABILITIES_EXCHANGE, BASE_APPLICATION_ID) {
        cea_bytes(c, h)
    } else if h.command_id == CommandId::spec_new(DEVICE_WATCHDOG, BASE_APPLICATION_ID) {
        basic_answer_bytes(c, h)
    } else if h.command_id == CommandId::spec_new(DISCONNECT_PEER, BASE_APPLICATION_ID) {
        basic_answer_bytes(c, h)
    } else if h.command_id == CommandId::spec_new(CREDIT_CONTROL, APPLICATION_ID) {
        cca_bytes(c, h, payload)
    } else {
        unknown_answer_bytes(c, h)
    }
}

/// Whether the connection stays open after this message: everything but a
/// Disconnect-Peer request keeps it open.
pub open spec fn keeps_open(h: MessageHeader) -> bool {
    !(h.flags & MSG_REQUEST != 0 && h.command_id == CommandId::spec_new(
        DISCONNECT_PEER,
        BASE_APPLICATION_ID,
    ))
}

/// Dispatches one complete incoming message: appends the answer that its
/// command selects to `output` (nothing for an incoming answer), decodes a
/// Credit-Control payload into `ccr`, and says whether the connection
/// stays open.
pub fn handle_packet(
    config: &Config,
    header: &MessageHeader,
    payload: &[u8],
    output: Vec<u8>,
    ccr: &mut CcRequest,
) -> (r: (Vec<u8>, bool))
    requires
        config.wf(),
        header.wf(),
        payload@.len() <= READ_BUFFER_SIZE,
        output@.len() % 4 == 0,
    ensures
        r.0@ == output@ + packet_answer_bytes(*config, *header, payload@),
        r.1 == keeps_open(*header),
        final(ccr)@ == if header.flags & MSG_REQUEST != 0 && header.command_id
            == CommandId::spec_new(CREDIT_CONTROL, APPLICATION_ID) {
            parse_avps_run::<CcRequest>(payload@, empty_request()).0
        } else {
            old(ccr)@
        },
{
    let ghost pre = output@;
    if header.flags & MSG_REQUEST != 0 {
        if header.command_id == CommandId::new(CAPABILITIES_EXCHANGE, BASE_APPLICATION_ID) {
            (handle_cer(config, header, output), true)
        } else if header.command_id == CommandId::new(DEVICE_WATCHDOG, BASE_APPLICATION_ID) {
            (handle_dwr(config, header, output), true)
        } else if header.command_id == CommandId::new(DISCONNECT_PEER, BASE_APPLICATION_ID) {
            (handle_dpr(config, header, output), false)
        } else if header.command_id == CommandId::new(CREDIT_CONTROL, APPLICATION_ID) {
            (handle_gy_ccr(config, header, payload, output, ccr), true)
        } else {
            (handle_unknown(config, header, output), true)
        }
    } else {
        assert(output@ =~= pre + packet_answer_bytes(*config, *header, payload@));
        (output, true)
    }
}

} // verus!

//! The Gy credit-control application: typed decoding of a
//! Credit-Control-Request payload, grouped AVPs included.

use vstd::prelude::*;
use crate::avp_parsers::{parse_avps, parse_avps_run, parse_u32, parse_u32_spec, AvpHandler};
use crate::base::{AvpId, ParseError, SESSION_ID};
use crate::bytes::push_bytes;

verus! {

pub const TGPP_VENDOR_ID: u32 = 10415;

pub const APPLICATION_ID: u32 = 4;

/// Command code of Credit-Control, used with application id 4.
pub const CREDIT_CONTROL: u32 = 272;

/// Credit-control AVP codes with vendor id 0.
pub const CC_REQUEST_NUMBER: u32 = 415;

pub const CC_REQUEST_TYPE: u32 = 416;

pub const CC_SESSION_FAILOVER: u32 = 418;

pub const MULTIPLE_SERVICES_INDICATOR: u32 = 455;

pub const MULTIPLE_SERVICES_CC: u32 = 456;

pub const REQUESTED_SERVICE_UNIT: u32 = 437;

pub const SERVICE_IDENTIFIER: u32 = 439;

pub const RATING_GROUP: u32 = 432;

pub const GRANTED_SERVICE_UNIT: u32 = 431;

pub const VALIDITY_TIME: u32 = 448;

pub const CC_INPUT_OCTETS: u32 = 412;

pub const CC_OUTPUT_OCTETS: u32 = 414;

pub const CC_TOTAL_OCTETS: u32 = 421;

pub const CC_TIME: u32 = 420;

/// 3GPP quota-threshold AVP codes, used with the 3GPP vendor id.
pub const TIME_QUOTA_THRESHOLD: u32 = 868;

pub const VOLUME_QUOTA_THRESHOLD: u32 = 869;

/// One requested service inside a Multiple-Services-Credit-Control group.
#[derive(Debug, Copy, Clone, PartialEq, Eq)]
pub struct CcService {
    pub service_id: Option<u32>,
    pub rating_group: Option<u32>,
    pub units_requested: bool,
}

/// A decoded Credit-Control-Request. Reusable: `parse` clears every field
/// before it walks the payload.
pub struct CcRequest {
    pub session_id: Vec<u8>,
    pub service_context_id: Vec<u8>,
    pub request_type: Option<u32>,
    pub request_number: Option<u32>,
    pub services: Vec<CcService>,
}

/// The mathematical value of a `CcRequest`.
#[verifier::ext_equal]
pub struct CcRequestV {
    pub session_id: Seq<u8>,
    pub service_context_id: Seq<u8>,
    pub request_type: Option<u32>,
    pub request_number: Option<u32>,
    pub services: Seq<CcService>,
}

impl View for CcRequest {
    type V = CcRequestV;

    open spec fn view(&self) -> CcRequestV {
        CcRequestV {
            session_id: self.session_id@,
            service_context_id: self.service_context_id@,
            request_type: self.request_type,
            request_number: self.request_number,
            services: self.services@,
        }
    }
}

impl View for CcService {
    type V = CcService;

    open spec fn view(&self) -> CcService {
        *self
    }
}

/// A service with nothing seen yet.
pub open spec fn empty_service() -> CcService {
    CcService { service_id: None, rating_group: None, units_requested: false }
}

/// A request with nothing seen yet.
pub open spec fn empty_request() -> CcRequestV {
    CcRequestV {
        session_id: Seq::empty(),
        service_context_id: Seq::empty(),
        request_type: None,
        request_number: None,
        services: Seq::empty(),
    }
}

/// What one AVP inside a Multiple-Services-Credit-Control group does to the
/// service being decoded: Service-Identifier and Rating-Group are u32s that
/// may occur at most once, a Requested-Service-Unit marks the service as
/// asking for quota, and everything else is ignored.
pub open spec fn service_step(pre: CcService, id: AvpId, payload: Seq<u8>) -> Result<
    CcService,
    ParseError,
> {
    if id == AvpId::spec_base(SERVICE_IDENTIFIER) {
        if pre.service_id is Some {
            Err(ParseError::AvpOccursTooManyTimes)
        } else {
            match parse_u32_spec(payload) {
                Ok(v) => Ok(CcService { service_id: Some(v), ..pre }),
                Err(e) => Err(e),
            }
        }
    } else if id == AvpId::spec_base(RATING_GROUP) {
        if pre.rating_group is Some {
            Err(ParseError::AvpOccursTooManyTimes)
        } else {
            match parse_u32_spec(payload) {
                Ok(v) => Ok(CcService { rating_group: Some(v), ..pre }),
                Err(e) => Err(e),
            }
        }
    } else if id == AvpId::spec_base(REQUESTED_SERVICE_UNIT) {
        Ok(CcService { units_requested: true, ..pre })
    } else {
        Ok(pre)
    }
}

/// What one top-level CCR AVP does to the request: Session-Id is a
/// non-empty byte string, CC-Request-Number and CC-Request-Type are u32s,
/// each at most once; every Multiple-Services-Credit-Control group decodes
/// to one more service, in wire order; everything else is ignored.
pub open spec fn ccr_step(pre: CcRequestV, id: AvpId, payload: Seq<u8>) -> Result<
    CcRequestV,
    ParseError,
> {
    if id == AvpId::spec_base(SESSION_ID) {
        if pre.session_id.len() > 0 {
            Err(ParseError::AvpOccursTooManyTimes)
        } else if payload.len() == 0 {
            Err(ParseError::InvalidAvpValue)
        } else {
            Ok(CcRequestV { session_id: payload, ..pre })
        }
    } else if id == AvpId::spec_base(CC_REQUEST_NUMBER) {
        if pre.request_number is Some {
            Err(ParseError::AvpOccursTooManyTimes)
        } else {
            match parse_u32_spec(payload) {
                Ok(v) => Ok(CcRequestV { request_number: Some(v), ..pre }),
                Err(e) => Err(e),
            }
        }
    } else if id == AvpId::spec_base(CC_REQUEST_TYPE) {
        if pre.request_type is Some {
            Err(ParseError::AvpOccursTooManyTimes)
        } else {
            match parse_u32_spec(payload) {
                Ok(v) => Ok(CcRequestV { request_type: Some(v), ..pre }),
                Err(e) => Err(e),
            }
        }
    } else if id == AvpId::spec_base(MULTIPLE_SERVICES_CC) {
        let run = parse_avps_run::<CcService>(payload, empty_service());
        match run.1 {
            None => Ok(CcRequestV { services: pre.services.push(run.0), ..pre }),
            Some(e) => Err(e),
        }
    } else {
        Ok(pre)
    }
}

impl AvpHandler for CcService {
    open spec fn handle_spec(pre: CcService, avp_id: AvpId, payload: Seq<u8>) -> Result<
        CcService,
        ParseError,
    > {
        service_step(pre, avp_id, payload)
    }

    fn handle(&mut self, avp_id: AvpId, payload: &[u8]) -> (r: Result<(), ParseError>) {
        parse_service_avp(avp_id, payload, self)
    }
}

impl AvpHandler for CcRequest {
    open spec fn handle_spec(pre: CcRequestV, avp_id: AvpId, payload: Seq<u8>) -> Result<
        CcRequestV,
        ParseError,
    > {
        ccr_step(pre, avp_id, payload)
    }

    fn handle(&mut self, avp_id: AvpId, payload: &[u8]) -> (r: Result<(), ParseError>) {
        parse_ccr_avp(avp_id, payload, self)
    }
}

impl CcRequest {
    pub fn new() -> (r: CcRequest)
        ensures
            r@ == empty_request(),
    {
        let r = CcRequest {
            request_type: None,
            request_number: None,
            session_id: Vec::new(),
            services: Vec::new(),
            service_context_id: Vec::new(),
        };
        assert(r@ =~= empty_request());
        r
    }

    /// Clears the request, then decodes `buffer` as a CCR payload. On
    /// success the request holds exactly what the walk accumulated; on an
    /// error it holds what had accumulated when the walk stopped.
    pub fn parse(&mut self, buffer: &[u8]) -> (r: Result<(), ParseError>)
        ensures
            ({
                let run = parse_avps_run::<CcRequest>(buffer@, empty_request());
                &&& final(self)@ == run.0
                &&& r == match run.1 {
                    None => Ok::<(), ParseError>(()),
                    Some(e) => Err::<(), ParseError>(e),
                }
            }),
    {
        self.session_id.clear();
        self.service_context_id.clear();
        self.request_type = None;
        self.request_number = None;
        self.services.clear();
        assert(self@ =~= empty_request());
        parse_avps(buffer, self)
    }
}

fn parse_ccr_avp(avp_id: AvpId, payload: &[u8], result: &mut CcRequest) -> (r: Result<
    (),
    ParseError,
>)
    ensures
        match r {
            Ok(()) => ccr_step(old(result)@, avp_id, payload@) == Ok::<CcRequestV, ParseError>(
                final(result)@,
            ),
            Err(e) => ccr_step(old(result)@, avp_id, payload@) == Err::<CcRequestV, ParseError>(e)
                && final(result)@ == old(result)@,
        },
{
    if avp_id == AvpId::base(SESSION_ID) {
        ok_or(result.session_id.len() == 0, ParseError::AvpOccursTooManyTimes)?;
        ok_or(payload.len() > 0, ParseError::InvalidAvpValue)?;
        push_bytes(&mut result.session_id, payload);
        assert(result@ =~= (CcRequestV { session_id: payload@, ..old(result)@ }));
    } else if avp_id == AvpId::base(CC_REQUEST_NUMBER) {
        ok_or(result.request_number.is_none(), ParseError::AvpOccursTooManyTimes)?;
        result.request_number = Some(parse_u32(payload)?);
        assert(result@ =~= (CcRequestV {
            request_number: result.request_number,
            ..old(result)@
        }));
    } else if avp_id == AvpId::base(CC_REQUEST_TYPE) {
        ok_or(result.request_type.is_none(), ParseError::AvpOccursTooManyTimes)?;
        result.request_type = Some(parse_u32(payload)?);
        assert(result@ =~= (CcRequestV { request_type: result.request_type, ..old(result)@ }));
    } else if avp_id == AvpId::base(MULTIPLE_SERVICES_CC) {
        let service = parse_service(payload)?;
        result.services.push(service);
        assert(result@ =~= (CcRequestV {
            services: old(result)@.services.push(service),
            ..old(result)@
        }));
    }
    Ok(())
}

/// Decodes one Multiple-Services-Credit-Control payload into a service.
fn parse_service(buffer: &[u8]) -> (r: Result<CcService, ParseError>)
    ensures
        ({
            let run = parse_avps_run::<CcService>(buffer@, empty_service());
            match r {
                Ok(s) => run.1 is None && s == run.0,
                Err(e) => run.1 == Some(e),
            }
        }),
{
    let mut service = CcService { service_id: None, rating_group: None, units_requested: false };
    parse_avps(buffer, &mut service)?;
    Ok(service)
}

fn parse_service_avp(avp_id: AvpId, payload: &[u8], result: &mut CcService) -> (r: Result<
    (),
    ParseError,
>)
    ensures
        match r {
            Ok(()) => service_step(*old(result), avp_id, payload@) == Ok::<CcService, ParseError>(
                *final(result),
            ),
            Err(e) => service_step(*old(result), avp_id, payload@) == Err::<CcService, ParseError>(
                e,
            ) && *final(result) == *old(result),
        },
{
    if avp_id == AvpId::base(SERVICE_IDENTIFIER) {
        ok_or(result.service_id.is_none(), ParseError::AvpOccursTooManyTimes)?;
        result.service_id = Some(parse_u32(payload)?);
    } else if avp_id == AvpId::base(RATING_GROUP) {
        ok_or(result.rating_group.is_none(), ParseError::AvpOccursTooManyTimes)?;
        result.rating_group = Some(parse_u32(payload)?);
    } else if avp_id == AvpId::base(REQUESTED_SERVICE_UNIT) {
        result.units_requested = true;
    }
    Ok(())
}

/// The at-most-once rule: once a session id, request number or request
/// type has been decoded, a second AVP of the same kind fails the parse
/// with AvpOccursTooManyTimes, whatever it carries.
pub proof fn lemma_at_most_once(pre: CcRequestV, payload: Seq<u8>)
    ensures
        pre.session_id.len() > 0 ==> ccr_step(pre, AvpId::spec_base(SESSION_ID), payload) == Err::<
            CcRequestV,
            ParseError,
        >(ParseError::AvpOccursTooManyTimes),
        pre.request_number is Some ==> ccr_step(
            pre,
            AvpId::spec_base(CC_REQUEST_NUMBER),
            payload,
        ) == Err::<CcRequestV, ParseError>(ParseError::AvpOccursTooManyTimes),
        pre.request_type is Some ==> ccr_step(pre, AvpId::spec_base(CC_REQUEST_TYPE), payload)
            == Err::<CcRequestV, ParseError>(ParseError::AvpOccursTooManyTimes),
{
}

/// What a CCR walk can accumulate is bounded by the bytes walked: the
/// session id is copied out of one AVP payload, and every decoded service
/// consumes a record of at least eight bytes.
pub proof fn lemma_ccr_run_bounds(s: Seq<u8>, acc: CcRequestV)
    ensures
        ({
            let run = parse_avps_run::<CcRequest>(s, acc);
            &&& run.0.session_id.len() <= acc.session_id.len() + s.len()
            &&& run.0.services.len() * 8 <= acc.services.len() * 8 + s.len()
        }),
    decreases s.len(),
{
    if s.len() == 0 {
    } else {
        match crate::avp_header::parse_avp_header_spec(s) {
            Err(_) => {},
            Ok(h) => {
                let padded = crate::bytes::round_up_4(h.length as int);
                if padded > s.len() {
                } else {
                    let payload = s.subrange(h.spec_header_len(), h.length as int);
                    match ccr_step(acc, h.avp_id, payload) {
                        Err(_) => {},
                        Ok(acc2) => {
                            assert(payload.len() <= padded - 8);
                            assert(acc2.session_id.len() <= acc.session_id.len()
                                || acc2.session_id.len() <= padded - 8);
                            assert(acc2.services.len() <= acc.services.len() + 1);
                            lemma_ccr_run_bounds(s.subrange(padded, s.len() as int), acc2);
                        },
                    }
                }
            },
        }
    }
}

#[inline]
fn ok_or<E>(v: bool, err: E) -> (r: Result<(), E>)
    ensures
        r == if v {
            Ok::<(), E>(())
        } else {
            Err::<(), E>(err)
        },
{
    if v {
        Ok(())
    } else {
        Err(err)
    }
}

} // verus!

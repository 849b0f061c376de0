//! Core Diameter protocol types: command and AVP identifiers, flag bits,
//! result codes, and the parse-error taxonomy.

use vstd::prelude::*;

verus! {

/// A Diameter command: 24-bit command code plus application id.
#[derive(Debug, Copy, Clone, PartialEq, Eq, Structural)]
pub struct CommandId {
    pub code: u32,
    pub application_id: u32,
}

/// An AVP identifier: code plus vendor id; vendor id 0 means IETF base.
#[derive(Debug, Copy, Clone, PartialEq, Eq, Structural)]
pub struct AvpId {
    pub code: u32,
    pub vendor_id: u32,
}

impl CommandId {
    pub open spec fn spec_new(code: u32, application_id: u32) -> CommandId {
        CommandId { code, application_id }
    }

    #[verifier::when_used_as_spec(spec_new)]
    pub fn new(code: u32, application_id: u32) -> (r: CommandId)
        ensures
            r == CommandId::spec_new(code, application_id),
    {
        CommandId { code, application_id }
    }
}

impl AvpId {
    /// An IETF base AVP (vendor id 0).
    pub open spec fn spec_base(code: u32) -> AvpId {
        AvpId { code, vendor_id: 0 }
    }

    #[verifier::when_used_as_spec(spec_base)]
    pub fn base(code: u32) -> (r: AvpId)
        ensures
            r == AvpId::spec_base(code),
    {
        AvpId { code, vendor_id: 0 }
    }

    /// A vendor-specific AVP.
    pub open spec fn spec_vendor(code: u32, vendor_id: u32) -> AvpId {
        AvpId { code, vendor_id }
    }

    #[verifier::when_used_as_spec(spec_vendor)]
    pub fn vendor(code: u32, vendor_id: u32) -> (r: AvpId)
        ensures
            r == AvpId::spec_vendor(code, vendor_id),
    {
        AvpId { code, vendor_id }
    }
}

pub const BASE_APPLICATION_ID: u32 = 0;

/// Command codes of the base protocol, all with application id 0.
pub const CAPABILITIES_EXCHANGE: u32 = 257;

pub const DEVICE_WATCHDOG: u32 = 280;

pub const DISCONNECT_PEER: u32 = 282;

/// Base-protocol AVP codes, all with vendor id 0.
pub const SESSION_ID: u32 = 263;

pub const RESULT_CODE: u32 = 268;

pub const ORIGIN_HOST: u32 = 264;

pub const ORIGIN_REALM: u32 = 296;

pub const VENDOR_ID: u32 = 266;

pub const PRODUCT_NAME: u32 = 269;

pub const FIRMWARE_REVISION: u32 = 267;

pub const HOST_IP_ADDRESS: u32 = 257;

pub const SUPPORTED_VENDOR_ID: u32 = 265;

pub const AUTH_APPLICATION_ID: u32 = 258;

/// Message flag bits; the low four bits are reserved and must be zero.
pub const MSG_REQUEST: u8 = 0x80;

pub const MSG_PROXIABLE: u8 = 0x40;

pub const MSG_ERROR: u8 = 0x20;

pub const MSG_RETRANSMITTED: u8 = 0x10;

/// AVP flag bits; the low five bits are reserved and must be zero.
pub const AVP_VENDOR: u8 = 0x80;

pub const AVP_MANDATORY: u8 = 0x40;

pub const AVP_PROTECTED: u8 = 0x20;

/// An IP address as the wire format needs it: its raw octets.
#[derive(Debug, Copy, Clone, PartialEq, Eq)]
pub enum IpAddress {
    V4([u8; 4]),
    V6([u8; 16]),
}

pub const RC_SUCCESS: u32 = 2001;

pub const RC_COMMAND_UNSUPPORTED: u32 = 3001;

pub const RC_APPLICATION_UNSUPPORTED: u32 = 3007;

/// Everything that can be wrong with an incoming message or its AVPs.
#[derive(Debug, Copy, Clone, PartialEq, Eq, Structural)]
pub enum ParseError {
    InvalidMessageLength,
    InvalidBitInHeader,
    InvalidAvpLength,
    InvalidAvpValue,
    InvalidAvpBits,
    AvpOccursTooManyTimes,
}

impl ParseError {
    /// The fixed description of each error.
    pub open spec fn spec_description(self) -> Seq<char> {
        match self {
            ParseError::InvalidMessageLength => "invalid message length"@,
            ParseError::InvalidBitInHeader => "invalid bit in message header"@,
            ParseError::InvalidAvpLength => "invalid AVP length"@,
            ParseError::InvalidAvpValue => "invalid AVP value"@,
            ParseError::InvalidAvpBits => "invalid bits in AVP header"@,
            ParseError::AvpOccursTooManyTimes => "AVP occurs too many times"@,
        }
    }

    pub fn description(&self) -> (r: &'static str)
        ensures
            r@ == self.spec_description(),
    {
        match *self {
            ParseError::InvalidMessageLength => "invalid message length",
            ParseError::InvalidBitInHeader => "invalid bit in message header",
            ParseError::InvalidAvpLength => "invalid AVP length",
            ParseError::InvalidAvpValue => "invalid AVP value",
            ParseError::InvalidAvpBits => "invalid bits in AVP header",
            ParseError::AvpOccursTooManyTimes => "AVP occurs too many times",
        }
    }

    /// The Diameter result code that a Credit-Control answer carries for
    /// each recoverable error.
    pub open spec fn spec_result_code(self) -> u32 {
        match self {
            ParseError::InvalidMessageLength => 5015,
            ParseError::InvalidBitInHeader => 5013,
            ParseError::InvalidAvpLength => 5014,
            ParseError::InvalidAvpValue => 5004,
            ParseError::InvalidAvpBits => 3009,
            ParseError::AvpOccursTooManyTimes => 5009,
        }
    }

    pub fn result_code(&self) -> (r: u32)
        ensures
            r == self.spec_result_code(),
    {
        match *self {
            ParseError::InvalidMessageLength => 5015,
            ParseError::InvalidBitInHeader => 5013,
            ParseError::InvalidAvpLength => 5014,
            ParseError::InvalidAvpValue => 5004,
            ParseError::InvalidAvpBits => 3009,
            ParseError::AvpOccursTooManyTimes => 5009,
        }
    }
}

} // verus!

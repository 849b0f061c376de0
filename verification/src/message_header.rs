//! Codec for the fixed 20-byte Diameter message header.

use vstd::prelude::*;
use crate::base::{CommandId, ParseError};
use crate::bytes::{read_u24, read_u32, u24_of, u32_of, lemma_u24_bound};

verus! {

pub const MESSAGE_HEADER_SIZE: u32 = 20;

/// Opaque hop-by-hop correlation token, echoed verbatim in answers.
#[derive(Debug, Copy, Clone, PartialEq, Eq, Structural)]
pub struct HopByHop(pub u32);

/// Opaque end-to-end correlation token, echoed verbatim in answers.
#[derive(Debug, Copy, Clone, PartialEq, Eq, Structural)]
pub struct EndToEnd(pub u32);

/// A decoded message header. `length` counts the header and every AVP.
#[derive(Debug, Copy, Clone, PartialEq, Eq, Structural)]
pub struct MessageHeader {
    pub command_id: CommandId,
    pub flags: u8,
    pub hop_by_hop: HopByHop,
    pub end_to_end: EndToEnd,
    pub length: u32,
}

/// What parsing a 20-byte message header yields.
pub open spec fn parse_message_header_spec(s: Seq<u8>) -> Result<MessageHeader, ParseError> {
    let length = u24_of(s[1], s[2], s[3]);
    if length < 20 {
        Err(ParseError::InvalidMessageLength)
    } else if s[4] & 0x0F != 0 {
        Err(ParseError::InvalidBitInHeader)
    } else {
        Ok(
            MessageHeader {
                command_id: CommandId {
                    code: u24_of(s[5], s[6], s[7]),
                    application_id: u32_of(s[8], s[9], s[10], s[11]),
                },
                flags: s[4],
                hop_by_hop: HopByHop(u32_of(s[12], s[13], s[14], s[15])),
                end_to_end: EndToEnd(u32_of(s[16], s[17], s[18], s[19])),
                length,
            },
        )
    }
}

impl MessageHeader {
    /// A parsed header always satisfies this.
    pub open spec fn wf(self) -> bool {
        &&& self.flags & 0x0F == 0
        &&& 20 <= self.length <= 0xFFFFFF
        &&& self.command_id.code <= 0xFFFFFF
    }

    /// Decodes a 20-byte message header.
    pub fn parse(buffer: &[u8]) -> (r: Result<MessageHeader, ParseError>)
        requires
            buffer@.len() == 20,
        ensures
            r == parse_message_header_spec(buffer@),
            r matches Ok(h) ==> h.wf(),
    {
        let length = read_u24(buffer, 1);
        proof {
            lemma_u24_bound(buffer@[1], buffer@[2], buffer@[3]);
            lemma_u24_bound(buffer@[5], buffer@[6], buffer@[7]);
        }
        if length < MESSAGE_HEADER_SIZE {
            return Err(ParseError::InvalidMessageLength);
        }
        let flags = buffer[4];
        if flags & 0x0F != 0 {
            return Err(ParseError::InvalidBitInHeader);
        }
        Ok(
            MessageHeader {
                command_id: CommandId {
                    code: read_u24(buffer, 5),
                    application_id: read_u32(buffer, 8),
                },
                flags,
                hop_by_hop: HopByHop(read_u32(buffer, 12)),
                end_to_end: EndToEnd(read_u32(buffer, 16)),
                length,
            },
        )
    }

    pub fn total_len(&self) -> (r: u32)
        ensures
            r == self.length,
    {
        self.length
    }

    pub fn payload_len(&self) -> (r: u32)
        requires
            self.length >= 20,
        ensures
            r == self.length - 20,
    {
        self.length - MESSAGE_HEADER_SIZE
    }
}

} // verus!

//! Codec for the 8- or 12-byte AVP header.

use vstd::prelude::*;
use crate::base::{AvpId, ParseError};
use crate::bytes::{read_u24, read_u32, u24_of, u32_of, lemma_u24_bound};

verus! {

/// A decoded AVP header. `length` counts the header itself and the payload,
/// but never the trailing padding.
#[derive(Debug, Copy, Clone, PartialEq, Eq, Structural)]
pub struct AvpHeader {
    pub avp_id: AvpId,
    pub flags: u8,
    pub length: u32,
}

/// What parsing an AVP header from the front of `s` yields.
pub open spec fn parse_avp_header_spec(s: Seq<u8>) -> Result<AvpHeader, ParseError> {
    if s.len() < 8 {
        Err(ParseError::InvalidAvpLength)
    } else if s[4] & 0x1F != 0 {
        Err(ParseError::InvalidAvpBits)
    } else {
        let flags = s[4];
        let code = u32_of(s[0], s[1], s[2], s[3]);
        let length = u24_of(s[5], s[6], s[7]);
        if flags & 0x80 != 0 {
            if s.len() < 12 {
                Err(ParseError::InvalidAvpLength)
            } else if length < 12 {
                Err(ParseError::InvalidAvpLength)
            } else {
                Ok(
                    AvpHeader {
                        avp_id: AvpId { code, vendor_id: u32_of(s[8], s[9], s[10], s[11]) },
                        flags,
                        length,
                    },
                )
            }
        } else {
            if length < 8 {
                Err(ParseError::InvalidAvpLength)
            } else {
                Ok(AvpHeader { avp_id: AvpId { code, vendor_id: 0 }, flags, length })
            }
        }
    }
}

impl AvpHeader {
    /// 12 bytes when the vendor flag is set, 8 otherwise.
    pub open spec fn spec_header_len(self) -> int {
        if self.flags & 0x80 != 0 {
            12
        } else {
            8
        }
    }

    /// A parsed header always satisfies this: the reserved flag bits are
    /// clear and the declared length covers at least the header itself.
    pub open spec fn wf(self) -> bool {
        &&& self.flags & 0x1F == 0
        &&& self.spec_header_len() <= self.length <= 0xFFFFFF
    }

    /// Decodes the AVP header at the front of `buffer`.
    pub fn parse(buffer: &[u8]) -> (r: Result<AvpHeader, ParseError>)
        ensures
            r == parse_avp_header_spec(buffer@),
            r matches Ok(h) ==> h.wf(),
    {
        if buffer.len() < 8 {
            return Err(ParseError::InvalidAvpLength);
        }
        let flags = buffer[4];
        if flags & 0x1F != 0 {
            return Err(ParseError::InvalidAvpBits);
        }
        let code = read_u32(buffer, 0);
        let length = read_u24(buffer, 5);
        proof {
            lemma_u24_bound(buffer@[5], buffer@[6], buffer@[7]);
        }
        if flags & 0x80 != 0 {
            if buffer.len() < 12 {
                return Err(ParseError::InvalidAvpLength);
            }
            if length < 12 {
                return Err(ParseError::InvalidAvpLength);
            }
            let vendor_id = read_u32(buffer, 8);
            Ok(AvpHeader { avp_id: AvpId { code, vendor_id }, flags, length })
        } else {
            if length < 8 {
                return Err(ParseError::InvalidAvpLength);
            }
            Ok(AvpHeader { avp_id: AvpId { code, vendor_id: 0 }, flags, length })
        }
    }

    pub fn header_len(&self) -> (r: usize)
        ensures
            r == self.spec_header_len(),
    {
        if self.flags & 0x80 != 0 {
            12
        } else {
            8
        }
    }

    /// The on-wire length declared by the header, padding excluded.
    pub fn total_len(&self) -> (r: usize)
        ensures
            r == self.length,
    {
        self.length as usize
    }

    pub fn payload_len(&self) -> (r: usize)
        requires
            self.wf(),
        ensures
            r == self.length - self.spec_header_len(),
    {
        self.length as usize - self.header_len()
    }
}

} // verus!

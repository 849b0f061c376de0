//! Walks a byte buffer as a sequence of AVP records, handing each decoded
//! AVP to a typed accumulator.

use vstd::prelude::*;
use crate::avp_header::{parse_avp_header_spec, AvpHeader};
use crate::base::{AvpId, ParseError};
use crate::bytes::{round_up_4, u32_of};
use crate::bytes::read_u32;

verus! {

/// An accumulator the AVP walker feeds. `handle_spec` is the handler's
/// mathematical meaning; `handle` must follow it exactly, and must leave
/// the accumulator untouched when it rejects an AVP.
pub trait AvpHandler: View + Sized {
    /// What handling one AVP does to the accumulator.
    spec fn handle_spec(pre: Self::V, avp_id: AvpId, payload: Seq<u8>) -> Result<
        Self::V,
        ParseError,
    >;

    fn handle(&mut self, avp_id: AvpId, payload: &[u8]) -> (r: Result<(), ParseError>)
        ensures
            match r {
                Ok(()) => Self::handle_spec(old(self)@, avp_id, payload@) == Ok::<
                    Self::V,
                    ParseError,
                >(final(self)@),
                Err(e) => Self::handle_spec(old(self)@, avp_id, payload@) == Err::<
                    Self::V,
                    ParseError,
                >(e) && final(self)@ == old(self)@,
            },
    ;
}

/// Walking `s` from the front: the accumulator when the walk stops, and the
/// error that stopped it, if any. Each record advances by its padded size;
/// the walk ends cleanly exactly at the end of the buffer.
pub open spec fn parse_avps_run<T: AvpHandler>(s: Seq<u8>, acc: T::V) -> (T::V, Option<ParseError>)
    decreases s.len(),
{
    if s.len() == 0 {
        (acc, None)
    } else {
        match parse_avp_header_spec(s) {
            Err(e) => (acc, Some(e)),
            Ok(h) => {
                let padded = round_up_4(h.length as int);
                if padded > s.len() {
                    (acc, Some(ParseError::InvalidAvpLength))
                } else {
                    match T::handle_spec(
                        acc,
                        h.avp_id,
                        s.subrange(h.spec_header_len(), h.length as int),
                    ) {
                        Err(e) => (acc, Some(e)),
                        Ok(acc2) => parse_avps_run::<T>(s.subrange(padded, s.len() as int), acc2),
                    }
                }
            },
        }
    }
}

/// Walks `buffer` as a sequence of AVPs, feeding `result`. Returns the
/// first error: a malformed header, a record that overruns the buffer, or
/// a rejection by the handler.
pub fn parse_avps<T: AvpHandler>(buffer: &[u8], result: &mut T) -> (r: Result<(), ParseError>)
    ensures
        ({
            let run = parse_avps_run::<T>(buffer@, old(result)@);
            &&& final(result)@ == run.0
            &&& r == match run.1 {
                None => Ok::<(), ParseError>(()),
                Some(e) => Err::<(), ParseError>(e),
            }
        }),
{
    let mut pos: usize = 0;
    proof {
        assert(buffer@.subrange(0, buffer@.len() as int) =~= buffer@);
    }
    while pos < buffer.len()
        invariant
            pos <= buffer@.len(),
            parse_avps_run::<T>(buffer@, old(result)@) == parse_avps_run::<T>(
                buffer@.subrange(pos as int, buffer@.len() as int),
                result@,
            ),
        decreases buffer@.len() - pos,
    {
        let ghost sub = buffer@.subrange(pos as int, buffer@.len() as int);
        let ghost pre = result@;
        let header = match AvpHeader::parse(&buffer[pos..buffer.len()]) {
            Ok(h) => h,
            Err(e) => {
                return Err(e);
            },
        };
        let padded = round_up(header.total_len());
        if padded > buffer.len() - pos {
            return Err(ParseError::InvalidAvpLength);
        }
        let start = pos + header.header_len();
        let end = pos + header.total_len();
        let r = result.handle(header.avp_id, &buffer[start..end]);
        proof {
            assert(buffer@.subrange(start as int, end as int) =~= sub.subrange(
                header.spec_header_len(),
                header.length as int,
            ));
        }
        if let Err(e) = r {
            return Err(e);
        }
        pos = pos + padded;
        proof {
            assert(buffer@.subrange(pos as int, buffer@.len() as int) =~= sub.subrange(
                padded as int,
                sub.len() as int,
            ));
        }
    }
    Ok(())
}

/// `value` rounded up to the next multiple of 4.
pub fn round_up(value: usize) -> (r: usize)
    requires
        value + 3 <= usize::MAX,
    ensures
        r == round_up_4(value as int),
{
    let rem = value % 4;
    if rem == 0 {
        value
    } else {
        value + (4 - rem)
    }
}

/// What decoding an Unsigned32 AVP payload yields: exactly four bytes,
/// big-endian.
pub open spec fn parse_u32_spec(s: Seq<u8>) -> Result<u32, ParseError> {
    if s.len() != 4 {
        Err(ParseError::InvalidAvpLength)
    } else {
        Ok(u32_of(s[0], s[1], s[2], s[3]))
    }
}

/// Decodes an Unsigned32 AVP payload.
pub fn parse_u32(buffer: &[u8]) -> (r: Result<u32, ParseError>)
    ensures
        r == parse_u32_spec(buffer@),
{
    if buffer.len() != 4 {
        return Err(ParseError::InvalidAvpLength);
    }
    Ok(read_u32(buffer, 0))
}

} // verus!

//! Streaming emitter for Diameter messages.
//!
//! A builder owns the output buffer. Opening a message reserves the 20-byte
//! header with a placeholder length word; primitive AVP writers append
//! complete, 4-byte-aligned records; `begin_avp`/`end_avp` bracket a grouped
//! AVP whose length is back-patched when the scope ends; `finish` patches
//! the message length and hands the buffer back.

use vstd::prelude::*;
use crate::avp_header::{parse_avp_header_spec, AvpHeader};
use crate::base::{AvpId, CommandId, IpAddress, ParseError};
use crate::message_header::parse_message_header_spec;
use crate::message_header::MessageHeader;
use crate::bytes::{
    be16_bytes, be24_bytes, be32_bytes, be64_bytes, lemma_u24_roundtrip, lemma_u32_roundtrip, pad4,
    pad_to_4, push_be16, push_be24, push_be32, push_be64, push_bytes, push_octets, round_up_4,
    set_be24, zeros,
};
use crate::message_header::{EndToEnd, HopByHop};

verus! {

/// The header bytes of an AVP: 12 bytes with a trailing vendor id when the
/// vendor id is non-zero, 8 bytes otherwise.
pub open spec fn avp_header_len(id: AvpId) -> int {
    if id.vendor_id != 0 {
        12
    } else {
        8
    }
}

/// The total on-wire size of an AVP record with `payload_len` payload bytes:
/// header plus payload, rounded up to the next 4-byte boundary.
pub open spec fn avp_record_len(id: AvpId, payload_len: int) -> int {
    round_up_4(avp_header_len(id) + payload_len)
}

/// The emitted AVP header with declared length `len`. Only the V, M and P
/// bits of `flags` reach the wire.
pub open spec fn avp_header_bytes(id: AvpId, flags: u8, len: u32) -> Seq<u8> {
    if id.vendor_id != 0 {
        be32_bytes(id.code) + seq![flags & 0xE0] + be24_bytes(len) + be32_bytes(id.vendor_id)
    } else {
        be32_bytes(id.code) + seq![flags & 0xE0] + be24_bytes(len)
    }
}

/// One complete AVP record as it appears on the wire: header with the exact
/// (unpadded) length, payload, then zero padding to a 4-byte boundary.
pub open spec fn avp_encoding(id: AvpId, flags: u8, payload: Seq<u8>) -> Seq<u8> {
    avp_header_bytes(id, flags, (avp_header_len(id) + payload.len()) as u32) + payload + zeros(
        pad4(avp_header_len(id) + payload.len() as int),
    )
}

/// An optional u32 AVP: present values encode, absent ones emit nothing.
pub open spec fn opt_u32_avp(id: AvpId, flags: u8, v: Option<u32>) -> Seq<u8> {
    match v {
        Some(x) => avp_encoding(id, flags, be32_bytes(x)),
        None => Seq::empty(),
    }
}

/// A u32 AVP that is emitted only for a positive value.
pub open spec fn nonzero_u32_avp(id: AvpId, flags: u8, v: u32) -> Seq<u8> {
    if v > 0 {
        avp_encoding(id, flags, be32_bytes(v))
    } else {
        Seq::empty()
    }
}

/// A u64 AVP that is emitted only for a positive value.
pub open spec fn nonzero_u64_avp(id: AvpId, flags: u8, v: u64) -> Seq<u8> {
    if v > 0 {
        avp_encoding(id, flags, be64_bytes(v))
    } else {
        Seq::empty()
    }
}

/// A bytes AVP that is emitted only for a non-empty payload.
pub open spec fn nonempty_bytes_avp(id: AvpId, flags: u8, payload: Seq<u8>) -> Seq<u8> {
    if payload.len() > 0 {
        avp_encoding(id, flags, payload)
    } else {
        Seq::empty()
    }
}

/// The payload of a Host-IP-Address AVP: the IANA address family, big
/// endian on two bytes, followed by the raw octets.
pub open spec fn address_payload(a: IpAddress) -> Seq<u8> {
    match a {
        IpAddress::V4(o) => be16_bytes(1) + o@,
        IpAddress::V6(o) => be16_bytes(2) + o@,
    }
}

/// Bytes 4..20 of a message header: flags, command code, application id,
/// hop-by-hop and end-to-end identifiers.
pub open spec fn message_header_tail(
    flags: u8,
    cmd: CommandId,
    hbh: HopByHop,
    e2e: EndToEnd,
) -> Seq<u8> {
    seq![flags] + be24_bytes(cmd.code) + be32_bytes(cmd.application_id) + be32_bytes(hbh.0)
        + be32_bytes(e2e.0)
}

/// A complete 20-byte message header: version 1, 24-bit length, tail.
pub open spec fn message_header_bytes(
    flags: u8,
    cmd: CommandId,
    hbh: HopByHop,
    e2e: EndToEnd,
    len: u32,
) -> Seq<u8> {
    seq![1u8] + be24_bytes(len) + message_header_tail(flags, cmd, hbh, e2e)
}

/// A complete message: header whose length covers header and body, then body.
pub open spec fn message_bytes(
    flags: u8,
    cmd: CommandId,
    hbh: HopByHop,
    e2e: EndToEnd,
    body: Seq<u8>,
) -> Seq<u8> {
    message_header_bytes(flags, cmd, hbh, e2e, (20 + body.len()) as u32) + body
}

/// A streaming message emitter. `msg_start` is where the 20-byte message
/// header was reserved; `groups` holds the start offsets of the grouped
/// AVPs that are still open, outermost first.
pub struct MessageBuilder {
    pub buffer: Vec<u8>,
    pub msg_start: usize,
    pub groups: Vec<usize>,
}

impl MessageBuilder {
    /// The builder's invariant: the reserved header is in place, the buffer
    /// is 4-byte aligned, the message body still fits the 24-bit length
    /// field, and every open group starts inside the message with room for
    /// its own header.
    pub open spec fn wf(self) -> bool {
        &&& self.msg_start + 20 <= self.buffer@.len()
        &&& self.buffer@.len() % 4 == 0
        &&& self.buffer@.len() - self.msg_start <= 0xFFFFFF
        &&& forall|i: int|
            0 <= i < self.groups@.len() ==> self.msg_start + 20 <= #[trigger] self.groups@[i]
                && self.groups@[i] + 8 <= self.buffer@.len()
    }

    /// Opens a message at the tail of `buffer`: reserves the header with a
    /// placeholder length word and writes flags, command and the two
    /// correlation identifiers.
    pub fn new(
        buffer: Vec<u8>,
        flags: u8,
        cmd: CommandId,
        hop_by_hop: HopByHop,
        end_to_end: EndToEnd,
    ) -> (r: MessageBuilder)
        requires
            buffer@.len() % 4 == 0,
            cmd.code <= 0xFFFFFF,
        ensures
            r.wf(),
            r.msg_start == buffer@.len(),
            r.groups@.len() == 0,
            r.buffer@ == buffer@ + seq![0u8, 0u8, 0u8, 0u8] + message_header_tail(
                flags,
                cmd,
                hop_by_hop,
                end_to_end,
            ),
    {
        let msg_start = buffer.len();
        let mut buffer = buffer;
        let ghost orig = buffer@;
        buffer.push(0);
        buffer.push(0);
        buffer.push(0);
        buffer.push(0);
        buffer.push(flags);
        push_be24(&mut buffer, cmd.code);
        push_be32(&mut buffer, cmd.application_id);
        push_be32(&mut buffer, hop_by_hop.0);
        push_be32(&mut buffer, end_to_end.0);
        let r = MessageBuilder { buffer, msg_start, groups: Vec::new() };
        assert(r.buffer@ =~= orig + seq![0u8, 0u8, 0u8, 0u8] + message_header_tail(
            flags,
            cmd,
            hop_by_hop,
            end_to_end,
        ));
        r
    }

    /// Appends an AVP header that declares `payload_length` payload bytes.
    fn write_avp_header(&mut self, avp_id: AvpId, flags: u8, payload_length: u32)
        requires
            old(self).wf(),
            old(self).buffer@.len() + avp_record_len(avp_id, payload_length as int) <= old(
                self,
            ).msg_start + 0xFFFFFF,
        ensures
            final(self).buffer@ == old(self).buffer@ + avp_header_bytes(
                avp_id,
                flags,
                (avp_header_len(avp_id) + payload_length) as u32,
            ),
            final(self).msg_start == old(self).msg_start,
            final(self).groups@ == old(self).groups@,
    {
        if avp_id.vendor_id != 0 {
            push_be32(&mut self.buffer, avp_id.code);
            self.buffer.push(flags & 0xE0);
            push_be24(&mut self.buffer, 12 + payload_length);
            push_be32(&mut self.buffer, avp_id.vendor_id);
        } else {
            push_be32(&mut self.buffer, avp_id.code);
            self.buffer.push(flags & 0xE0);
            push_be24(&mut self.buffer, 8 + payload_length);
        }
        assert(self.buffer@ =~= old(self).buffer@ + avp_header_bytes(
            avp_id,
            flags,
            (avp_header_len(avp_id) + payload_length) as u32,
        ));
    }

    /// Appends an AVP with an empty payload.
    pub fn put_avp_empty(&mut self, avp_id: AvpId, flags: u8)
        requires
            old(self).wf(),
            old(self).buffer@.len() + avp_record_len(avp_id, 0) <= old(self).msg_start + 0xFFFFFF,
        ensures
            final(self).wf(),
            final(self).buffer@ == old(self).buffer@ + avp_encoding(
                avp_id,
                flags,
                Seq::<u8>::empty(),
            ),
            final(self).buffer@.len() % 4 == 0,
            final(self).msg_start == old(self).msg_start,
            final(self).groups@ == old(self).groups@,
    {
        self.write_avp_header(avp_id, flags, 0);
        assert(self.buffer@ =~= old(self).buffer@ + avp_encoding(
            avp_id,
            flags,
            Seq::<u8>::empty(),
        ));
    }

    /// Appends an AVP holding a big-endian u32.
    pub fn put_avp_u32(&mut self, avp_id: AvpId, flags: u8, value: u32)
        requires
            old(self).wf(),
            old(self).buffer@.len() + avp_record_len(avp_id, 4) <= old(self).msg_start + 0xFFFFFF,
        ensures
            final(self).wf(),
            final(self).buffer@ == old(self).buffer@ + avp_encoding(
                avp_id,
                flags,
                be32_bytes(value),
            ),
            final(self).buffer@.len() % 4 == 0,
            final(self).msg_start == old(self).msg_start,
            final(self).groups@ == old(self).groups@,
    {
        self.write_avp_header(avp_id, flags, 4);
        push_be32(&mut self.buffer, value);
        assert(self.buffer@ =~= old(self).buffer@ + avp_encoding(avp_id, flags, be32_bytes(value)));
    }

    /// Appends a u32 AVP when a value is present, nothing otherwise.
    pub fn put_avp_u32_option(&mut self, avp_id: AvpId, flags: u8, value: Option<u32>)
        requires
            old(self).wf(),
            old(self).buffer@.len() + avp_record_len(avp_id, 4) <= old(self).msg_start + 0xFFFFFF,
        ensures
            final(self).wf(),
            final(self).buffer@ == old(self).buffer@ + opt_u32_avp(avp_id, flags, value),
            final(self).buffer@.len() % 4 == 0,
            final(self).msg_start == old(self).msg_start,
            final(self).groups@ == old(self).groups@,
    {
        if let Some(v) = value {
            self.put_avp_u32(avp_id, flags, v);
        } else {
            assert(self.buffer@ =~= old(self).buffer@ + opt_u32_avp(avp_id, flags, value));
        }
    }

    /// Appends a u32 AVP only when the value is positive.
    pub fn put_avp_u32_nonzero(&mut self, avp_id: AvpId, flags: u8, value: u32)
        requires
            old(self).wf(),
            old(self).buffer@.len() + avp_record_len(avp_id, 4) <= old(self).msg_start + 0xFFFFFF,
        ensures
            final(self).wf(),
            final(self).buffer@ == old(self).buffer@ + nonzero_u32_avp(avp_id, flags, value),
            final(self).buffer@.len() % 4 == 0,
            final(self).msg_start == old(self).msg_start,
            final(self).groups@ == old(self).groups@,
    {
        if value > 0 {
            self.put_avp_u32(avp_id, flags, value);
        } else {
            assert(self.buffer@ =~= old(self).buffer@ + nonzero_u32_avp(avp_id, flags, value));
        }
    }

    /// Appends an AVP holding a big-endian u64.
    pub fn put_avp_u64(&mut self, avp_id: AvpId, flags: u8, value: u64)
        requires
            old(self).wf(),
            old(self).buffer@.len() + avp_record_len(avp_id, 8) <= old(self).msg_start + 0xFFFFFF,
        ensures
            final(self).wf(),
            final(self).buffer@ == old(self).buffer@ + avp_encoding(
                avp_id,
                flags,
                be64_bytes(value),
            ),
            final(self).buffer@.len() % 4 == 0,
            final(self).msg_start == old(self).msg_start,
            final(self).groups@ == old(self).groups@,
    {
        self.write_avp_header(avp_id, flags, 8);
        push_be64(&mut self.buffer, value);
        assert(self.buffer@ =~= old(self).buffer@ + avp_encoding(avp_id, flags, be64_bytes(value)));
    }

    /// Appends a u64 AVP only when the value is positive.
    pub fn put_avp_u64_nonzero(&mut self, avp_id: AvpId, flags: u8, value: u64)
        requires
            old(self).wf(),
            old(self).buffer@.len() + avp_record_len(avp_id, 8) <= old(self).msg_start + 0xFFFFFF,
        ensures
            final(self).wf(),
            final(self).buffer@ == old(self).buffer@ + nonzero_u64_avp(avp_id, flags, value),
            final(self).buffer@.len() % 4 == 0,
            final(self).msg_start == old(self).msg_start,
            final(self).groups@ == old(self).groups@,
    {
        if value > 0 {
            self.put_avp_u64(avp_id, flags, value);
        } else {
            assert(self.buffer@ =~= old(self).buffer@ + nonzero_u64_avp(avp_id, flags, value));
        }
    }

    /// Appends an AVP whose payload is `value` verbatim, then padding.
    pub fn put_avp_bytes(&mut self, avp_id: AvpId, flags: u8, value: &[u8])
        requires
            old(self).wf(),
            old(self).buffer@.len() + avp_record_len(avp_id, value@.len() as int) <= old(
                self,
            ).msg_start + 0xFFFFFF,
        ensures
            final(self).wf(),
            final(self).buffer@ == old(self).buffer@ + avp_encoding(avp_id, flags, value@),
            final(self).buffer@.len() % 4 == 0,
            final(self).msg_start == old(self).msg_start,
            final(self).groups@ == old(self).groups@,
    {
        self.write_avp_header(avp_id, flags, value.len() as u32);
        push_bytes(&mut self.buffer, value);
        pad_to_4(&mut self.buffer);
        assert(self.buffer@ =~= old(self).buffer@ + avp_encoding(avp_id, flags, value@));
    }

    /// Appends a bytes AVP only when the payload is non-empty.
    pub fn put_avp_bytes_nonempty(&mut self, avp_id: AvpId, flags: u8, value: &[u8])
        requires
            old(self).wf(),
            old(self).buffer@.len() + avp_record_len(avp_id, value@.len() as int) <= old(
                self,
            ).msg_start + 0xFFFFFF,
        ensures
            final(self).wf(),
            final(self).buffer@ == old(self).buffer@ + nonempty_bytes_avp(avp_id, flags, value@),
            final(self).buffer@.len() % 4 == 0,
            final(self).msg_start == old(self).msg_start,
            final(self).groups@ == old(self).groups@,
    {
        if value.len() > 0 {
            self.put_avp_bytes(avp_id, flags, value);
        } else {
            assert(self.buffer@ =~= old(self).buffer@ + nonempty_bytes_avp(avp_id, flags, value@));
        }
    }

    /// Appends an address AVP: two-byte address family, then the octets.
    pub fn put_avp_address(&mut self, avp_id: AvpId, flags: u8, address: IpAddress)
        requires
            old(self).wf(),
            old(self).buffer@.len() + avp_record_len(
                avp_id,
                address_payload(address).len() as int,
            ) <= old(self).msg_start + 0xFFFFFF,
        ensures
            final(self).wf(),
            final(self).buffer@ == old(self).buffer@ + avp_encoding(
                avp_id,
                flags,
                address_payload(address),
            ),
            final(self).buffer@.len() % 4 == 0,
            final(self).msg_start == old(self).msg_start,
            final(self).groups@ == old(self).groups@,
    {
        match address {
            IpAddress::V4(a) => {
                self.write_avp_header(avp_id, flags, 2 + 4);
                push_be16(&mut self.buffer, 1);
                push_octets(&mut self.buffer, &a);
            },
            IpAddress::V6(a) => {
                self.write_avp_header(avp_id, flags, 2 + 16);
                push_be16(&mut self.buffer, 2);
                push_octets(&mut self.buffer, &a);
            },
        }
        pad_to_4(&mut self.buffer);
        assert(self.buffer@ =~= old(self).buffer@ + avp_encoding(
            avp_id,
            flags,
            address_payload(address),
        ));
    }

    /// Opens a grouped AVP: writes its header with a zero payload length
    /// and remembers where it starts, so that `end_avp` can patch it.
    pub fn begin_avp(&mut self, avp_id: AvpId, flags: u8)
        requires
            old(self).wf(),
            old(self).buffer@.len() + avp_header_len(avp_id) <= old(self).msg_start + 0xFFFFFF,
        ensures
            final(self).wf(),
            final(self).buffer@ == old(self).buffer@ + avp_header_bytes(
                avp_id,
                flags,
                avp_header_len(avp_id) as u32,
            ),
            final(self).buffer@.len() % 4 == 0,
            final(self).msg_start == old(self).msg_start,
            final(self).groups@ == old(self).groups@.push(old(self).buffer@.len() as usize),
    {
        let pos = self.buffer.len();
        self.write_avp_header(avp_id, flags, 0);
        self.groups.push(pos);
    }

    /// Closes the innermost open grouped AVP: back-patches its 24-bit
    /// length with the bytes emitted since `begin_avp`, leaving its flag
    /// byte untouched.
    pub fn end_avp(&mut self)
        requires
            old(self).wf(),
            old(self).groups@.len() > 0,
        ensures
            final(self).wf(),
            final(self).buffer@.len() == old(self).buffer@.len(),
            final(self).buffer@.len() % 4 == 0,
            final(self).msg_start == old(self).msg_start,
            final(self).groups@ == old(self).groups@.drop_last(),
            ({
                let g = old(self).groups@.last() as int;
                final(self).buffer@ == old(self).buffer@.subrange(0, g + 5) + be24_bytes(
                    (old(self).buffer@.len() - g) as u32,
                ) + old(self).buffer@.subrange(g + 8, old(self).buffer@.len() as int)
            }),
            final(self).buffer@[old(self).groups@.last() + 4] == old(self).buffer@[old(
                self,
            ).groups@.last() + 4],
    {
        proof {
            assert(old(self).groups@[old(self).groups@.len() - 1] == old(self).groups@.last());
        }
        let g = match self.groups.pop() {
            Some(g) => g,
            None => {
                proof {
                    assert(false);
                }
                0
            },
        };
        let len = self.buffer.len();
        set_be24(&mut self.buffer, g + 5, (len - g) as u32);
        assert forall|i: int| 0 <= i < self.groups@.len() implies self.msg_start + 20
            <= #[trigger] self.groups@[i] && self.groups@[i] + 8 <= self.buffer@.len() by {
            assert(self.groups@[i] == old(self).groups@[i]);
        }
    }

    /// Closes the message: writes the version byte and the final 24-bit
    /// message length over the placeholder word, and returns the buffer.
    pub fn finish(self) -> (r: Vec<u8>)
        requires
            self.wf(),
            self.groups@.len() == 0,
        ensures
            r@.len() == self.buffer@.len(),
            r@.len() % 4 == 0,
            r@ == self.buffer@.subrange(0, self.msg_start as int) + seq![1u8] + be24_bytes(
                (self.buffer@.len() - self.msg_start) as u32,
            ) + self.buffer@.subrange(self.msg_start + 4, self.buffer@.len() as int),
    {
        let MessageBuilder { mut buffer, msg_start, groups: _ } = self;
        let len = buffer.len();
        buffer[msg_start] = 1;
        set_be24(&mut buffer, msg_start + 1, (len - msg_start) as u32);
        assert(buffer@ =~= self.buffer@.subrange(0, self.msg_start as int) + seq![1u8]
            + be24_bytes((self.buffer@.len() - self.msg_start) as u32) + self.buffer@.subrange(
            self.msg_start + 4,
            self.buffer@.len() as int,
        ));
        buffer
    }
}

/// Every emitted AVP record has the size its header geometry dictates:
/// header plus payload, rounded up to a 4-byte boundary.
pub broadcast proof fn lemma_avp_encoding_len(id: AvpId, flags: u8, payload: Seq<u8>)
    ensures
        (#[trigger] avp_encoding(id, flags, payload)).len() == avp_record_len(
            id,
            payload.len() as int,
        ),
        avp_encoding(id, flags, payload).len() % 4 == 0,
        avp_header_len(id) + payload.len() <= avp_encoding(id, flags, payload).len()
            <= avp_header_len(id) + payload.len() + 3,
{
}

/// Closing a message scope turns the placeholder word into a version byte
/// and the final length: a message opened over `pre`, with `body` emitted
/// after the header, finishes as exactly `pre` followed by the complete
/// message encoding.
pub proof fn lemma_finish_message(
    pre: Seq<u8>,
    flags: u8,
    cmd: CommandId,
    hbh: HopByHop,
    e2e: EndToEnd,
    body: Seq<u8>,
)
    requires
        body.len() + 20 <= 0xFFFFFF,
    ensures
        ({
            let built = pre + seq![0u8, 0u8, 0u8, 0u8] + message_header_tail(flags, cmd, hbh, e2e)
                + body;
            built.subrange(0, pre.len() as int) + seq![1u8] + be24_bytes(
                (built.len() - pre.len()) as u32,
            ) + built.subrange(pre.len() as int + 4, built.len() as int) == pre + message_bytes(
                flags,
                cmd,
                hbh,
                e2e,
                body,
            )
        }),
{
    let built = pre + seq![0u8, 0u8, 0u8, 0u8] + message_header_tail(flags, cmd, hbh, e2e) + body;
    assert(built.subrange(0, pre.len() as int) =~= pre);
    assert(built.subrange(pre.len() as int + 4, built.len() as int) =~= message_header_tail(
        flags,
        cmd,
        hbh,
        e2e,
    ) + body);
    assert(built.subrange(0, pre.len() as int) + seq![1u8] + be24_bytes(
        (built.len() - pre.len()) as u32,
    ) + built.subrange(pre.len() as int + 4, built.len() as int) =~= pre + message_bytes(
        flags,
        cmd,
        hbh,
        e2e,
        body,
    ));
}

/// Closing a grouped-AVP scope back-patches the length field alone: a group
/// opened over `b0`, with `inner` emitted inside it, patches to exactly
/// `b0` followed by the complete AVP encoding of `inner`.
pub proof fn lemma_end_group(b0: Seq<u8>, id: AvpId, flags: u8, inner: Seq<u8>)
    requires
        inner.len() % 4 == 0,
        avp_header_len(id) + inner.len() <= 0xFFFFFF,
    ensures
        ({
            let opened = b0 + avp_header_bytes(id, flags, avp_header_len(id) as u32) + inner;
            opened.subrange(0, b0.len() as int + 5) + be24_bytes((opened.len() - b0.len()) as u32)
                + opened.subrange(b0.len() as int + 8, opened.len() as int) == b0 + avp_encoding(
                id,
                flags,
                inner,
            )
        }),
{
    let opened = b0 + avp_header_bytes(id, flags, avp_header_len(id) as u32) + inner;
    assert(pad4(avp_header_len(id) + inner.len() as int) == 0);
    assert(opened.subrange(0, b0.len() as int + 5) + be24_bytes((opened.len() - b0.len()) as u32)
        + opened.subrange(b0.len() as int + 8, opened.len() as int) =~= b0 + avp_encoding(
        id,
        flags,
        inner,
    ));
}

/// Round trip for the message header: re-parsing the 20 bytes the builder
/// writes yields exactly the flags, command id, hop-by-hop and end-to-end
/// identifiers it was given, and the length it patched in.
pub proof fn lemma_message_round_trip(
    flags: u8,
    cmd: CommandId,
    hbh: HopByHop,
    e2e: EndToEnd,
    len: u32,
)
    requires
        flags & 0x0F == 0,
        cmd.code <= 0xFFFFFF,
        20 <= len <= 0xFFFFFF,
    ensures
        parse_message_header_spec(message_header_bytes(flags, cmd, hbh, e2e, len)) == Ok::<
            MessageHeader,
            ParseError,
        >(
            MessageHeader {
                command_id: cmd,
                flags,
                hop_by_hop: hbh,
                end_to_end: e2e,
                length: len,
            },
        ),
{
    let s = message_header_bytes(flags, cmd, hbh, e2e, len);
    lemma_u24_roundtrip(len);
    lemma_u24_roundtrip(cmd.code);
    lemma_u32_roundtrip(cmd.application_id);
    lemma_u32_roundtrip(hbh.0);
    lemma_u32_roundtrip(e2e.0);
    assert(s[1] == be24_bytes(len)[0] && s[2] == be24_bytes(len)[1] && s[3] == be24_bytes(len)[2]);
    assert(s[4] == flags);
    assert(s[5] == be24_bytes(cmd.code)[0] && s[6] == be24_bytes(cmd.code)[1] && s[7] == be24_bytes(
        cmd.code,
    )[2]);
    assert(s[8] == be32_bytes(cmd.application_id)[0] && s[9] == be32_bytes(cmd.application_id)[1]
        && s[10] == be32_bytes(cmd.application_id)[2] && s[11] == be32_bytes(
        cmd.application_id,
    )[3]);
    assert(s[12] == be32_bytes(hbh.0)[0] && s[13] == be32_bytes(hbh.0)[1] && s[14] == be32_bytes(
        hbh.0,
    )[2] && s[15] == be32_bytes(hbh.0)[3]);
    assert(s[16] == be32_bytes(e2e.0)[0] && s[17] == be32_bytes(e2e.0)[1] && s[18] == be32_bytes(
        e2e.0,
    )[2] && s[19] == be32_bytes(e2e.0)[3]);
}

/// Round trip for a complete built message: re-parsing the first 20 bytes
/// of what the builder emits yields exactly the flags, command id and
/// correlation identifiers it was given, and a length equal to the total
/// emitted byte count.
pub proof fn lemma_built_message_round_trip(
    flags: u8,
    cmd: CommandId,
    hbh: HopByHop,
    e2e: EndToEnd,
    body: Seq<u8>,
)
    requires
        flags & 0x0F == 0,
        cmd.code <= 0xFFFFFF,
        body.len() + 20 <= 0xFFFFFF,
    ensures
        ({
            let m = message_bytes(flags, cmd, hbh, e2e, body);
            parse_message_header_spec(m.subrange(0, 20)) == Ok::<MessageHeader, ParseError>(
                MessageHeader {
                    command_id: cmd,
                    flags,
                    hop_by_hop: hbh,
                    end_to_end: e2e,
                    length: m.len() as u32,
                },
            )
        }),
{
    let m = message_bytes(flags, cmd, hbh, e2e, body);
    assert(m.subrange(0, 20) =~= message_header_bytes(
        flags,
        cmd,
        hbh,
        e2e,
        (20 + body.len()) as u32,
    ));
    lemma_message_round_trip(flags, cmd, hbh, e2e, (20 + body.len()) as u32);
}

/// Round trip for an AVP record, however it sits in a larger stream: the
/// header parses back with the id and flags it was emitted with, and a
/// declared length of exactly header plus payload, never the padded size.
pub proof fn lemma_avp_round_trip(id: AvpId, flags: u8, payload: Seq<u8>, rest: Seq<u8>)
    requires
        (id.vendor_id != 0) == (flags & 0x80 != 0),
        avp_header_len(id) + payload.len() <= 0xFFFFFF,
    ensures
        parse_avp_header_spec(avp_encoding(id, flags, payload) + rest) == Ok::<
            AvpHeader,
            ParseError,
        >(
            AvpHeader {
                avp_id: id,
                flags: flags & 0xE0,
                length: (avp_header_len(id) + payload.len()) as u32,
            },
        ),
{
    let s = avp_encoding(id, flags, payload) + rest;
    let len_field = (avp_header_len(id) + payload.len()) as u32;
    lemma_u32_roundtrip(id.code);
    lemma_u32_roundtrip(id.vendor_id);
    lemma_u24_roundtrip(len_field);
    assert((flags & 0xE0) & 0x1F == 0) by (bit_vector);
    assert((flags & 0xE0) & 0x80 == flags & 0x80) by (bit_vector);
    assert(s[0] == be32_bytes(id.code)[0] && s[1] == be32_bytes(id.code)[1] && s[2] == be32_bytes(
        id.code,
    )[2] && s[3] == be32_bytes(id.code)[3]);
    assert(s[4] == flags & 0xE0);
    assert(s[5] == be24_bytes(len_field)[0] && s[6] == be24_bytes(len_field)[1] && s[7]
        == be24_bytes(len_field)[2]);
    if id.vendor_id != 0 {
        assert(s[8] == be32_bytes(id.vendor_id)[0] && s[9] == be32_bytes(id.vendor_id)[1] && s[10]
            == be32_bytes(id.vendor_id)[2] && s[11] == be32_bytes(id.vendor_id)[3]);
    }
}

} // verus!

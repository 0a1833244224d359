//! The frame that carries every request and every reply:
//!
//! ```text
//! [magic u16][version u8][op u8][flags u32][req_id u64][payload_len u32][reserved u32][payload]
//! ```
use vstd::prelude::*;

use crate::error::ParseError;
use crate::wire::{
    le, lemma_le_len, lemma_le_roundtrip, lemma_pow256_widths, u16_at, u32_at, u64_at,
};

verus! {

/// The first two bytes of a frame, as a number.
pub const MAGIC: u16 = 0x564B;

/// Native protocol v1.
pub const PROTOCOL_V1: u8 = 1;

/// Native protocol v2, which adds the TurboQuant kinds and capability negotiation.
pub const PROTOCOL_V2: u8 = 2;

/// The length of a frame without its payload.
pub const HEADER_LEN: usize = 24;

/// The longest payload that a frame may announce.
pub const MAX_FRAME_SIZE: u32 = 0x100_0000;

/// The op of a request for one value.
pub const OP_GET: u8 = 0x01;

/// The op of a request to store a value.
pub const OP_SET: u8 = 0x02;

/// The op of a request to delete a key.
pub const OP_DEL: u8 = 0x03;

/// The op of a request for several values.
pub const OP_MGET: u8 = 0x04;

/// The op of a request to create a vector index.
pub const OP_VINDEX_CREATE: u8 = 0x10;

/// The op of a request to drop a vector index.
pub const OP_VINDEX_DROP: u8 = 0x11;

/// The op of a request to store a vector.
pub const OP_VSET: u8 = 0x12;

/// The op of a request for one vector.
pub const OP_VGET: u8 = 0x13;

/// The op of a request to delete a vector.
pub const OP_VDEL: u8 = 0x14;

/// The op of a nearest-neighbour query.
pub const OP_VSEARCH: u8 = 0x15;

/// The op of a request for the list of vector indexes.
pub const OP_VINDEX_LIST: u8 = 0x16;

/// The op of a liveness probe.
pub const OP_PING: u8 = 0x80;

/// The op of a request for aggregate statistics.
pub const OP_STATS: u8 = 0x81;

/// The op of a request for per-shard statistics.
pub const OP_SHARDS: u8 = 0x83;

/// The op of a capability request.
pub const OP_NATIVE_HELLO: u8 = 0x84;

/// The op of a successful reply.
pub const OP_OK: u8 = 0xC0;

/// The op of a reply that reports an error.
pub const OP_ERR: u8 = 0xC1;

/// No flag.
pub const FLAGS_NONE: u32 = 0;

/// The flag by which a request asks for no reply.
pub const FLAG_NO_REPLY: u32 = 2;

/// What stands before the payload of a frame.
#[derive(Debug, Clone, Copy, PartialEq, Eq)]
pub struct FrameHeader {
    pub version: u8,
    pub op: u8,
    pub flags: u32,
    pub req_id: u64,
    pub payload_len: u32,
}

/// A frame that arrived whole.
#[derive(Debug)]
pub struct Frame {
    pub header: FrameHeader,
    pub payload: Vec<u8>,
}

/// A frame as a mathematical value.
#[verifier::ext_equal]
pub struct FrameView {
    pub header: FrameHeader,
    pub payload: Seq<u8>,
}

impl View for Frame {
    type V = FrameView;

    open spec fn view(&self) -> FrameView {
        FrameView { header: self.header, payload: self.payload@ }
    }
}

/// The bytes of a frame. A payload too long for the length field is announced by the low bits of
/// its length.
pub open spec fn frame_bytes(
    version: u8,
    op: u8,
    flags: u32,
    req_id: u64,
    payload: Seq<u8>,
) -> Seq<u8> {
    le(2, MAGIC as nat) + seq![version, op] + le(4, flags as nat) + le(8, req_id as nat) + le(
        4,
        payload.len(),
    ) + le(4, 0) + payload
}

/// The op bytes that the protocol defines.
pub open spec fn known_op(op: u8) -> bool {
    ||| 0x01 <= op <= 0x07
    ||| 0x10 <= op <= 0x16
    ||| 0x80 <= op <= 0x84
    ||| 0xC0 <= op <= 0xC2
}

/// The flag words that the protocol defines: any of the eight low bits.
pub open spec fn known_flags(flags: u32) -> bool {
    flags <= 0xFF
}

/// The fields of the header at the front of `s`.
pub open spec fn header_at(s: Seq<u8>) -> FrameHeader
    recommends
        s.len() >= HEADER_LEN,
{
    FrameHeader {
        version: s[2],
        op: s[3],
        flags: u32_at(s, 4),
        req_id: u64_at(s, 8),
        payload_len: u32_at(s, 16),
    }
}

/// What is wrong with the header at the front of `s`: the first of its fields that does not hold
/// what it must.
pub open spec fn header_fault(s: Seq<u8>) -> Option<ParseError>
    recommends
        s.len() >= HEADER_LEN,
{
    let h = header_at(s);
    if u16_at(s, 0) != MAGIC {
        Some(ParseError::InvalidMagic { expected: MAGIC, got: u16_at(s, 0) })
    } else if h.version != PROTOCOL_V1 && h.version != PROTOCOL_V2 {
        Some(ParseError::InvalidVersion { got: h.version })
    } else if !known_op(h.op) {
        Some(ParseError::UnknownOp { got: h.op })
    } else if !known_flags(h.flags) {
        Some(ParseError::InvalidFlags { bits: h.flags })
    } else if h.payload_len > MAX_FRAME_SIZE {
        Some(ParseError::FrameTooLarge { len: h.payload_len, max: MAX_FRAME_SIZE })
    } else {
        None
    }
}

/// What the front of a byte stream holds.
#[verifier::ext_equal]
pub enum Parsed {
    /// Not yet a whole frame.
    Incomplete,
    /// No frame.
    Fault(ParseError),
    /// A frame.
    Whole(FrameView),
}

/// What the front of the byte stream `s` holds.
pub open spec fn parse(s: Seq<u8>) -> Parsed {
    if s.len() < HEADER_LEN {
        Parsed::Incomplete
    } else if header_fault(s) is Some {
        Parsed::Fault(header_fault(s)->0)
    } else {
        let h = header_at(s);
        if s.len() < HEADER_LEN + h.payload_len {
            Parsed::Incomplete
        } else {
            Parsed::Whole(
                FrameView {
                    header: h,
                    payload: s.subrange(HEADER_LEN as int, HEADER_LEN + h.payload_len),
                },
            )
        }
    }
}

/// `s` with the reserved field of the header at its front zeroed, if the header is all there. The
/// field carries nothing, and the parser does not keep it.
pub open spec fn blank_reserved(s: Seq<u8>) -> Seq<u8> {
    if s.len() < HEADER_LEN {
        s
    } else {
        s.take(20) + le(4, 0) + s.skip(HEADER_LEN as int)
    }
}

/// Blanking the header alone, or the whole stream, makes no difference to the stream.
pub proof fn lemma_blank_split(s: Seq<u8>)
    requires
        s.len() >= HEADER_LEN,
    ensures
        blank_reserved(s.take(HEADER_LEN as int)) + s.skip(HEADER_LEN as int) == blank_reserved(s),
{
    let h = s.take(HEADER_LEN as int);
    assert(h.take(20) =~= s.take(20));
    assert(h.skip(HEADER_LEN as int) =~= Seq::empty());
    assert(blank_reserved(h) + s.skip(HEADER_LEN as int) =~= blank_reserved(s));
}

/// A frame is its header and its payload.
pub broadcast proof fn lemma_frame_len(
    version: u8,
    op: u8,
    flags: u32,
    req_id: u64,
    payload: Seq<u8>,
)
    ensures
        (#[trigger] frame_bytes(version, op, flags, req_id, payload)).len() == HEADER_LEN
            + payload.len(),
{
    lemma_le_len(2, MAGIC as nat);
    lemma_le_len(4, flags as nat);
    lemma_le_len(8, req_id as nat);
    lemma_le_len(4, payload.len());
    lemma_le_len(4, 0);
}

/// The version is the third byte of a frame.
pub broadcast proof fn lemma_frame_restamped(
    version: u8,
    op: u8,
    flags: u32,
    req_id: u64,
    payload: Seq<u8>,
    new: u8,
)
    ensures
        #[trigger] frame_bytes(version, op, flags, req_id, payload).update(2, new) == frame_bytes(
            new,
            op,
            flags,
            req_id,
            payload,
        ),
{
    lemma_le_len(2, MAGIC as nat);
    assert(frame_bytes(version, op, flags, req_id, payload).update(2, new) =~= frame_bytes(
        new,
        op,
        flags,
        req_id,
        payload,
    ));
}

/// The frame that [`frame_bytes`] lays out.
pub open spec fn frame_of(
    version: u8,
    op: u8,
    flags: u32,
    req_id: u64,
    payload: Seq<u8>,
) -> FrameView {
    FrameView {
        header: FrameHeader { version, op, flags, req_id, payload_len: payload.len() as u32 },
        payload,
    }
}

/// A version, op, flags and payload that a frame may have.
pub open spec fn sendable(version: u8, op: u8, flags: u32, payload: Seq<u8>) -> bool {
    &&& version == PROTOCOL_V1 || version == PROTOCOL_V2
    &&& known_op(op)
    &&& known_flags(flags)
    &&& payload.len() <= MAX_FRAME_SIZE
}

/// What is written at the front of a stream as a frame is read from it as that frame, and what
/// follows is left.
pub proof fn lemma_parse_frame(
    version: u8,
    op: u8,
    flags: u32,
    req_id: u64,
    payload: Seq<u8>,
    rest: Seq<u8>,
)
    requires
        sendable(version, op, flags, payload),
    ensures
        ({
            let s = frame_bytes(version, op, flags, req_id, payload) + rest;
            &&& parse(s) == Parsed::Whole(frame_of(version, op, flags, req_id, payload))
            &&& s.skip(HEADER_LEN + payload.len()) == rest
        }),
{
    let s = frame_bytes(version, op, flags, req_id, payload) + rest;
    lemma_pow256_widths();
    lemma_le_len(2, MAGIC as nat);
    lemma_le_len(4, flags as nat);
    lemma_le_len(8, req_id as nat);
    lemma_le_len(4, payload.len());
    lemma_le_len(4, 0);
    lemma_le_roundtrip(2, MAGIC as nat);
    lemma_le_roundtrip(4, flags as nat);
    lemma_le_roundtrip(8, req_id as nat);
    lemma_le_roundtrip(4, payload.len());
    assert(s.subrange(0, 2) =~= le(2, MAGIC as nat));
    assert(s.subrange(4, 8) =~= le(4, flags as nat));
    assert(s.subrange(8, 16) =~= le(8, req_id as nat));
    assert(s.subrange(16, 20) =~= le(4, payload.len()));
    assert(s.subrange(24, HEADER_LEN + payload.len()) =~= payload);
    assert(s.skip(HEADER_LEN + payload.len()) =~= rest);
    assert(header_at(s) == frame_of(version, op, flags, req_id, payload).header);
    assert(header_fault(s) is None);
}

/// What a stream holds at its front does not depend on the reserved field, nor, once it is known,
/// on what arrives later.
pub proof fn lemma_parse_stable(s: Seq<u8>, more: Seq<u8>)
    ensures
        parse(blank_reserved(s) + more) == parse(s + more),
        blank_reserved(blank_reserved(s) + more) == blank_reserved(s + more),
        blank_reserved(s).len() == s.len(),
        parse(s) is Fault ==> parse(s + more) == parse(s),
        parse(s) is Whole ==> parse(s + more) == parse(s),
{
    lemma_le_len(4, 0);
    let b = blank_reserved(s);
    if s.len() >= HEADER_LEN {
        let x = b + more;
        let y = s + more;
        assert forall|at: int, end: int| 0 <= at <= end <= 20 implies #[trigger] x.subrange(at, end)
            == y.subrange(at, end) && y.subrange(at, end) == s.subrange(at, end) by {
            assert(x.subrange(at, end) =~= y.subrange(at, end));
            assert(y.subrange(at, end) =~= s.subrange(at, end));
        }
        assert(x.subrange(0, 2) == y.subrange(0, 2) && x.subrange(4, 8) == y.subrange(4, 8));
        assert(x.subrange(8, 16) == y.subrange(8, 16) && x.subrange(16, 20) == y.subrange(16, 20));
        let end = HEADER_LEN + header_at(s).payload_len;
        if y.len() >= end {
            assert(x.subrange(24, end) =~= y.subrange(24, end));
        }
        if s.len() >= end {
            assert(s.subrange(24, end) =~= y.subrange(24, end));
        }
        assert(blank_reserved(x) =~= blank_reserved(y));
    }
}

/// Bytes that stop short of the end of a frame are an unfinished frame.
pub proof fn lemma_parse_cut(s: Seq<u8>, f: FrameView, n: int)
    requires
        parse(s) == Parsed::Whole(f),
        0 <= n < HEADER_LEN + f.payload.len(),
    ensures
        parse(s.take(n)) is Incomplete,
{
    let a = s.take(n);
    lemma_parse_stable(a, s.skip(n));
    assert(a + s.skip(n) =~= s);
    if parse(a) is Whole {
        assert(a.subrange(16, 20) =~= s.subrange(16, 20));
    }
}

}

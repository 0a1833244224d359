//! The calls into the `skeg-proto` codec and the byte buffer that it reads from.
use skeg_proto::{Frame as Fed, ParseError as Fault};
use vstd::prelude::*;
use vstd::utf8::encode_utf8;

use crate::body::{
    announced, bool_of, capabilities_of, hits_of, mget_of, rows, shards_of, stats_of, value_of,
    values, vector_of, vindexes_of, whole_rows, NativeCapabilities, ServerStats, ShardStats,
    VindexInfo, HIT_ROW, SHARD_ROW,
};
use crate::error::ParseError;
use crate::frame::{
    blank_reserved, frame_bytes, parse, Frame, FrameHeader, Parsed, FLAGS_NONE, HEADER_LEN,
    MAX_FRAME_SIZE, OP_DEL, OP_GET, OP_MGET, OP_NATIVE_HELLO, OP_PING, OP_SET, OP_SHARDS,
    OP_STATS, OP_VDEL, OP_VGET, OP_VINDEX_CREATE, OP_VINDEX_DROP, OP_VINDEX_LIST, OP_VSEARCH,
    OP_VSET, PROTOCOL_V1, PROTOCOL_V2,
};
use crate::request::{
    fits, mget_payload, set_payload, short_bytes, slices, vector_ref, vindex_create_payload,
};
use crate::wire::{le, u32_at};

verus! {

/// The read buffer of the `bytes` crate.
#[verifier::external_type_specification]
#[verifier::external_body]
pub struct ExBytesMut(bytes::BytesMut);

/// The streaming frame parser of `skeg-proto`.
#[verifier::external_type_specification]
#[verifier::external_body]
pub struct ExFrameParser(skeg_proto::FrameParser);

/// The bytes in a read buffer.
pub uninterp spec fn contents(buf: bytes::BytesMut) -> Seq<u8>;

/// The bytes of an unfinished frame that a parser has taken in, with the reserved field, which it
/// drops, as zeros.
pub uninterp spec fn held(parser: skeg_proto::FrameParser) -> Seq<u8>;

/// Calls `BytesMut::with_capacity`: a buffer without contents.
#[verifier::external_body]
pub(crate) fn buffer_with_capacity(capacity: usize) -> (buf: bytes::BytesMut)
    requires
        capacity <= isize::MAX,
    ensures
        contents(buf) == Seq::<u8>::empty(),
{
    bytes::BytesMut::with_capacity(capacity)
}

/// Calls `BytesMut::extend_from_slice`: the chunk goes behind what the buffer holds. The bound
/// keeps every size that the buffer may grow to, twice the sum of an offset and the new length
/// included, within what an allocation can have.
#[verifier::external_body]
pub(crate) fn buffer_extend(buf: &mut bytes::BytesMut, chunk: &[u8])
    requires
        contents(*old(buf)).len() + chunk@.len() <= isize::MAX / 4,
    ensures
        contents(*final(buf)) == contents(*old(buf)) + chunk@,
{
    buf.extend_from_slice(chunk)
}

/// Calls `FrameParser::new`: a parser that has taken in nothing.
#[verifier::external_body]
pub(crate) fn parser_new() -> (parser: skeg_proto::FrameParser)
    ensures
        held(parser) == Seq::<u8>::empty(),
{
    skeg_proto::FrameParser::new()
}

/// Calls `FrameParser::feed` on what the parser has taken in followed by what the buffer holds.
/// An unfinished frame goes into the parser whole. A faulty header stays in the parser, what
/// follows it in the buffer, and the fault is reported. A whole frame is handed out, and what
/// follows it stays in the buffer.
#[verifier::external_body]
pub(crate) fn parser_feed(
    parser: &mut skeg_proto::FrameParser,
    buf: &mut bytes::BytesMut,
) -> (fed: Result<Option<Frame>, ParseError>)
    ensures
        ({
            let s = held(*old(parser)) + contents(*old(buf));
            match parse(s) {
                Parsed::Incomplete => {
                    &&& fed == Ok::<Option<Frame>, ParseError>(None)
                    &&& held(*final(parser)) == blank_reserved(s)
                    &&& contents(*final(buf)) == Seq::<u8>::empty()
                },
                Parsed::Fault(e) => {
                    &&& fed == Err::<Option<Frame>, ParseError>(e)
                    &&& held(*final(parser)) == blank_reserved(s.take(HEADER_LEN as int))
                    &&& contents(*final(buf)) == s.skip(HEADER_LEN as int)
                },
                Parsed::Whole(f) => {
                    &&& fed matches Ok(Some(frame))
                    &&& frame@ == f
                    &&& held(*final(parser)) == Seq::<u8>::empty()
                    &&& contents(*final(buf)) == s.skip(HEADER_LEN + f.payload.len())
                },
            }
        }),
{
    let fed = parser.feed(buf).map_err(|e| match e {
        Fault::InvalidMagic { expected, got } => ParseError::InvalidMagic { expected, got },
        Fault::InvalidVersion { got } => ParseError::InvalidVersion { got },
        Fault::UnknownOp { got } => ParseError::UnknownOp { got },
        Fault::FrameTooLarge { len, max } => ParseError::FrameTooLarge { len, max },
        Fault::InvalidFlags { bits } => ParseError::InvalidFlags { bits },
        _ => ParseError::Other,
    })?;
    Ok(fed.map(|Fed { header: h, payload }| Frame {
        header: FrameHeader {
            version: h.version, op: h.op as u8, flags: h.flags.bits(),
            req_id: h.req_id, payload_len: h.payload_len,
        },
        payload: payload.to_vec(),
    }))
}

/// Calls `skeg_proto::encode_ping`: a v1 frame without a payload.
#[verifier::external_body]
pub(crate) fn encode_ping(req_id: u64) -> (frame: Vec<u8>)
    ensures
        frame@ == frame_bytes(PROTOCOL_V1, OP_PING, FLAGS_NONE, req_id, Seq::empty()),
{
    skeg_proto::encode_ping(req_id).to_vec()
}

/// Calls `skeg_proto::encode_stats`: a v1 frame without a payload.
#[verifier::external_body]
pub(crate) fn encode_stats(req_id: u64) -> (frame: Vec<u8>)
    ensures
        frame@ == frame_bytes(PROTOCOL_V1, OP_STATS, FLAGS_NONE, req_id, Seq::empty()),
{
    skeg_proto::encode_stats(req_id).to_vec()
}

/// Calls `skeg_proto::encode_shards`: a v1 frame without a payload.
#[verifier::external_body]
pub(crate) fn encode_shards(req_id: u64) -> (frame: Vec<u8>)
    ensures
        frame@ == frame_bytes(PROTOCOL_V1, OP_SHARDS, FLAGS_NONE, req_id, Seq::empty()),
{
    skeg_proto::encode_shards(req_id).to_vec()
}

/// Calls `skeg_proto::encode_vindex_list`: a v1 frame without a payload.
#[verifier::external_body]
pub(crate) fn encode_vindex_list(req_id: u64) -> (frame: Vec<u8>)
    ensures
        frame@ == frame_bytes(PROTOCOL_V1, OP_VINDEX_LIST, FLAGS_NONE, req_id, Seq::empty()),
{
    skeg_proto::encode_vindex_list(req_id).to_vec()
}

/// Calls `skeg_proto::encode_native_hello`: a v2 frame without a payload.
#[verifier::external_body]
pub(crate) fn encode_native_hello(req_id: u64) -> (frame: Vec<u8>)
    ensures
        frame@ == frame_bytes(PROTOCOL_V2, OP_NATIVE_HELLO, FLAGS_NONE, req_id, Seq::empty()),
{
    skeg_proto::encode_native_hello(req_id).to_vec()
}

/// Calls `skeg_proto::encode_get`: a v1 frame with the key.
#[verifier::external_body]
pub(crate) fn encode_get(req_id: u64, key: &[u8]) -> (frame: Vec<u8>)
    requires
        fits(2 + key@.len()),
    ensures
        frame@ == frame_bytes(
            PROTOCOL_V1,
            OP_GET,
            FLAGS_NONE,
            req_id,
            short_bytes(key@),
        ),
{
    skeg_proto::encode_get(req_id, key).to_vec()
}

/// Calls `skeg_proto::encode_del`: a v1 frame with the key.
#[verifier::external_body]
pub(crate) fn encode_del(req_id: u64, key: &[u8]) -> (frame: Vec<u8>)
    requires
        fits(2 + key@.len()),
    ensures
        frame@ == frame_bytes(
            PROTOCOL_V1,
            OP_DEL,
            FLAGS_NONE,
            req_id,
            short_bytes(key@),
        ),
{
    skeg_proto::encode_del(req_id, key).to_vec()
}

/// Calls `skeg_proto::encode_set`: a v1 frame with the flags, the key and
/// the value.
#[verifier::external_body]
pub(crate) fn encode_set(req_id: u64, key: &[u8], value: &[u8], flags: u32) -> (frame: Vec<u8>)
    requires
        fits(6 + key@.len() + value@.len()),
    ensures
        frame@ == frame_bytes(
            PROTOCOL_V1,
            OP_SET,
            flags,
            req_id,
            set_payload(key@, value@),
        ),
{
    skeg_proto::encode_set(req_id, key, value, skeg_proto::Flags::from_bits_retain(flags)).to_vec()
}

/// Calls `skeg_proto::encode_mget`: a v1 frame with the keys in their order.
#[verifier::external_body]
pub(crate) fn encode_mget(req_id: u64, keys: &[&[u8]]) -> (frame: Vec<u8>)
    requires
        fits(mget_payload(slices(keys@)).len()),
    ensures
        frame@ == frame_bytes(
            PROTOCOL_V1,
            OP_MGET,
            FLAGS_NONE,
            req_id,
            mget_payload(slices(keys@)),
        ),
{
    skeg_proto::encode_mget(req_id, keys).to_vec()
}

/// Calls `skeg_proto::encode_vindex_create`: a v1 frame with the UTF-8 name and the three
/// parameters.
#[verifier::external_body]
pub(crate) fn encode_vindex_create(
    req_id: u64,
    name: &str,
    dim: u32,
    kind: u8,
    backend: u8,
) -> (frame: Vec<u8>)
    requires
        fits(8 + encode_utf8(name@).len()),
    ensures
        frame@ == frame_bytes(
            PROTOCOL_V1,
            OP_VINDEX_CREATE,
            FLAGS_NONE,
            req_id,
            vindex_create_payload(encode_utf8(name@), dim, kind, backend),
        ),
{
    skeg_proto::encode_vindex_create(req_id, name, dim, kind, backend).to_vec()
}

/// Calls `skeg_proto::encode_vindex_drop`: a v1 frame with the UTF-8 name.
#[verifier::external_body]
pub(crate) fn encode_vindex_drop(req_id: u64, name: &str) -> (frame: Vec<u8>)
    requires
        fits(2 + encode_utf8(name@).len()),
    ensures
        frame@ == frame_bytes(
            PROTOCOL_V1,
            OP_VINDEX_DROP,
            FLAGS_NONE,
            req_id,
            short_bytes(encode_utf8(name@)),
        ),
{
    skeg_proto::encode_vindex_drop(req_id, name).to_vec()
}

/// Calls `skeg_proto::encode_vget`: a v1 frame with the UTF-8 name and the vector's
/// id.
#[verifier::external_body]
pub(crate) fn encode_vget(req_id: u64, name: &str, id: u64) -> (frame: Vec<u8>)
    requires
        fits(10 + encode_utf8(name@).len()),
    ensures
        frame@ == frame_bytes(
            PROTOCOL_V1,
            OP_VGET,
            FLAGS_NONE,
            req_id,
            vector_ref(encode_utf8(name@), id),
        ),
{
    skeg_proto::encode_vget(req_id, name, id).to_vec()
}

/// Calls `skeg_proto::encode_vdel`: a v1 frame with the UTF-8 name and the vector's
/// id.
#[verifier::external_body]
pub(crate) fn encode_vdel(req_id: u64, name: &str, id: u64) -> (frame: Vec<u8>)
    requires
        fits(10 + encode_utf8(name@).len()),
    ensures
        frame@ == frame_bytes(
            PROTOCOL_V1,
            OP_VDEL,
            FLAGS_NONE,
            req_id,
            vector_ref(encode_utf8(name@), id),
        ),
{
    skeg_proto::encode_vdel(req_id, name, id).to_vec()
}

/// Calls `skeg_proto::encode_vset` on the vector whose components, by `bytes_to_f32_vec`, have the
/// bytes `body`: a v1 frame with the UTF-8 name, the vector's id, the number of components and
/// their bytes.
#[verifier::external_body]
pub(crate) fn encode_vset(req_id: u64, name: &str, id: u64, body: &[u8]) -> (frame: Vec<u8>)
    requires
        body@.len() % 4 == 0,
        fits(14 + encode_utf8(name@).len() + body@.len()),
    ensures
        frame@ == frame_bytes(
            PROTOCOL_V1,
            OP_VSET,
            FLAGS_NONE,
            req_id,
            vector_ref(encode_utf8(name@), id) + (le(4, body@.len() / 4) + body@),
        ),
{
    let vector = skeg_proto::bytes_to_f32_vec(body);
    skeg_proto::encode_vset(req_id, name, id, &vector, skeg_proto::Flags::empty()).to_vec()
}

/// Calls `skeg_proto::encode_vsearch` on the query whose components, by `bytes_to_f32_vec`, have
/// the bytes `body`: a v1 frame with the UTF-8 name, `k`, the number of components and their
/// bytes.
#[verifier::external_body]
pub(crate) fn encode_vsearch(req_id: u64, name: &str, k: u32, body: &[u8]) -> (frame: Vec<u8>)
    requires
        body@.len() % 4 == 0,
        fits(10 + encode_utf8(name@).len() + body@.len()),
    ensures
        frame@ == frame_bytes(
            PROTOCOL_V1,
            OP_VSEARCH,
            FLAGS_NONE,
            req_id,
            short_bytes(encode_utf8(name@)) + le(4, k as nat) + (le(4, body@.len() / 4) + body@),
        ),
{
    let query = skeg_proto::bytes_to_f32_vec(body);
    skeg_proto::encode_vsearch(req_id, name, k, &query).to_vec()
}

/// Calls `skeg_proto::decode_value_response`. The bound keeps the sum that the decoder forms, of
/// the announced length and the length field, within a `usize`.
#[verifier::external_body]
pub(crate) fn decode_value(p: &[u8]) -> (value: Option<Vec<u8>>)
    requires
        p@.len() >= 4 ==> 4 + u32_at(p@, 0) <= usize::MAX,
    ensures
        match value {
            Some(v) => value_of(p@) == Some(v@),
            None => value_of(p@) is None,
        },
{
    skeg_proto::decode_value_response(&bytes::Bytes::copy_from_slice(p)).map(|v| v.to_vec())
}

/// Calls `skeg_proto::decode_bool_response`: whether there is a first byte and it is not zero.
#[verifier::external_body]
pub(crate) fn decode_bool(p: &[u8]) -> (yes: bool)
    ensures
        yes == bool_of(p@),
{
    skeg_proto::decode_bool_response(&bytes::Bytes::copy_from_slice(p))
}

/// Calls `skeg_proto::decode_stats_response`: the four counters, if they are all there.
#[verifier::external_body]
pub(crate) fn decode_stats(p: &[u8]) -> (stats: Option<ServerStats>)
    ensures
        stats == stats_of(p@),
{
    skeg_proto::decode_stats_response(&bytes::Bytes::copy_from_slice(p)).map(|s| ServerStats {
        cache_bytes: s.cache_bytes,
        cache_evictions: s.cache_evictions,
        n_keys: s.n_keys,
        cache_budget: s.cache_budget,
    })
}

/// Calls `skeg_proto::decode_native_capabilities_response`: the two bytes of a two-byte record.
#[verifier::external_body]
pub(crate) fn decode_capabilities(p: &[u8]) -> (caps: Option<NativeCapabilities>)
    ensures
        caps == capabilities_of(p@),
{
    let record = bytes::Bytes::copy_from_slice(p);
    skeg_proto::decode_native_capabilities_response(&record).map(|c| NativeCapabilities {
        protocol_version: c.protocol_version,
        vector_kind_mask: c.vector_kind_mask,
    })
}

/// Calls `skeg_proto::decode_shards_response` on a list that announces no more rows than it has,
/// since the decoder reserves room for as many as are announced.
#[verifier::external_body]
pub(crate) fn decode_shards(p: &[u8]) -> (rows: Vec<ShardStats>)
    requires
        p@.len() <= MAX_FRAME_SIZE,
        announced(p@) == whole_rows(p@, SHARD_ROW as nat),
    ensures
        rows@ == shards_of(p@),
{
    let list = skeg_proto::decode_shards_response(&bytes::Bytes::copy_from_slice(p));
    list.into_iter().map(|r| ShardStats {
        shard_id: r.shard_id,
        cache_bytes: r.cache_bytes,
        cache_evictions: r.cache_evictions,
        n_keys: r.n_keys,
        cache_budget: r.cache_budget,
    }).collect()
}

/// Calls `skeg_proto::decode_vindex_list_response`, which decodes the names by
/// `String::from_utf8_lossy`, on a list that announces no more rows than it has, since the decoder
/// reserves room for as many as are announced.
#[verifier::external_body]
pub(crate) fn decode_vindex_list(p: &[u8]) -> (list: Vec<VindexInfo>)
    requires
        p@.len() <= MAX_FRAME_SIZE,
        announced(p@) == vindexes_of(p@).len(),
    ensures
        rows(list@) == vindexes_of(p@),
{
    let list = skeg_proto::decode_vindex_list_response(&bytes::Bytes::copy_from_slice(p));
    list.into_iter().map(|r| VindexInfo {
        name: r.name,
        dim: r.dim,
        kind: r.kind,
        backend: r.backend,
        n_vectors: r.n_vectors,
    }).collect()
}

/// Calls `skeg_proto::decode_mget_response` on a list that announces no more entries than it has,
/// since the decoder reserves room for as many as are announced.
#[verifier::external_body]
pub(crate) fn decode_mget(p: &[u8]) -> (list: Vec<Option<Vec<u8>>>)
    requires
        p@.len() <= MAX_FRAME_SIZE,
        announced(p@) == mget_of(p@).len(),
    ensures
        values(list@) == mget_of(p@),
{
    let list = skeg_proto::decode_mget_response(&bytes::Bytes::copy_from_slice(p));
    list.into_iter().map(|entry| entry.map(|v| v.to_vec())).collect()
}

/// Calls `skeg_proto::decode_vsearch_response`, taking each score by its bit pattern, on a list
/// that announces no more rows than it has, since the decoder reserves room for as many as are
/// announced.
#[verifier::external_body]
pub(crate) fn decode_vsearch(p: &[u8]) -> (hits: Vec<(u64, u32)>)
    requires
        p@.len() <= MAX_FRAME_SIZE,
        announced(p@) == whole_rows(p@, HIT_ROW as nat),
    ensures
        hits@ == hits_of(p@),
{
    let list = skeg_proto::decode_vsearch_response(&bytes::Bytes::copy_from_slice(p));
    list.into_iter().map(|(id, score)| (id, score.to_bits())).collect()
}

/// Calls `skeg_proto::bytes_to_f32_vec`, taking each component by its bit pattern: one for every
/// four bytes, in their order.
#[verifier::external_body]
pub(crate) fn decode_vector(b: &[u8]) -> (vector: Vec<u32>)
    ensures
        vector@ == vector_of(b@),
{
    skeg_proto::bytes_to_f32_vec(b).into_iter().map(|x| x.to_bits()).collect()
}

}

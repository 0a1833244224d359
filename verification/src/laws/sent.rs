//! What the bytes of each request say: every request that a method gives, on every connection and
//! for all arguments, read byte by byte.
//!
//! A frame is 24 bytes of header and then the payload; the laws speak of a payload by offsets into
//! `r.frame@.skip(24)`.
use vstd::prelude::*;
use vstd::utf8::encode_utf8;

use crate::body::{value_of, vector_of};
use crate::client::{is_request, Request, Session, SkegClient};
use crate::error::ClientError;
use crate::frame::Frame;
use crate::kind::{VectorBackend, VectorKind, VectorKindV2};
use crate::laws::digits::{
    carries, eight, four, lemma_carries, lemma_eight_written, lemma_four, lemma_four_written,
    lemma_two_written, two,
};
use crate::laws::outcome::law_get_value;
use crate::laws::reply::lemma_component;
use crate::request::{
    components, key_list, lemma_components_len, mget_fits, mget_payload, set_payload, short_bytes,
    slices, vector_body, vindex_create_payload, vsearch_payload, vset_payload,
};
use crate::wire::{le, lemma_le_len};

verus! {

/// A request was made: one id is used up, and nothing else happened to the session.
pub open spec fn one_id_used(pre: Session, post: Session) -> bool {
    &&& post.version == pre.version
    &&& post.unread == pre.unread
    &&& post.next_req_id == pre.next_req_id + 1
}

/// `p` begins with the length of `name` in two bytes and the bytes of `name`.
pub open spec fn begins_with(p: Seq<u8>, name: Seq<u8>) -> bool {
    &&& p.len() >= 2 + name.len()
    &&& two(p, 0) == name.len() % 0x1_0000
    &&& p.subrange(2, 2 + name.len() as int) == name
}

/// The component at place `i` stands in the four bytes at `at + 4 * i`, for every component, and
/// nothing follows the last one.
pub open spec fn ends_with_components(p: Seq<u8>, at: int, vector: Seq<u32>) -> bool {
    &&& p.len() == at + 4 * vector.len()
    &&& forall|i: int| 0 <= i < vector.len() ==> four(p, at + 4 * i) == #[trigger] vector[i]
}

/// The kind byte of a v1 kind.
pub open spec fn v1_byte(kind: VectorKind) -> int {
    match kind {
        VectorKind::F32 => 0,
        VectorKind::Int8 => 1,
        VectorKind::Binary => 2,
    }
}

/// The kind byte of a v2 kind.
pub open spec fn v2_byte(kind: VectorKindV2) -> int {
    match kind {
        VectorKindV2::F32 => 0,
        VectorKindV2::Int8 => 1,
        VectorKindV2::Binary => 2,
        VectorKindV2::Tq1 => 3,
        VectorKindV2::Tq2 => 4,
        VectorKindV2::Tq4 => 5,
    }
}

/// The backend byte.
pub open spec fn backend_byte(backend: VectorBackend) -> int {
    match backend {
        VectorBackend::Flat => 0,
        VectorBackend::DiskVamana => 1,
    }
}

/// Where in the payload of an MGET the key at place `i` begins, with its length field; behind the
/// last key, the end.
pub open spec fn key_start(keys: Seq<&[u8]>, i: int) -> int
    decreases i,
{
    if i <= 0 {
        4
    } else {
        key_start(keys, i - 1) + 2 + keys[i - 1]@.len()
    }
}

proof fn lemma_request(r: Request, pre: Session, op: u8, flags: u32, payload: Seq<u8>)
    requires
        is_request(r, pre, op, flags, payload),
    ensures
        carries(r.frame@, pre.version, op, flags as int, r.id),
        r.frame@.skip(24) == payload,
        r.frame@.len() == 24 + payload.len(),
{
    lemma_carries(pre.version, op, flags, r.id, payload);
}

proof fn lemma_name(p: Seq<u8>, name: Seq<u8>, tail: Seq<u8>)
    requires
        p == short_bytes(name) + tail,
    ensures
        begins_with(p, name),
        p.skip(2 + name.len() as int) == tail,
        p.len() == 2 + name.len() + tail.len(),
{
    lemma_le_len(2, name.len());
    assert(p.subrange(0, 2) =~= le(2, name.len()));
    lemma_two_written(p, 0, name.len());
    assert(p.subrange(2, 2 + name.len() as int) =~= name);
    assert(p.skip(2 + name.len() as int) =~= tail);
}

proof fn lemma_vector(p: Seq<u8>, at: int, vector: Seq<u32>)
    requires
        0 <= at <= p.len(),
        p.skip(at) == vector_body(vector),
    ensures
        four(p, at) == vector.len() % 0x1_0000_0000,
        ends_with_components(p, at + 4, vector),
{
    let body = vector_body(vector);
    lemma_le_len(4, vector.len());
    lemma_components_len(vector);
    assert(p.len() == at + body.len());
    assert(p.subrange(at, at + 4) =~= body.subrange(0, 4));
    assert(body.subrange(0, 4) =~= le(4, vector.len()));
    lemma_four_written(p, at, vector.len());
    assert forall|i: int| 0 <= i < vector.len() implies four(p, at + 4 + 4 * i)
        == #[trigger] vector[i] by {
        lemma_component(vector, i);
        let b = at + 4 + 4 * i;
        assert(p.subrange(b, b + 4) =~= body.subrange(4 + 4 * i, 8 + 4 * i));
        assert(body.subrange(4 + 4 * i, 8 + 4 * i) =~= components(vector).subrange(
            4 * i,
            4 * i + 4,
        ));
        lemma_four_written(p, b, vector[i] as nat);
    }
}

/// The frame of PING is a header with its op and nothing else.
pub proof fn law_ping_bytes(c: &mut SkegClient, r: Request)
    requires
        old(c)@.next_req_id < u64::MAX,
        call_ensures(SkegClient::ping, (c,), r),
    ensures
        r.id == old(c)@.next_req_id,
        one_id_used(old(c)@, final(c)@),
        carries(r.frame@, old(c)@.version, 0x80, 0, r.id),
        r.frame@.len() == 24,
{
    lemma_request(r, old(c)@, 0x80, 0, Seq::empty());
}

/// The frame of STATS is a header with its op and nothing else.
pub proof fn law_stats_bytes(c: &mut SkegClient, r: Request)
    requires
        old(c)@.next_req_id < u64::MAX,
        call_ensures(SkegClient::stats, (c,), r),
    ensures
        r.id == old(c)@.next_req_id,
        one_id_used(old(c)@, final(c)@),
        carries(r.frame@, old(c)@.version, 0x81, 0, r.id),
        r.frame@.len() == 24,
{
    lemma_request(r, old(c)@, 0x81, 0, Seq::empty());
}

/// The frame of SHARDS is a header with its op and nothing else.
pub proof fn law_shards_bytes(c: &mut SkegClient, r: Request)
    requires
        old(c)@.next_req_id < u64::MAX,
        call_ensures(SkegClient::shards, (c,), r),
    ensures
        r.id == old(c)@.next_req_id,
        one_id_used(old(c)@, final(c)@),
        carries(r.frame@, old(c)@.version, 0x83, 0, r.id),
        r.frame@.len() == 24,
{
    lemma_request(r, old(c)@, 0x83, 0, Seq::empty());
}

/// The frame of VINDEX LIST is a header with its op and nothing else.
pub proof fn law_vindex_list_bytes(c: &mut SkegClient, r: Request)
    requires
        old(c)@.next_req_id < u64::MAX,
        call_ensures(SkegClient::vindex_list, (c,), r),
    ensures
        r.id == old(c)@.next_req_id,
        one_id_used(old(c)@, final(c)@),
        carries(r.frame@, old(c)@.version, 0x16, 0, r.id),
        r.frame@.len() == 24,
{
    lemma_request(r, old(c)@, 0x16, 0, Seq::empty());
}

/// The frame of GET holds the key and nothing else.
pub proof fn law_get_bytes(c: &mut SkegClient, key: &[u8], r: Request)
    requires
        old(c)@.next_req_id < u64::MAX,
        call_ensures(SkegClient::get, (c, key), r),
    ensures
        r.id == old(c)@.next_req_id,
        one_id_used(old(c)@, final(c)@),
        carries(r.frame@, old(c)@.version, 0x01, 0, r.id),
        begins_with(r.frame@.skip(24), key@),
        r.frame@.len() == 26 + key@.len(),
{
    let p = short_bytes(key@);
    lemma_request(r, old(c)@, 0x01, 0, p);
    assert(p =~= p + Seq::empty());
    lemma_name(p, key@, Seq::empty());
}

/// The frame of DEL holds the key and nothing else.
pub proof fn law_del_bytes(c: &mut SkegClient, key: &[u8], r: Request)
    requires
        old(c)@.next_req_id < u64::MAX,
        call_ensures(SkegClient::del, (c, key), r),
    ensures
        r.id == old(c)@.next_req_id,
        one_id_used(old(c)@, final(c)@),
        carries(r.frame@, old(c)@.version, 0x03, 0, r.id),
        begins_with(r.frame@.skip(24), key@),
        r.frame@.len() == 26 + key@.len(),
{
    let p = short_bytes(key@);
    lemma_request(r, old(c)@, 0x03, 0, p);
    assert(p =~= p + Seq::empty());
    lemma_name(p, key@, Seq::empty());
}

/// The frame of VINDEX DROP holds the index's name and nothing else.
pub proof fn law_vindex_drop_bytes(c: &mut SkegClient, name: &str, r: Request)
    requires
        old(c)@.next_req_id < u64::MAX,
        call_ensures(SkegClient::vindex_drop, (c, name), r),
    ensures
        r.id == old(c)@.next_req_id,
        one_id_used(old(c)@, final(c)@),
        carries(r.frame@, old(c)@.version, 0x11, 0, r.id),
        begins_with(r.frame@.skip(24), encode_utf8(name@)),
        r.frame@.len() == 26 + encode_utf8(name@).len(),
{
    let p = short_bytes(encode_utf8(name@));
    lemma_request(r, old(c)@, 0x11, 0, p);
    assert(p =~= p + Seq::empty());
    lemma_name(p, encode_utf8(name@), Seq::empty());
}

/// The frame of SET holds the length of the key, the length of the value, the key and the value.
pub proof fn law_set_bytes(c: &mut SkegClient, key: &[u8], value: &[u8], r: Request)
    requires
        old(c)@.next_req_id < u64::MAX,
        call_ensures(SkegClient::set, (c, key, value), r),
    ensures
        r.id == old(c)@.next_req_id,
        one_id_used(old(c)@, final(c)@),
        carries(r.frame@, old(c)@.version, 0x02, 0, r.id),
        ({
            let p = r.frame@.skip(24);
            &&& two(p, 0) == key@.len() % 0x1_0000
            &&& four(p, 2) == value@.len() % 0x1_0000_0000
            &&& p.subrange(6, 6 + key@.len() as int) == key@
            &&& p.skip(6 + key@.len() as int) == value@
        }),
        r.frame@.len() == 30 + key@.len() + value@.len(),
{
    lemma_set(r, old(c)@, 0, key@, value@);
}

/// The frame of a SET without a reply holds what a SET holds, and the flag by which it asks for
/// none.
pub proof fn law_set_no_reply_bytes(c: &mut SkegClient, key: &[u8], value: &[u8], r: Request)
    requires
        old(c)@.next_req_id < u64::MAX,
        call_ensures(SkegClient::set_no_reply, (c, key, value), r),
    ensures
        r.id == old(c)@.next_req_id,
        one_id_used(old(c)@, final(c)@),
        carries(r.frame@, old(c)@.version, 0x02, 2, r.id),
        ({
            let p = r.frame@.skip(24);
            &&& two(p, 0) == key@.len() % 0x1_0000
            &&& four(p, 2) == value@.len() % 0x1_0000_0000
            &&& p.subrange(6, 6 + key@.len() as int) == key@
            &&& p.skip(6 + key@.len() as int) == value@
        }),
        r.frame@.len() == 30 + key@.len() + value@.len(),
{
    lemma_set(r, old(c)@, 2, key@, value@);
}

proof fn lemma_set(r: Request, pre: Session, flags: u32, key: Seq<u8>, value: Seq<u8>)
    requires
        is_request(r, pre, 0x02, flags, set_payload(key, value)),
    ensures
        carries(r.frame@, pre.version, 0x02, flags as int, r.id),
        ({
            let p = r.frame@.skip(24);
            &&& two(p, 0) == key.len() % 0x1_0000
            &&& four(p, 2) == value.len() % 0x1_0000_0000
            &&& p.subrange(6, 6 + key.len() as int) == key
            &&& p.skip(6 + key.len() as int) == value
        }),
        r.frame@.len() == 30 + key.len() + value.len(),
{
    let p = set_payload(key, value);
    lemma_request(r, pre, 0x02, flags, p);
    lemma_le_len(2, key.len());
    lemma_le_len(4, value.len());
    assert(p.subrange(0, 2) =~= le(2, key.len()));
    assert(p.subrange(2, 6) =~= le(4, value.len()));
    lemma_two_written(p, 0, key.len());
    lemma_four_written(p, 2, value.len());
    assert(p.subrange(6, 6 + key.len() as int) =~= key);
    assert(p.skip(6 + key.len() as int) =~= value);
}

proof fn lemma_key_start(keys: Seq<&[u8]>, i: int)
    requires
        0 <= i < keys.len(),
    ensures
        key_start(keys.drop_last(), i) == key_start(keys, i),
        key_start(keys, i) >= 4,
    decreases i,
{
    if i > 0 {
        lemma_key_start(keys, i - 1);
    }
}

proof fn lemma_key_list_at(keys: Seq<&[u8]>)
    ensures
        key_list(slices(keys)).len() == key_start(keys, keys.len() as int) - 4,
        forall|i: int|
            0 <= i < keys.len() ==> {
                &&& 4 <= key_start(keys, i)
                &&& key_start(keys, i) + 2 + (#[trigger] keys[i])@.len() <= key_start(
                    keys,
                    keys.len() as int,
                )
                &&& key_list(slices(keys)).subrange(
                    key_start(keys, i) - 4,
                    key_start(keys, i) - 2 + keys[i]@.len(),
                ) == short_bytes(keys[i]@)
            },
    decreases keys.len(),
{
    let all = key_list(slices(keys));
    if keys.len() > 0 {
        let most = keys.drop_last();
        let n = most.len() as int;
        lemma_key_list_at(most);
        lemma_key_start(keys, n);
        assert(slices(keys).drop_last() =~= slices(most));
        assert(slices(keys).last() == keys.last()@);
        lemma_le_len(2, keys.last()@.len());
        let before = key_list(slices(most));
        assert(all == before + short_bytes(keys.last()@));
        assert forall|i: int| 0 <= i < keys.len() implies {
            &&& 4 <= key_start(keys, i)
            &&& key_start(keys, i) + 2 + (#[trigger] keys[i])@.len() <= key_start(
                keys,
                keys.len() as int,
            )
            &&& all.subrange(key_start(keys, i) - 4, key_start(keys, i) - 2 + keys[i]@.len())
                == short_bytes(keys[i]@)
        } by {
            lemma_key_start(keys, i);
            let a = key_start(keys, i) - 4;
            let b = a + 2 + keys[i]@.len();
            if i < n {
                assert(most[i] == keys[i]);
                assert(all.subrange(a, b) =~= before.subrange(a, b));
            } else {
                assert(all.subrange(a, b) =~= short_bytes(keys[i]@));
            }
        }
    }
}

/// The frame of MGET holds the number of keys and then the keys in their order, each behind its
/// length, and nothing else.
pub proof fn law_mget_bytes(c: &mut SkegClient, keys: &[&[u8]], r: Request)
    requires
        old(c)@.next_req_id < u64::MAX,
        call_ensures(SkegClient::mget, (c, keys), r),
    ensures
        r.id == old(c)@.next_req_id,
        one_id_used(old(c)@, final(c)@),
        carries(r.frame@, old(c)@.version, 0x04, 0, r.id),
        r.frame@.len() == 24 + key_start(keys@, keys@.len() as int),
        four(r.frame@.skip(24), 0) == keys@.len() % 0x1_0000_0000,
        forall|i: int|
            0 <= i < keys@.len() ==> begins_with(
                r.frame@.skip(24 + key_start(keys@, i)),
                (#[trigger] keys@[i])@,
            ),
{
    let p = mget_payload(slices(keys@));
    let list = key_list(slices(keys@));
    lemma_request(r, old(c)@, 0x04, 0, p);
    lemma_key_list_at(keys@);
    lemma_le_len(4, keys@.len());
    assert(slices(keys@).len() == keys@.len());
    assert(p.subrange(0, 4) =~= le(4, keys@.len()));
    lemma_four_written(p, 0, keys@.len());
    assert forall|i: int| 0 <= i < keys@.len() implies begins_with(
        r.frame@.skip(24 + key_start(keys@, i)),
        (#[trigger] keys@[i])@,
    ) by {
        let key = keys@[i]@;
        let start = key_start(keys@, i);
        lemma_le_len(2, key.len());
        let q = r.frame@.skip(24 + start);
        let rest = list.skip(start - 2 + key.len());
        assert(q =~= p.skip(start));
        assert(p.skip(start) =~= list.skip(start - 4));
        assert(list.skip(start - 4) =~= list.subrange(start - 4, start - 2 + key.len()) + rest);
        lemma_name(q, key, rest);
    }
}

/// The size test for MGET says yes if and only if the frame is no more than an allocation can
/// hold.
pub proof fn law_mget_fits(keys: &[&[u8]], ok: bool)
    requires
        call_ensures(mget_fits, (keys,), ok),
    ensures
        ok <==> 24 + key_start(keys@, keys@.len() as int) <= isize::MAX,
{
    lemma_key_list_at(keys@);
    lemma_le_len(4, slices(keys@).len());
}

proof fn lemma_create(
    r: Request,
    pre: Session,
    name: Seq<u8>,
    dim: u32,
    kind: u8,
    backend: u8,
)
    requires
        is_request(r, pre, 0x10, 0, vindex_create_payload(name, dim, kind, backend)),
    ensures
        is_create(r, pre, name, dim, kind as int, backend as int),
{
    let p = vindex_create_payload(name, dim, kind, backend);
    let tail = le(4, dim as nat) + seq![kind, backend];
    let n = name.len() as int;
    lemma_request(r, pre, 0x10, 0, p);
    lemma_le_len(4, dim as nat);
    lemma_le_len(2, name.len());
    assert(p =~= short_bytes(name) + tail);
    lemma_name(p, name, tail);
    assert(p.subrange(2 + n, 6 + n) =~= le(4, dim as nat));
    lemma_four_written(p, 2 + n, dim as nat);
}

/// `r` is a VINDEX CREATE frame of the session's version and next id: name, dimension, kind byte
/// and backend byte, and nothing else.
pub open spec fn is_create(
    r: Request,
    pre: Session,
    name: Seq<u8>,
    dim: u32,
    kind: int,
    backend: int,
) -> bool {
    let p = r.frame@.skip(24);
    let n = name.len() as int;
    &&& r.id == pre.next_req_id
    &&& carries(r.frame@, pre.version, 0x10, 0, r.id)
    &&& r.frame@.len() == 32 + n
    &&& begins_with(p, name)
    &&& four(p, 2 + n) == dim
    &&& p[6 + n] == kind
    &&& p[7 + n] == backend
}

/// The frame of VINDEX CREATE holds the name, the dimension, the byte of the v1 kind and the byte
/// of the backend.
pub proof fn law_vindex_create_bytes(
    c: &mut SkegClient,
    name: &str,
    dim: u32,
    kind: VectorKind,
    backend: VectorBackend,
    r: Request,
)
    requires
        old(c)@.next_req_id < u64::MAX,
        call_ensures(SkegClient::vindex_create, (c, name, dim, kind, backend), r),
    ensures
        is_create(r, old(c)@, encode_utf8(name@), dim, v1_byte(kind), backend_byte(backend)),
        one_id_used(old(c)@, final(c)@),
{
    lemma_create(r, old(c)@, encode_utf8(name@), dim, kind.code(), backend.code());
}

/// The frame of VINDEX CREATE from a raw kind byte holds that byte.
pub proof fn law_vindex_create_raw_bytes(
    c: &mut SkegClient,
    name: &str,
    dim: u32,
    kind: u8,
    backend: VectorBackend,
    r: Request,
)
    requires
        old(c)@.next_req_id < u64::MAX,
        call_ensures(SkegClient::vindex_create_raw_kind, (c, name, dim, kind, backend), r),
    ensures
        is_create(r, old(c)@, encode_utf8(name@), dim, kind as int, backend_byte(backend)),
        one_id_used(old(c)@, final(c)@),
{
    lemma_create(r, old(c)@, encode_utf8(name@), dim, kind, backend.code());
}

/// An index is created by a v2 kind on v2 connections only. On every connection of another version,
/// for every kind, name, dimension and backend, the call gives `RequiresV2` and leaves the session
/// as it was. On a v2 connection it gives the frame with the byte of the kind.
#[verifier::rlimit(40)]
pub proof fn law_vindex_create_v2_guarded(
    c: &mut SkegClient,
    name: &str,
    dim: u32,
    kind: VectorKindV2,
    backend: VectorBackend,
    r: Result<Request, ClientError>,
)
    requires
        old(c)@.version == 2 ==> old(c)@.next_req_id < u64::MAX,
        call_ensures(SkegClient::vindex_create_v2, (c, name, dim, kind, backend), r),
    ensures
        r is Ok <==> old(c)@.version == 2,
        old(c)@.version != 2 ==> {
            &&& r matches Err(ClientError::RequiresV2(call))
            &&& call@ == "vindex_create_v2"@
            &&& final(c)@ == old(c)@
        },
        r matches Ok(request) ==> {
            &&& is_create(
                request,
                old(c)@,
                encode_utf8(name@),
                dim,
                v2_byte(kind),
                backend_byte(backend),
            )
            &&& request.frame@[2] == 2
            &&& one_id_used(old(c)@, final(c)@)
        },
{
    if r is Ok {
        lemma_create(r->Ok_0, old(c)@, encode_utf8(name@), dim, kind.code(), backend.code());
    }
}

/// A native hello is sent on v2 connections only. On every connection of another version the call
/// gives `RequiresV2` and leaves the session as it was; on a v2 connection it gives a bare v2
/// header with its op.
pub proof fn law_native_hello_guarded(c: &mut SkegClient, r: Result<Request, ClientError>)
    requires
        old(c)@.version == 2 ==> old(c)@.next_req_id < u64::MAX,
        call_ensures(SkegClient::native_hello, (c,), r),
    ensures
        r is Ok <==> old(c)@.version == 2,
        old(c)@.version != 2 ==> {
            &&& r matches Err(ClientError::RequiresV2(call))
            &&& call@ == "native_hello"@
            &&& final(c)@ == old(c)@
        },
        r matches Ok(request) ==> {
            &&& request.id == old(c)@.next_req_id
            &&& carries(request.frame@, 2, 0x84, 0, request.id)
            &&& request.frame@.len() == 24
            &&& one_id_used(old(c)@, final(c)@)
        },
{
    if r is Ok {
        lemma_request(r->Ok_0, old(c)@, 0x84, 0, Seq::empty());
    }
}

/// The frame of VGET holds the index's name and the vector's id, and nothing else.
pub proof fn law_vget_bytes(c: &mut SkegClient, name: &str, vec_id: u64, r: Request)
    requires
        old(c)@.next_req_id < u64::MAX,
        call_ensures(SkegClient::vget, (c, name, vec_id), r),
    ensures
        r.id == old(c)@.next_req_id,
        one_id_used(old(c)@, final(c)@),
        carries(r.frame@, old(c)@.version, 0x13, 0, r.id),
        begins_with(r.frame@.skip(24), encode_utf8(name@)),
        eight(r.frame@.skip(24), 2 + encode_utf8(name@).len() as int) == vec_id,
        r.frame@.len() == 34 + encode_utf8(name@).len(),
{
    let name = encode_utf8(name@);
    let n = name.len() as int;
    let p = short_bytes(name) + le(8, vec_id as nat);
    lemma_request(r, old(c)@, 0x13, 0, p);
    lemma_le_len(8, vec_id as nat);
    lemma_name(p, name, le(8, vec_id as nat));
    assert(p.subrange(2 + n, 10 + n) =~= le(8, vec_id as nat));
    lemma_eight_written(p, 2 + n, vec_id);
}

/// The frame of VDEL holds the index's name and the vector's id, and nothing else.
pub proof fn law_vdel_bytes(c: &mut SkegClient, name: &str, vec_id: u64, r: Request)
    requires
        old(c)@.next_req_id < u64::MAX,
        call_ensures(SkegClient::vdel, (c, name, vec_id), r),
    ensures
        r.id == old(c)@.next_req_id,
        one_id_used(old(c)@, final(c)@),
        carries(r.frame@, old(c)@.version, 0x14, 0, r.id),
        begins_with(r.frame@.skip(24), encode_utf8(name@)),
        eight(r.frame@.skip(24), 2 + encode_utf8(name@).len() as int) == vec_id,
        r.frame@.len() == 34 + encode_utf8(name@).len(),
{
    let name = encode_utf8(name@);
    let n = name.len() as int;
    let p = short_bytes(name) + le(8, vec_id as nat);
    lemma_request(r, old(c)@, 0x14, 0, p);
    lemma_le_len(8, vec_id as nat);
    lemma_name(p, name, le(8, vec_id as nat));
    assert(p.subrange(2 + n, 10 + n) =~= le(8, vec_id as nat));
    lemma_eight_written(p, 2 + n, vec_id);
}

/// The frame of VSET holds the index's name, the vector's id, the number of components and the bit
/// pattern of each component at its place, and nothing else.
#[verifier::rlimit(40)]
pub proof fn law_vset_bytes(c: &mut SkegClient, name: &str, id: u64, vector: &[u32], r: Request)
    requires
        old(c)@.next_req_id < u64::MAX,
        call_ensures(SkegClient::vset, (c, name, id, vector), r),
    ensures
        r.id == old(c)@.next_req_id,
        one_id_used(old(c)@, final(c)@),
        carries(r.frame@, old(c)@.version, 0x12, 0, r.id),
        ({
            let p = r.frame@.skip(24);
            let n = encode_utf8(name@).len() as int;
            &&& begins_with(p, encode_utf8(name@))
            &&& eight(p, 2 + n) == id
            &&& four(p, 10 + n) == vector@.len() % 0x1_0000_0000
            &&& ends_with_components(p, 14 + n, vector@)
        }),
{
    let name = encode_utf8(name@);
    let n = name.len() as int;
    let tail = le(8, id as nat) + vector_body(vector@);
    let p = vset_payload(name, id, vector@);
    lemma_request(r, old(c)@, 0x12, 0, p);
    lemma_le_len(8, id as nat);
    assert(p =~= short_bytes(name) + tail);
    lemma_name(p, name, tail);
    assert(p.subrange(2 + n, 10 + n) =~= tail.subrange(0, 8));
    assert(tail.subrange(0, 8) =~= le(8, id as nat));
    lemma_eight_written(p, 2 + n, id);
    assert(p.skip(10 + n) =~= tail.skip(8));
    assert(tail.skip(8) =~= vector_body(vector@));
    lemma_vector(p, 10 + n, vector@);
}

proof fn lemma_search(p: Seq<u8>, name: Seq<u8>, k: u32, body: Seq<u8>)
    requires
        p == short_bytes(name) + le(4, k as nat) + body,
    ensures
        begins_with(p, name),
        four(p, 2 + name.len() as int) == k,
        p.skip(6 + name.len() as int) == body,
        p.len() == 6 + name.len() + body.len(),
{
    let n = name.len() as int;
    let number = le(4, k as nat);
    lemma_le_len(4, k as nat);
    assert(p =~= short_bytes(name) + (number + body));
    lemma_name(p, name, number + body);
    assert(p.subrange(2 + n, 6 + n) =~= p.skip(2 + n).subrange(0, 4));
    assert((number + body).subrange(0, 4) =~= number);
    lemma_four_written(p, 2 + n, k as nat);
    assert(p.skip(6 + n) =~= p.skip(2 + n).skip(4));
    assert((number + body).skip(4) =~= body);
}

/// The frame of VSEARCH holds the index's name, the number of hits asked for, the number of
/// components and the bit pattern of each component of the query at its place, and nothing else.
pub proof fn law_vsearch_bytes(c: &mut SkegClient, name: &str, query: &[u32], k: u32, r: Request)
    requires
        old(c)@.next_req_id < u64::MAX,
        call_ensures(SkegClient::vsearch, (c, name, query, k), r),
    ensures
        r.id == old(c)@.next_req_id,
        one_id_used(old(c)@, final(c)@),
        carries(r.frame@, old(c)@.version, 0x15, 0, r.id),
        ({
            let p = r.frame@.skip(24);
            let n = encode_utf8(name@).len() as int;
            &&& begins_with(p, encode_utf8(name@))
            &&& four(p, 2 + n) == k
            &&& four(p, 6 + n) == query@.len() % 0x1_0000_0000
            &&& ends_with_components(p, 10 + n, query@)
        }),
{
    let p = vsearch_payload(encode_utf8(name@), k, query@);
    lemma_request(r, old(c)@, 0x15, 0, p);
    lemma_search(p, encode_utf8(name@), k, vector_body(query@));
    lemma_vector(p, 6 + encode_utf8(name@).len() as int, query@);
}

/// What SET puts on the wire is what GET reads. Where a server keeps the value bytes of a SET
/// frame, with or without a reply asked for, and sends them as the value of a GET, the caller of
/// the GET gets the value that the caller of the SET gave, whatever follows it.
pub proof fn law_set_get(
    c: &mut SkegClient,
    key: &[u8],
    value: &[u8],
    r: Request,
    reply: &Frame,
    got: Result<Option<Vec<u8>>, ClientError>,
)
    requires
        old(c)@.next_req_id < u64::MAX,
        call_ensures(SkegClient::set, (c, key, value), r) || call_ensures(
            SkegClient::set_no_reply,
            (c, key, value),
            r,
        ),
        call_ensures(SkegClient::get_reply, (reply,), got),
        reply.header.op == 0xC0,
        reply.payload@.len() >= 4,
        ({
            let stored = r.frame@.skip(30 + key@.len() as int);
            let p = reply.payload@;
            &&& four(p, 0) == stored.len()
            &&& p.len() >= 4 + stored.len()
            &&& p.subrange(4, 4 + stored.len() as int) == stored
        }),
    ensures
        got matches Ok(Some(v)) && v@ == value@,
{
    if call_ensures(SkegClient::set, (c, key, value), r) {
        lemma_set(r, old(c)@, 0, key@, value@);
    } else {
        lemma_set(r, old(c)@, 2, key@, value@);
    }
    assert(r.frame@.skip(30 + key@.len() as int) =~= r.frame@.skip(24).skip(
        6 + key@.len() as int,
    ));
    law_get_value(reply, got, value@);
}

/// What VSET puts on the wire is what VGET reads. Where a server keeps the component bytes of a
/// VSET frame and sends them as the value of a VGET, the caller of the VGET gets the vector that
/// the caller of the VSET gave, bit for bit, whatever follows the value.
#[verifier::rlimit(40)]
pub proof fn law_vset_vget(
    c: &mut SkegClient,
    name: &str,
    id: u64,
    vector: &[u32],
    r: Request,
    reply: &Frame,
    got: Result<Option<Vec<u32>>, ClientError>,
)
    requires
        old(c)@.next_req_id < u64::MAX,
        call_ensures(SkegClient::vset, (c, name, id, vector), r),
        call_ensures(SkegClient::vget_reply, (reply,), got),
        reply.header.op == 0xC0,
        reply.payload@.len() >= 4,
        ({
            let stored = r.frame@.skip(38 + encode_utf8(name@).len() as int);
            let p = reply.payload@;
            &&& four(p, 0) == stored.len()
            &&& p.len() >= 4 + stored.len()
            &&& p.subrange(4, 4 + stored.len() as int) == stored
        }),
    ensures
        got matches Ok(Some(v)) && v@ == vector@,
{
    broadcast use lemma_four;

    law_vset_bytes(c, name, id, vector, r);
    let n = encode_utf8(name@).len() as int;
    let sent = r.frame@.skip(24);
    let stored = r.frame@.skip(38 + n);
    let p = reply.payload@;
    assert(stored =~= sent.skip(14 + n));
    assert(value_of(p) == Some(stored));
    let v = vector_of(stored);
    assert(stored.len() == 4 * vector@.len());
    assert forall|i: int| 0 <= i < vector@.len() implies v[i] == vector@[i] by {
        lemma_four(stored, 4 * i);
        assert(four(stored, 4 * i) == four(sent, 14 + n + 4 * i));
    }
    assert(v =~= vector@);
}

}

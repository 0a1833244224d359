//! What holds of all kinds and of all requests.
use vstd::prelude::*;

use crate::client::{is_request, Request, Session};
use crate::frame::{
    frame_bytes, frame_of, lemma_frame_len, lemma_parse_frame, parse, sendable, Parsed, FLAGS_NONE,
    FLAG_NO_REPLY, HEADER_LEN, MAGIC, OP_SET,
};
use crate::kind::{VectorKind, VectorKindV2};
use crate::laws::reply::law_vector;
use crate::request::{
    components, key_list, mget_payload, set_payload, short_bytes, vector_body, vector_ref,
    vindex_create_payload, vsearch_payload, vset_payload,
};
use crate::wire::{le, lemma_le_len, lemma_le_roundtrip, lemma_pow256_widths, pow256};

verus! {

/// Each kind has a byte of its own among those that `from_wire` names.
pub proof fn law_kind_bytes(a: VectorKind, b: VectorKind)
    ensures
        a.code() <= 2,
        a.code() == b.code() ==> a == b,
{
}

/// Each v2 kind has a byte of its own among those that `from_wire` names.
pub proof fn law_kind_v2_bytes(a: VectorKindV2, b: VectorKindV2)
    ensures
        a.code() <= 5,
        a.code() == b.code() ==> a == b,
{
}

/// The bytes that v1 names mean the same kinds in v2, and byte 3, which v1 does not name, is TQ1
/// there.
pub proof fn law_kinds_agree(a: VectorKind, b: VectorKindV2)
    ensures
        a.code() == b.code() <==> {
            ||| a == VectorKind::F32 && b == VectorKindV2::F32
            ||| a == VectorKind::Int8 && b == VectorKindV2::Int8
            ||| a == VectorKind::Binary && b == VectorKindV2::Binary
        },
        a.code() != 3,
        b.code() == 3 <==> b == VectorKindV2::Tq1,
{
}

/// Every request carries the connection's version, as the third byte of its frame.
pub proof fn law_request_version(
    r: Request,
    pre: Session,
    op: u8,
    flags: u32,
    payload: Seq<u8>,
)
    requires
        is_request(r, pre, op, flags, payload),
    ensures
        r.frame@.len() == HEADER_LEN + payload.len(),
        r.frame@[2] == pre.version,
{
    lemma_frame_len(pre.version, op, flags, r.id, payload);
    lemma_le_len(2, MAGIC as nat);
}

/// A request on a v1 or v2 connection, of a size that the protocol admits, is one whole frame: the
/// connection's version, the request's op, flags, id and payload are read back from its bytes.
pub proof fn law_request_frame(r: Request, pre: Session, op: u8, flags: u32, payload: Seq<u8>)
    requires
        is_request(r, pre, op, flags, payload),
        sendable(pre.version, op, flags, payload),
    ensures
        parse(r.frame@) == Parsed::Whole(frame_of(pre.version, op, flags, r.id, payload)),
{
    lemma_parse_frame(pre.version, op, flags, r.id, payload, Seq::empty());
    assert(r.frame@ + Seq::<u8>::empty() =~= r.frame@);
}

/// A SET that asks for no reply differs from one that asks for a reply in the flag byte alone.
pub proof fn law_no_reply_is_a_flag(version: u8, req_id: u64, key: Seq<u8>, value: Seq<u8>)
    ensures
        frame_bytes(version, OP_SET, FLAG_NO_REPLY, req_id, set_payload(key, value))
            == frame_bytes(version, OP_SET, FLAGS_NONE, req_id, set_payload(key, value)).update(
            4,
            FLAG_NO_REPLY as u8,
        ),
{
    reveal_with_fuel(le, 5);
    lemma_le_len(2, MAGIC as nat);
    assert(le(4, FLAG_NO_REPLY as nat) =~= seq![2u8, 0, 0, 0]);
    assert(le(4, FLAGS_NONE as nat) =~= seq![0u8, 0, 0, 0]);
    assert(frame_bytes(version, OP_SET, FLAG_NO_REPLY, req_id, set_payload(key, value))
        =~= frame_bytes(version, OP_SET, FLAGS_NONE, req_id, set_payload(key, value)).update(
        4,
        FLAG_NO_REPLY as u8,
    ));
}

/// A number at the front of a stretch of bytes, and what follows it, can be told from the bytes.
proof fn lemma_le_head(w: nat, v: nat, tail: Seq<u8>, other: nat, other_tail: Seq<u8>)
    requires
        v < pow256(w),
        other < pow256(w),
        le(w, v) + tail == le(w, other) + other_tail,
    ensures
        v == other,
        tail == other_tail,
{
    let (a, b) = (le(w, v) + tail, le(w, other) + other_tail);
    lemma_le_len(w, v);
    lemma_le_len(w, other);
    lemma_le_roundtrip(w, v);
    lemma_le_roundtrip(w, other);
    assert(a.take(w as int) =~= le(w, v));
    assert(b.take(w as int) =~= le(w, other));
    assert(a.skip(w as int) =~= tail);
    assert(b.skip(w as int) =~= other_tail);
}

/// A key or name at the front of a stretch of bytes, and what follows it, can be told from the
/// bytes.
proof fn lemma_short_bytes_head(
    key: Seq<u8>,
    tail: Seq<u8>,
    other: Seq<u8>,
    other_tail: Seq<u8>,
)
    requires
        key.len() <= 0xFFFF,
        other.len() <= 0xFFFF,
        short_bytes(key) + tail == short_bytes(other) + other_tail,
    ensures
        key == other,
        tail == other_tail,
{
    lemma_pow256_widths();
    assert(short_bytes(key) + tail =~= le(2, key.len()) + (key + tail));
    assert(short_bytes(other) + other_tail =~= le(2, other.len()) + (other + other_tail));
    lemma_le_head(2, key.len(), key + tail, other.len(), other + other_tail);
    let (a, b) = (key + tail, other + other_tail);
    assert(a.take(key.len() as int) =~= key);
    assert(b.take(key.len() as int) =~= other);
    assert(a.skip(key.len() as int) =~= tail);
    assert(b.skip(key.len() as int) =~= other_tail);
}

/// A vector body says which components it holds, bit for bit.
proof fn lemma_vector_body_unambiguous(vector: Seq<u32>, other: Seq<u32>)
    requires
        vector_body(vector) == vector_body(other),
    ensures
        vector == other,
{
    lemma_le_len(4, vector.len());
    lemma_le_len(4, other.len());
    assert(vector_body(vector).skip(4) =~= components(vector));
    assert(vector_body(other).skip(4) =~= components(other));
    law_vector(vector);
    law_vector(other);
}

/// The payload of GET, DEL and VINDEX DROP says which key, or name, it is about, if its length
/// fits its field.
pub proof fn law_key_unambiguous(key: Seq<u8>, other: Seq<u8>)
    requires
        key.len() <= 0xFFFF,
        other.len() <= 0xFFFF,
        short_bytes(key) == short_bytes(other),
    ensures
        key == other,
{
    assert(short_bytes(key) + Seq::empty() =~= short_bytes(key));
    assert(short_bytes(other) + Seq::empty() =~= short_bytes(other));
    lemma_short_bytes_head(key, Seq::empty(), other, Seq::empty());
}

/// A VINDEX CREATE payload says which index it asks for: name, dimension, kind byte and backend
/// byte, if the name's length fits its field.
pub proof fn law_vindex_create_unambiguous(
    name: Seq<u8>,
    dim: u32,
    kind: u8,
    backend: u8,
    other_name: Seq<u8>,
    other_dim: u32,
    other_kind: u8,
    other_backend: u8,
)
    requires
        name.len() <= 0xFFFF,
        other_name.len() <= 0xFFFF,
        vindex_create_payload(name, dim, kind, backend) == vindex_create_payload(
            other_name,
            other_dim,
            other_kind,
            other_backend,
        ),
    ensures
        name == other_name,
        dim == other_dim,
        kind == other_kind,
        backend == other_backend,
{
    let a = le(4, dim as nat) + seq![kind, backend];
    let b = le(4, other_dim as nat) + seq![other_kind, other_backend];
    lemma_pow256_widths();
    assert(vindex_create_payload(name, dim, kind, backend) =~= short_bytes(name) + a);
    assert(vindex_create_payload(other_name, other_dim, other_kind, other_backend)
        =~= short_bytes(other_name) + b);
    lemma_short_bytes_head(name, a, other_name, b);
    let (x, y) = (seq![kind, backend], seq![other_kind, other_backend]);
    lemma_le_head(4, dim as nat, x, other_dim as nat, y);
    assert(x[0] == y[0] && x[1] == y[1]);
}

/// The payload of VGET and VDEL says which vector of which index it is about, if the name's length
/// fits its field.
pub proof fn law_vector_ref_unambiguous(
    name: Seq<u8>,
    id: u64,
    other_name: Seq<u8>,
    other_id: u64,
)
    requires
        name.len() <= 0xFFFF,
        other_name.len() <= 0xFFFF,
        vector_ref(name, id) == vector_ref(other_name, other_id),
    ensures
        name == other_name,
        id == other_id,
{
    lemma_pow256_widths();
    lemma_short_bytes_head(name, le(8, id as nat), other_name, le(8, other_id as nat));
    lemma_le_roundtrip(8, id as nat);
    lemma_le_roundtrip(8, other_id as nat);
}

/// A VSET payload says which vector it stores, bit for bit, under which id in which index, if the
/// name's length fits its field.
pub proof fn law_vset_unambiguous(
    name: Seq<u8>,
    id: u64,
    vector: Seq<u32>,
    other_name: Seq<u8>,
    other_id: u64,
    other_vector: Seq<u32>,
)
    requires
        name.len() <= 0xFFFF,
        other_name.len() <= 0xFFFF,
        vset_payload(name, id, vector) == vset_payload(other_name, other_id, other_vector),
    ensures
        name == other_name,
        id == other_id,
        vector == other_vector,
{
    let (x, y) = (vector_body(vector), vector_body(other_vector));
    let (a, b) = (le(8, id as nat) + x, le(8, other_id as nat) + y);
    lemma_pow256_widths();
    assert(vset_payload(name, id, vector) =~= short_bytes(name) + a);
    assert(vset_payload(other_name, other_id, other_vector) =~= short_bytes(other_name) + b);
    lemma_short_bytes_head(name, a, other_name, b);
    lemma_le_head(8, id as nat, x, other_id as nat, y);
    lemma_vector_body_unambiguous(vector, other_vector);
}

/// A VSEARCH payload says which query it makes, bit for bit, for how many hits and in which index,
/// if the name's length fits its field.
pub proof fn law_vsearch_unambiguous(
    name: Seq<u8>,
    k: u32,
    query: Seq<u32>,
    other_name: Seq<u8>,
    other_k: u32,
    other_query: Seq<u32>,
)
    requires
        name.len() <= 0xFFFF,
        other_name.len() <= 0xFFFF,
        vsearch_payload(name, k, query) == vsearch_payload(other_name, other_k, other_query),
    ensures
        name == other_name,
        k == other_k,
        query == other_query,
{
    let (x, y) = (vector_body(query), vector_body(other_query));
    let (a, b) = (le(4, k as nat) + x, le(4, other_k as nat) + y);
    lemma_pow256_widths();
    assert(vsearch_payload(name, k, query) =~= short_bytes(name) + a);
    assert(vsearch_payload(other_name, other_k, other_query) =~= short_bytes(other_name) + b);
    lemma_short_bytes_head(name, a, other_name, b);
    lemma_le_head(4, k as nat, x, other_k as nat, y);
    lemma_vector_body_unambiguous(query, other_query);
}

/// A SET payload says which key and which value it is about, if the key's length fits its field.
pub proof fn law_set_unambiguous(
    key: Seq<u8>,
    value: Seq<u8>,
    other_key: Seq<u8>,
    other_value: Seq<u8>,
)
    requires
        key.len() <= 0xFFFF,
        other_key.len() <= 0xFFFF,
        set_payload(key, value) == set_payload(other_key, other_value),
    ensures
        key == other_key,
        value == other_value,
{
    let a = set_payload(key, value);
    let b = set_payload(other_key, other_value);
    lemma_pow256_widths();
    lemma_le_len(2, key.len());
    lemma_le_len(2, other_key.len());
    lemma_le_len(4, value.len());
    lemma_le_len(4, other_value.len());
    lemma_le_roundtrip(2, key.len());
    lemma_le_roundtrip(2, other_key.len());
    assert(a.take(2) =~= le(2, key.len()));
    assert(b.take(2) =~= le(2, other_key.len()));
    assert(key.len() == other_key.len());
    assert(a.subrange(6, 6 + key.len() as int) =~= key);
    assert(b.subrange(6, 6 + key.len() as int) =~= other_key);
    assert(a.skip(6 + key.len() as int) =~= value);
    assert(b.skip(6 + key.len() as int) =~= other_value);
}

/// The list of a first key and more keys begins with the first key.
proof fn lemma_key_list_front(first: Seq<u8>, more: Seq<Seq<u8>>)
    ensures
        key_list(seq![first] + more) == short_bytes(first) + key_list(more),
    decreases more.len(),
{
    reveal_with_fuel(key_list, 2);
    let all = seq![first] + more;
    if more.len() == 0 {
        assert(all.drop_last() =~= Seq::empty());
        assert(all.last() == first);
        assert(key_list(all) =~= short_bytes(first) + key_list(more));
    } else {
        assert(all.drop_last() =~= seq![first] + more.drop_last());
        assert(all.last() == more.last());
        lemma_key_list_front(first, more.drop_last());
        assert(key_list(all) =~= short_bytes(first) + key_list(more));
    }
}

/// Lists of equally many keys are the same bytes only if they are the same keys.
proof fn lemma_key_list_unambiguous(keys: Seq<Seq<u8>>, others: Seq<Seq<u8>>)
    requires
        keys.len() == others.len(),
        forall|i: int| 0 <= i < keys.len() ==> (#[trigger] keys[i]).len() <= 0xFFFF,
        forall|i: int| 0 <= i < others.len() ==> (#[trigger] others[i]).len() <= 0xFFFF,
        key_list(keys) == key_list(others),
    ensures
        keys == others,
    decreases keys.len(),
{
    if keys.len() == 0 {
        assert(keys =~= others);
    } else {
        let (k, o) = (keys[0], others[0]);
        assert(keys =~= seq![k] + keys.skip(1));
        assert(others =~= seq![o] + others.skip(1));
        lemma_key_list_front(k, keys.skip(1));
        lemma_key_list_front(o, others.skip(1));
        lemma_short_bytes_head(k, key_list(keys.skip(1)), o, key_list(others.skip(1)));
        lemma_key_list_unambiguous(keys.skip(1), others.skip(1));
    }
}

/// An MGET payload says which keys it asks for and in which order, if their lengths and their
/// number fit their fields.
pub proof fn law_mget_unambiguous(keys: Seq<Seq<u8>>, others: Seq<Seq<u8>>)
    requires
        keys.len() <= u32::MAX,
        others.len() <= u32::MAX,
        forall|i: int| 0 <= i < keys.len() ==> (#[trigger] keys[i]).len() <= 0xFFFF,
        forall|i: int| 0 <= i < others.len() ==> (#[trigger] others[i]).len() <= 0xFFFF,
        mget_payload(keys) == mget_payload(others),
    ensures
        keys == others,
{
    lemma_pow256_widths();
    lemma_le_head(4, keys.len(), key_list(keys), others.len(), key_list(others));
    lemma_key_list_unambiguous(keys, others);
}

}

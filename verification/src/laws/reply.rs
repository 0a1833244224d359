//! What holds of replies: a client reads from each what the server wrote into it.
use vstd::prelude::*;
use vstd::utf8::{encode_utf8, encode_utf8_decode_utf8, encode_utf8_valid_utf8};

use crate::body::{
    announced, bool_of, capabilities_of, hits_of, mget_entries, mget_of, shards_of, stats_of,
    value_of, vector_of, vindex_rows, vindexes_of, whole_rows, NativeCapabilities, ServerStats,
    ShardStats, VindexRow, SHARD_ROW,
};
use crate::error::{
    err_message, is_server_err, text_of, ClientError, ErrCode, INVALID_REQUEST_BYTE, NOT_FOUND_BYTE,
};
use crate::request::{components, lemma_components_len, short_bytes};
use crate::wire::{
    le, lemma_le_len, lemma_le_roundtrip, lemma_pow256_widths, u16_at, u32_at, u64_at,
};

verus! {

/// The payload by which a server sends a value.
pub open spec fn value_body(value: Seq<u8>) -> Seq<u8> {
    le(4, value.len()) + value
}

/// The payload by which a server sends its statistics.
pub open spec fn stats_body(s: ServerStats) -> Seq<u8> {
    le(8, s.cache_bytes as nat) + le(8, s.cache_evictions as nat) + le(8, s.n_keys as nat) + le(
        8,
        s.cache_budget as nat,
    )
}

/// The payload by which a server sends its capabilities.
pub open spec fn capabilities_body(c: NativeCapabilities) -> Seq<u8> {
    seq![c.protocol_version, c.vector_kind_mask]
}

/// The byte by which a server sends an error code.
pub open spec fn code_byte(code: ErrCode) -> u8 {
    match code {
        ErrCode::NotFound => NOT_FOUND_BYTE,
        ErrCode::InvalidRequest => INVALID_REQUEST_BYTE,
        ErrCode::Internal => 0x03,
    }
}

/// The payload by which a server sends an error whose message is at most 255 bytes long.
pub open spec fn err_body(code: ErrCode, msg: Seq<char>) -> Seq<u8> {
    seq![code_byte(code), encode_utf8(msg).len() as u8] + encode_utf8(msg)
}

/// A number written in four bytes is read at its place.
proof fn lemma_u32_at(s: Seq<u8>, at: int, v: u32)
    requires
        0 <= at,
        at + 4 <= s.len(),
        s.subrange(at, at + 4) == le(4, v as nat),
    ensures
        u32_at(s, at) == v,
{
    lemma_pow256_widths();
    lemma_le_roundtrip(4, v as nat);
}

/// A number written in eight bytes is read at its place.
proof fn lemma_u64_at(s: Seq<u8>, at: int, v: u64)
    requires
        0 <= at,
        at + 8 <= s.len(),
        s.subrange(at, at + 8) == le(8, v as nat),
    ensures
        u64_at(s, at) == v,
{
    lemma_pow256_widths();
    lemma_le_roundtrip(8, v as nat);
}

/// The value that a server sends is the value that GET and VGET read, whatever follows it.
pub proof fn law_value(value: Seq<u8>, tail: Seq<u8>)
    requires
        value.len() <= u32::MAX,
    ensures
        value_of(value_body(value) + tail) == Some(value),
{
    let p = value_body(value) + tail;
    lemma_le_len(4, value.len());
    assert(p.subrange(0, 4) =~= le(4, value.len()));
    lemma_u32_at(p, 0, value.len() as u32);
    assert(p.subrange(4, 4 + value.len() as int) =~= value);
}

/// A value reply that was cut short holds no value, so that GET and VGET report it.
pub proof fn law_value_cut(value: Seq<u8>, n: int)
    requires
        value.len() <= u32::MAX,
        0 <= n < value_body(value).len(),
    ensures
        value_of(value_body(value).take(n)) is None,
{
    let p = value_body(value).take(n);
    lemma_le_len(4, value.len());
    if n >= 4 {
        assert(p.subrange(0, 4) =~= le(4, value.len()));
        lemma_u32_at(p, 0, value.len() as u32);
    }
}

/// The components that VSET writes for a vector are those that VGET reads, bit for bit.
pub proof fn law_vector(vector: Seq<u32>)
    ensures
        vector_of(components(vector)) == vector,
{
    lemma_components_len(vector);
    let b = components(vector);
    assert forall|i: int| 0 <= i < vector.len() implies u32_at(b, 4 * i) == vector[i] by {
        lemma_component(vector, i);
        lemma_le_len(4, vector[i] as nat);
        lemma_u32_at(b, 4 * i, vector[i]);
    }
    assert(vector_of(b) =~= vector);
}

/// Each component has its place among the bytes of a vector.
pub proof fn lemma_component(vector: Seq<u32>, i: int)
    requires
        0 <= i < vector.len(),
    ensures
        components(vector).len() == 4 * vector.len(),
        components(vector).subrange(4 * i, 4 * i + 4) == le(4, vector[i] as nat),
    decreases vector.len(),
{
    lemma_components_len(vector);
    lemma_components_len(vector.drop_last());
    lemma_le_len(4, vector.last() as nat);
    if i == vector.len() - 1 {
        assert(components(vector).subrange(4 * i, 4 * i + 4) =~= le(4, vector[i] as nat));
    } else {
        lemma_component(vector.drop_last(), i);
        assert(components(vector).subrange(4 * i, 4 * i + 4) =~= components(
            vector.drop_last(),
        ).subrange(4 * i, 4 * i + 4));
    }
}

/// The yes or no that a server sends is the one that DEL and VDEL read.
pub proof fn law_bool(yes: bool, tail: Seq<u8>)
    ensures
        bool_of(seq![if yes { 1u8 } else { 0u8 }] + tail) == yes,
{
}

/// The statistics that a server sends are those that STATS reads, whatever follows them.
pub proof fn law_stats(s: ServerStats, tail: Seq<u8>)
    ensures
        stats_of(stats_body(s) + tail) == Some(s),
{
    let p = stats_body(s) + tail;
    lemma_le_len(8, s.cache_bytes as nat);
    lemma_le_len(8, s.cache_evictions as nat);
    lemma_le_len(8, s.n_keys as nat);
    lemma_le_len(8, s.cache_budget as nat);
    assert(p.subrange(0, 8) =~= le(8, s.cache_bytes as nat));
    assert(p.subrange(8, 16) =~= le(8, s.cache_evictions as nat));
    assert(p.subrange(16, 24) =~= le(8, s.n_keys as nat));
    assert(p.subrange(24, 32) =~= le(8, s.cache_budget as nat));
    lemma_u64_at(p, 0, s.cache_bytes);
    lemma_u64_at(p, 8, s.cache_evictions);
    lemma_u64_at(p, 16, s.n_keys);
    lemma_u64_at(p, 24, s.cache_budget);
}

/// Statistics that were cut short are none, so that STATS reports them.
pub proof fn law_stats_cut(s: ServerStats, n: int)
    requires
        0 <= n < stats_body(s).len(),
    ensures
        stats_of(stats_body(s).take(n)) is None,
{
    lemma_le_len(8, s.cache_bytes as nat);
    lemma_le_len(8, s.cache_evictions as nat);
    lemma_le_len(8, s.n_keys as nat);
    lemma_le_len(8, s.cache_budget as nat);
}

/// The capabilities that a server sends are those that a native hello reads, and a record of any
/// other length is none.
pub proof fn law_capabilities(c: NativeCapabilities, p: Seq<u8>)
    ensures
        capabilities_of(capabilities_body(c)) == Some(c),
        p.len() != 2 ==> capabilities_of(p) is None,
{
}

/// The error that a server sends is the error that the caller gets: its code and its message.
pub proof fn law_server_err(code: ErrCode, msg: Seq<char>, e: ClientError)
    requires
        encode_utf8(msg).len() <= 255,
        is_server_err(e, err_body(code, msg)),
    ensures
        e matches ClientError::Server { code: c, msg: m } && c == code && m@ == msg,
{
    let p = err_body(code, msg);
    let b = encode_utf8(msg);
    encode_utf8_valid_utf8(msg);
    encode_utf8_decode_utf8(msg);
    assert(err_message(p) =~= b);
}

/// Whatever length an error payload announces for its message, the message is a stretch of what is
/// there: as long as announced, or all of it.
pub proof fn law_message_clamped(p: Seq<u8>)
    requires
        p.len() >= 2,
    ensures
        err_message(p).len() <= p[1],
        err_message(p).len() == p[1] || err_message(p).len() == p.len() - 2,
        err_message(p) == p.subrange(2, 2 + err_message(p).len() as int),
{
    assert(err_message(p) =~= p.subrange(2, 2 + err_message(p).len() as int));
}


/// The bytes of one shard's statistics.
pub open spec fn shard_row(r: ShardStats) -> Seq<u8> {
    le(4, r.shard_id as nat) + le(8, r.cache_bytes as nat) + le(8, r.cache_evictions as nat) + le(
        8,
        r.n_keys as nat,
    ) + le(8, r.cache_budget as nat)
}

/// The bytes of the statistics of shards, one after another.
pub open spec fn shard_list(rows: Seq<ShardStats>) -> Seq<u8>
    decreases rows.len(),
{
    if rows.len() == 0 {
        Seq::empty()
    } else {
        shard_list(rows.drop_last()) + shard_row(rows.last())
    }
}

proof fn lemma_shard_row_len(r: ShardStats)
    ensures
        shard_row(r).len() == SHARD_ROW,
{
    lemma_le_len(4, r.shard_id as nat);
    lemma_le_len(8, r.cache_bytes as nat);
    lemma_le_len(8, r.cache_evictions as nat);
    lemma_le_len(8, r.n_keys as nat);
    lemma_le_len(8, r.cache_budget as nat);
}

proof fn lemma_shard_list(rows: Seq<ShardStats>)
    ensures
        shard_list(rows).len() == 36 * rows.len(),
        forall|i: int|
            0 <= i < rows.len() ==> #[trigger] shard_list(rows).subrange(36 * i, 36 * i + 36)
                == shard_row(rows[i]),
    decreases rows.len(),
{
    if rows.len() > 0 {
        let most = rows.drop_last();
        lemma_shard_list(most);
        lemma_shard_row_len(rows.last());
        assert forall|i: int| 0 <= i < rows.len() implies #[trigger] shard_list(rows).subrange(
            36 * i,
            36 * i + 36,
        ) == shard_row(rows[i]) by {
            if i < most.len() {
                assert(shard_list(rows).subrange(36 * i, 36 * i + 36) =~= shard_list(
                    most,
                ).subrange(36 * i, 36 * i + 36));
                assert(most[i] == rows[i]);
            } else {
                assert(shard_list(rows).subrange(36 * i, 36 * i + 36) =~= shard_row(rows[i]));
            }
        }
    }
}

/// The per-shard statistics that a server sends are those that SHARDS reads, in their order,
/// whatever follows them.
pub proof fn law_shards(rows: Seq<ShardStats>, tail: Seq<u8>)
    requires
        rows.len() <= u32::MAX,
    ensures
        shards_of(le(4, rows.len()) + shard_list(rows) + tail) == rows,
{
    let p = le(4, rows.len()) + shard_list(rows) + tail;
    lemma_le_len(4, rows.len());
    lemma_shard_list(rows);
    assert(p.subrange(0, 4) =~= le(4, rows.len()));
    lemma_u32_at(p, 0, rows.len() as u32);
    assert(whole_rows(p, 36) == rows.len());
    assert forall|i: int| 0 <= i < rows.len() implies shards_of(p)[i] == rows[i] by {
        let at = 4 + 36 * i;
        let r = rows[i];
        let row = shard_row(r);
        lemma_le_len(4, r.shard_id as nat);
        lemma_le_len(8, r.cache_bytes as nat);
        lemma_le_len(8, r.cache_evictions as nat);
        lemma_le_len(8, r.n_keys as nat);
        lemma_le_len(8, r.cache_budget as nat);
        assert(p.subrange(at, at + 36) =~= shard_list(rows).subrange(36 * i, 36 * i + 36));
        assert(p.subrange(at, at + 36) == row);
        assert forall|a: int, b: int| 0 <= a <= b <= 36 implies #[trigger] p.subrange(
            at + a,
            at + b,
        ) == row.subrange(a, b) by {
            assert(p.subrange(at + a, at + b) =~= p.subrange(at, at + 36).subrange(a, b));
        }
        assert(p.subrange(at + 0, at + 4) =~= le(4, r.shard_id as nat));
        assert(p.subrange(at + 4, at + 12) =~= le(8, r.cache_bytes as nat));
        assert(p.subrange(at + 12, at + 20) =~= le(8, r.cache_evictions as nat));
        assert(p.subrange(at + 20, at + 28) =~= le(8, r.n_keys as nat));
        assert(p.subrange(at + 28, at + 36) =~= le(8, r.cache_budget as nat));
        lemma_u32_at(p, at, r.shard_id);
        lemma_u64_at(p, at + 4, r.cache_bytes);
        lemma_u64_at(p, at + 12, r.cache_evictions);
        lemma_u64_at(p, at + 20, r.n_keys);
        lemma_u64_at(p, at + 28, r.cache_budget);
    }
    assert(shards_of(p) =~= rows);
}

/// The bytes of search hits, one after another.
pub open spec fn hit_list(hits: Seq<(u64, u32)>) -> Seq<u8>
    decreases hits.len(),
{
    if hits.len() == 0 {
        Seq::empty()
    } else {
        hit_list(hits.drop_last()) + (le(8, hits.last().0 as nat) + le(4, hits.last().1 as nat))
    }
}

proof fn lemma_hit_list(hits: Seq<(u64, u32)>)
    ensures
        hit_list(hits).len() == 12 * hits.len(),
        forall|i: int|
            0 <= i < hits.len() ==> #[trigger] hit_list(hits).subrange(12 * i, 12 * i + 12) == le(
                8,
                hits[i].0 as nat,
            ) + le(4, hits[i].1 as nat),
    decreases hits.len(),
{
    if hits.len() > 0 {
        let most = hits.drop_last();
        lemma_hit_list(most);
        lemma_le_len(8, hits.last().0 as nat);
        lemma_le_len(4, hits.last().1 as nat);
        assert forall|i: int| 0 <= i < hits.len() implies #[trigger] hit_list(hits).subrange(
            12 * i,
            12 * i + 12,
        ) == le(8, hits[i].0 as nat) + le(4, hits[i].1 as nat) by {
            if i < most.len() {
                assert(hit_list(hits).subrange(12 * i, 12 * i + 12) =~= hit_list(most).subrange(
                    12 * i,
                    12 * i + 12,
                ));
                assert(most[i] == hits[i]);
            } else {
                assert(hit_list(hits).subrange(12 * i, 12 * i + 12) =~= le(8, hits[i].0 as nat)
                    + le(4, hits[i].1 as nat));
            }
        }
    }
}

/// The hits that a server sends are those that VSEARCH reads, in their order, each score bit for
/// bit, whatever follows them.
pub proof fn law_hits(hits: Seq<(u64, u32)>, tail: Seq<u8>)
    requires
        hits.len() <= u32::MAX,
    ensures
        hits_of(le(4, hits.len()) + hit_list(hits) + tail) == hits,
{
    let p = le(4, hits.len()) + hit_list(hits) + tail;
    lemma_le_len(4, hits.len());
    lemma_hit_list(hits);
    assert(p.subrange(0, 4) =~= le(4, hits.len()));
    lemma_u32_at(p, 0, hits.len() as u32);
    assert(whole_rows(p, 12) == hits.len());
    assert forall|i: int| 0 <= i < hits.len() implies hits_of(p)[i] == hits[i] by {
        let at = 4 + 12 * i;
        let row = le(8, hits[i].0 as nat) + le(4, hits[i].1 as nat);
        lemma_le_len(8, hits[i].0 as nat);
        lemma_le_len(4, hits[i].1 as nat);
        assert(p.subrange(at, at + 12) =~= hit_list(hits).subrange(12 * i, 12 * i + 12));
        assert(p.subrange(at, at + 12) == row);
        assert(p.subrange(at, at + 8) =~= p.subrange(at, at + 12).subrange(0, 8));
        assert(p.subrange(at + 8, at + 12) =~= p.subrange(at, at + 12).subrange(8, 12));
        assert(row.subrange(0, 8) =~= le(8, hits[i].0 as nat));
        assert(row.subrange(8, 12) =~= le(4, hits[i].1 as nat));
        lemma_u64_at(p, at, hits[i].0);
        lemma_u32_at(p, at + 8, hits[i].1);
    }
    assert(hits_of(p) =~= hits);
}

/// The bytes of one entry of a multi-get reply.
pub open spec fn mget_entry(v: Option<Seq<u8>>) -> Seq<u8> {
    match v {
        Some(b) => seq![0u8] + le(4, b.len()) + b,
        None => seq![1u8],
    }
}

/// The bytes of the entries of a multi-get reply, one after another.
pub open spec fn mget_list(list: Seq<Option<Seq<u8>>>) -> Seq<u8>
    decreases list.len(),
{
    if list.len() == 0 {
        Seq::empty()
    } else {
        mget_entry(list[0]) + mget_list(list.skip(1))
    }
}

proof fn lemma_mget_list(list: Seq<Option<Seq<u8>>>, tail: Seq<u8>)
    requires
        forall|i: int|
            0 <= i < list.len() ==> (#[trigger] list[i] matches Some(b) ==> b.len() <= u32::MAX),
    ensures
        mget_entries(list.len(), mget_list(list) + tail) == list,
    decreases list.len(),
{
    let s = mget_list(list) + tail;
    if list.len() == 0 {
        assert(mget_entries(0, s) =~= list);
    } else {
        let rest = list.skip(1);
        let after = mget_list(rest) + tail;
        lemma_mget_list(rest, tail);
        assert(s =~= mget_entry(list[0]) + after);
        match list[0] {
            Some(b) => {
                lemma_le_len(4, b.len());
                assert(s.subrange(1, 5) =~= le(4, b.len()));
                lemma_u32_at(s, 1, b.len() as u32);
                assert(s.subrange(5, 5 + b.len() as int) =~= b);
                assert(s.skip(5 + b.len() as int) =~= after);
            },
            None => {
                assert(s.skip(1) =~= after);
            },
        }
        assert(mget_entries(list.len(), s) =~= seq![list[0]] + rest);
        assert(seq![list[0]] + rest =~= list);
    }
}

/// The values that a server sends for the keys of an MGET, found and missing, are those that the
/// caller gets, in the order of the keys, whatever follows them.
pub proof fn law_mget(list: Seq<Option<Seq<u8>>>, tail: Seq<u8>)
    requires
        list.len() <= u32::MAX,
        forall|i: int|
            0 <= i < list.len() ==> (#[trigger] list[i] matches Some(b) ==> b.len() <= u32::MAX),
    ensures
        mget_of(le(4, list.len()) + mget_list(list) + tail) == list,
{
    let p = le(4, list.len()) + mget_list(list) + tail;
    lemma_le_len(4, list.len());
    assert(p.subrange(0, 4) =~= le(4, list.len()));
    lemma_u32_at(p, 0, list.len() as u32);
    assert(p.skip(4) =~= mget_list(list) + tail);
    lemma_mget_list(list, tail);
}

/// The bytes of one row of a list of vector indexes.
pub open spec fn vindex_row(r: VindexRow) -> Seq<u8> {
    short_bytes(encode_utf8(r.name)) + le(4, r.dim as nat) + seq![r.kind, r.backend] + le(
        8,
        r.n_vectors as nat,
    )
}

/// The bytes of the rows of a list of vector indexes, one after another.
pub open spec fn vindex_list(list: Seq<VindexRow>) -> Seq<u8>
    decreases list.len(),
{
    if list.len() == 0 {
        Seq::empty()
    } else {
        vindex_row(list[0]) + vindex_list(list.skip(1))
    }
}

proof fn lemma_vindex_list(list: Seq<VindexRow>, tail: Seq<u8>)
    requires
        forall|i: int|
            0 <= i < list.len() ==> encode_utf8((#[trigger] list[i]).name).len() <= 0xFFFF,
    ensures
        vindex_rows(list.len(), vindex_list(list) + tail) == list,
    decreases list.len(),
{
    let s = vindex_list(list) + tail;
    if list.len() == 0 {
        assert(vindex_rows(0, s) =~= list);
    } else {
        let rest = list.skip(1);
        let after = vindex_list(rest) + tail;
        lemma_vindex_list(rest, tail);
        let r = list[0];
        let name = encode_utf8(r.name);
        let end = 2 + name.len() as int;
        assert(s =~= vindex_row(r) + after);
        lemma_pow256_widths();
        lemma_le_len(2, name.len());
        lemma_le_roundtrip(2, name.len());
        lemma_le_len(4, r.dim as nat);
        lemma_le_len(8, r.n_vectors as nat);
        assert(s.subrange(0, 2) =~= le(2, name.len()));
        assert(u16_at(s, 0) == name.len());
        assert(s.subrange(2, end) =~= name);
        encode_utf8_valid_utf8(r.name);
        encode_utf8_decode_utf8(r.name);
        assert(text_of(name) == r.name);
        assert(s.subrange(end, end + 4) =~= le(4, r.dim as nat));
        lemma_u32_at(s, end, r.dim);
        assert(s.subrange(end + 6, end + 14) =~= le(8, r.n_vectors as nat));
        lemma_u64_at(s, end + 6, r.n_vectors);
        assert(s.skip(end + 14) =~= after);
        assert(vindex_rows(list.len(), s) =~= seq![r] + rest);
        assert(seq![r] + rest =~= list);
    }
}

/// The vector indexes that a server lists are those that VINDEX LIST reads, in their order,
/// whatever follows them.
pub proof fn law_vindex_list(list: Seq<VindexRow>, tail: Seq<u8>)
    requires
        list.len() <= u32::MAX,
        forall|i: int|
            0 <= i < list.len() ==> encode_utf8((#[trigger] list[i]).name).len() <= 0xFFFF,
    ensures
        vindexes_of(le(4, list.len()) + vindex_list(list) + tail) == list,
{
    let p = le(4, list.len()) + vindex_list(list) + tail;
    lemma_le_len(4, list.len());
    assert(p.subrange(0, 4) =~= le(4, list.len()));
    lemma_u32_at(p, 0, list.len() as u32);
    assert(p.skip(4) =~= vindex_list(list) + tail);
    lemma_vindex_list(list, tail);
}

}

//! The payloads of replies.
use vstd::prelude::*;

use crate::error::text_of;
use crate::wire::{
    le, lemma_le_len, lemma_le_roundtrip, lemma_pow256_widths, push_u32, read_u16, read_u32, u16_at,
    u32_at, u64_at,
};

verus! {

/// Aggregate server statistics, summed across shards.
#[derive(Debug, Clone, Copy, Default, PartialEq, Eq)]
pub struct ServerStats {
    /// Bytes currently held by the hot-key caches.
    pub cache_bytes: u64,
    /// Cache entries evicted over the server's lifetime.
    pub cache_evictions: u64,
    /// Live keys in the index.
    pub n_keys: u64,
    /// Configured cache byte budget.
    pub cache_budget: u64,
}

/// The statistics of one shard.
#[derive(Debug, Clone, Copy, Default, PartialEq, Eq)]
pub struct ShardStats {
    pub shard_id: u32,
    pub cache_bytes: u64,
    pub cache_evictions: u64,
    pub n_keys: u64,
    pub cache_budget: u64,
}

/// One vector index. `kind` and `backend` are the bytes by which it was created.
#[derive(Debug, Clone, PartialEq, Eq)]
pub struct VindexInfo {
    pub name: String,
    pub dim: u32,
    pub kind: u8,
    pub backend: u8,
    pub n_vectors: u64,
}

/// A vector index as a mathematical value.
#[verifier::ext_equal]
pub struct VindexRow {
    pub name: Seq<char>,
    pub dim: u32,
    pub kind: u8,
    pub backend: u8,
    pub n_vectors: u64,
}

impl View for VindexInfo {
    type V = VindexRow;

    open spec fn view(&self) -> VindexRow {
        VindexRow {
            name: self.name@,
            dim: self.dim,
            kind: self.kind,
            backend: self.backend,
            n_vectors: self.n_vectors,
        }
    }
}

/// The vector kinds of native protocol v2, as a capability record counts them.
#[derive(Debug, Clone, Copy, PartialEq, Eq, Structural)]
pub enum NativeVectorKindV2 {
    F32,
    Int8,
    Binary,
    Tq1,
    Tq2,
    Tq4,
}

/// The kind that a native v2 wire byte names, or the byte itself where it names none.
pub open spec fn kind_of_byte(byte: u8) -> Result<NativeVectorKindV2, u8> {
    match byte {
        0 => Ok(NativeVectorKindV2::F32),
        1 => Ok(NativeVectorKindV2::Int8),
        2 => Ok(NativeVectorKindV2::Binary),
        3 => Ok(NativeVectorKindV2::Tq1),
        4 => Ok(NativeVectorKindV2::Tq2),
        5 => Ok(NativeVectorKindV2::Tq4),
        _ => Err(byte),
    }
}

impl TryFrom<u8> for NativeVectorKindV2 {
    type Error = u8;

    fn try_from(byte: u8) -> (kind: Result<Self, u8>) {
        match byte {
            0 => Ok(NativeVectorKindV2::F32),
            1 => Ok(NativeVectorKindV2::Int8),
            2 => Ok(NativeVectorKindV2::Binary),
            3 => Ok(NativeVectorKindV2::Tq1),
            4 => Ok(NativeVectorKindV2::Tq2),
            5 => Ok(NativeVectorKindV2::Tq4),
            _ => Err(byte),
        }
    }
}

impl vstd::std_specs::convert::TryFromSpecImpl<u8> for NativeVectorKindV2 {
    open spec fn obeys_try_from_spec() -> bool {
        true
    }

    open spec fn try_from_spec(byte: u8) -> Result<Self, u8> {
        kind_of_byte(byte)
    }
}

/// What a v2 server says of itself in reply to a native hello.
#[derive(Debug, Clone, Copy, PartialEq, Eq)]
pub struct NativeCapabilities {
    pub protocol_version: u8,
    pub vector_kind_mask: u8,
}

/// The mask has a one as the binary digit that stands for `kind`.
pub open spec fn mask_names(mask: u8, kind: NativeVectorKindV2) -> bool {
    match kind {
        NativeVectorKindV2::F32 => mask % 2 == 1,
        NativeVectorKindV2::Int8 => (mask / 2) % 2 == 1,
        NativeVectorKindV2::Binary => (mask / 4) % 2 == 1,
        NativeVectorKindV2::Tq1 => (mask / 8) % 2 == 1,
        NativeVectorKindV2::Tq2 => (mask / 16) % 2 == 1,
        NativeVectorKindV2::Tq4 => (mask / 32) % 2 == 1,
    }
}

impl NativeCapabilities {
    /// Whether the server builds indexes of this kind.
    #[must_use]
    pub fn supports(self, kind: NativeVectorKindV2) -> (yes: bool)
        ensures
            yes == mask_names(self.vector_kind_mask, kind),
    {
        let mask: u8 = self.vector_kind_mask;
        assert({
            &&& (mask & 1 != 0) == (mask % 2 == 1)
            &&& (mask & 2 != 0) == ((mask / 2) % 2 == 1)
            &&& (mask & 4 != 0) == ((mask / 4) % 2 == 1)
            &&& (mask & 8 != 0) == ((mask / 8) % 2 == 1)
            &&& (mask & 16 != 0) == ((mask / 16) % 2 == 1)
            &&& (mask & 32 != 0) == ((mask / 32) % 2 == 1)
        }) by (bit_vector);
        let bit: u8 = match kind {
            NativeVectorKindV2::F32 => 1,
            NativeVectorKindV2::Int8 => 2,
            NativeVectorKindV2::Binary => 4,
            NativeVectorKindV2::Tq1 => 8,
            NativeVectorKindV2::Tq2 => 16,
            NativeVectorKindV2::Tq4 => 32,
        };
        mask & bit != 0
    }
}

/// `[u8 protocol_version][u8 vector_kind_mask]`, and nothing else.
pub open spec fn capabilities_of(p: Seq<u8>) -> Option<NativeCapabilities> {
    if p.len() == 2 {
        Some(NativeCapabilities { protocol_version: p[0], vector_kind_mask: p[1] })
    } else {
        None
    }
}

/// `[u32 value_len][value]`; `None` where there is less than that.
pub open spec fn value_of(p: Seq<u8>) -> Option<Seq<u8>> {
    if p.len() >= 4 && p.len() >= 4 + u32_at(p, 0) {
        Some(p.subrange(4, 4 + u32_at(p, 0)))
    } else {
        None
    }
}

/// A byte that says yes or no; no byte is a no.
pub open spec fn bool_of(p: Seq<u8>) -> bool {
    p.len() > 0 && p[0] != 0
}

/// Four u64 counters; `None` where there is less than that.
pub open spec fn stats_of(p: Seq<u8>) -> Option<ServerStats> {
    if p.len() >= 32 {
        Some(
            ServerStats {
                cache_bytes: u64_at(p, 0),
                cache_evictions: u64_at(p, 8),
                n_keys: u64_at(p, 16),
                cache_budget: u64_at(p, 24),
            },
        )
    } else {
        None
    }
}

/// The number of entries that a list, `[u32 n][entry] x n`, announces.
pub open spec fn announced(p: Seq<u8>) -> nat {
    if p.len() < 4 {
        0
    } else {
        u32_at(p, 0) as nat
    }
}

/// The number of whole rows of `row` bytes among those that a list announces.
pub open spec fn whole_rows(p: Seq<u8>, row: nat) -> nat {
    if p.len() < 4 {
        0
    } else if announced(p) <= (p.len() - 4) as nat / row {
        announced(p)
    } else {
        (p.len() - 4) as nat / row
    }
}

/// The length of a row of [`shards_of`].
pub const SHARD_ROW: usize = 36;

/// `[u32 n][[u32 shard_id][u64 x 4]] x n`, as far as there are whole rows.
pub open spec fn shards_of(p: Seq<u8>) -> Seq<ShardStats> {
    Seq::new(
        whole_rows(p, SHARD_ROW as nat),
        |i: int|
            ShardStats {
                shard_id: u32_at(p, 4 + 36 * i),
                cache_bytes: u64_at(p, 8 + 36 * i),
                cache_evictions: u64_at(p, 16 + 36 * i),
                n_keys: u64_at(p, 24 + 36 * i),
                cache_budget: u64_at(p, 32 + 36 * i),
            },
    )
}

/// The length of a row of [`hits_of`].
pub const HIT_ROW: usize = 12;

/// `[u32 n][[u64 vec_id][f32 score]] x n`, as far as there are whole rows; a score is given by
/// its bit pattern.
pub open spec fn hits_of(p: Seq<u8>) -> Seq<(u64, u32)> {
    Seq::new(
        whole_rows(p, HIT_ROW as nat),
        |i: int| (u64_at(p, 4 + 12 * i), u32_at(p, 12 + 12 * i)),
    )
}

/// The components of the vector whose bytes are `b`, by their bit patterns; bytes that do not make
/// up a component are passed over.
pub open spec fn vector_of(b: Seq<u8>) -> Seq<u32> {
    Seq::new(b.len() / 4, |i: int| u32_at(b, 4 * i))
}

/// The first `n` entries of `s`, each `[u8 0][u32 value_len][value]` for a value or a single other
/// byte for a missing one, as far as they are whole.
pub open spec fn mget_entries(n: nat, s: Seq<u8>) -> Seq<Option<Seq<u8>>>
    decreases n,
{
    if n == 0 || s.len() == 0 {
        Seq::empty()
    } else if s[0] != 0 {
        seq![None::<Seq<u8>>] + mget_entries((n - 1) as nat, s.skip(1))
    } else if s.len() < 5 || s.len() < 5 + u32_at(s, 1) {
        Seq::empty()
    } else {
        seq![Some(s.subrange(5, 5 + u32_at(s, 1)))] + mget_entries(
            (n - 1) as nat,
            s.skip(5 + u32_at(s, 1)),
        )
    }
}

/// `[u32 n][entry] x n`, as far as there are whole entries.
pub open spec fn mget_of(p: Seq<u8>) -> Seq<Option<Seq<u8>>> {
    mget_entries(announced(p), p.skip(4))
}

/// The first `n` rows of `s`, each `[u16 name_len][name][u32 dim][u8 kind][u8 backend]
/// [u64 n_vectors]`, as far as they are whole.
pub open spec fn vindex_rows(n: nat, s: Seq<u8>) -> Seq<VindexRow>
    decreases n,
{
    if n == 0 || s.len() < 2 || s.len() < 16 + u16_at(s, 0) {
        Seq::empty()
    } else {
        let end = 2 + u16_at(s, 0);
        seq![
            VindexRow {
                name: text_of(s.subrange(2, end)),
                dim: u32_at(s, end),
                kind: s[end + 4],
                backend: s[end + 5],
                n_vectors: u64_at(s, end + 6),
            },
        ] + vindex_rows((n - 1) as nat, s.skip(end + 14))
    }
}

/// `[u32 n][row] x n`, as far as there are whole rows.
pub open spec fn vindexes_of(p: Seq<u8>) -> Seq<VindexRow> {
    vindex_rows(announced(p), p.skip(4))
}

/// The values of a multi-get as byte sequences.
pub open spec fn values(list: Seq<Option<Vec<u8>>>) -> Seq<Option<Seq<u8>>> {
    list.map_values(
        |v: Option<Vec<u8>>|
            match v {
                Some(b) => Some(b@),
                None => None,
            },
    )
}

/// The vector indexes of a list as mathematical values.
pub open spec fn rows(list: Seq<VindexInfo>) -> Seq<VindexRow> {
    list.map_values(|v: VindexInfo| v@)
}

/// Announcing no more entries than are whole leaves the entries as they are.
pub proof fn lemma_mget_trimmed(n: nat, s: Seq<u8>)
    ensures
        mget_entries(n, s).len() <= n,
        mget_entries(mget_entries(n, s).len(), s) == mget_entries(n, s),
    decreases n,
{
    if n > 0 && s.len() > 0 {
        if s[0] != 0 {
            lemma_mget_trimmed((n - 1) as nat, s.skip(1));
        } else if s.len() >= 5 && s.len() >= 5 + u32_at(s, 1) {
            lemma_mget_trimmed((n - 1) as nat, s.skip(5 + u32_at(s, 1)));
        }
    }
}

/// Announcing no more rows than are whole leaves the rows as they are.
pub proof fn lemma_vindex_trimmed(n: nat, s: Seq<u8>)
    ensures
        vindex_rows(n, s).len() <= n,
        vindex_rows(vindex_rows(n, s).len(), s) == vindex_rows(n, s),
    decreases n,
{
    if n > 0 && s.len() >= 2 && s.len() >= 16 + u16_at(s, 0) {
        lemma_vindex_trimmed((n - 1) as nat, s.skip(16 + u16_at(s, 0)));
    }
}

/// Two lists that differ in nothing but the number of entries that they announce hold the same
/// bytes behind it.
proof fn lemma_same_rows(p: Seq<u8>, q: Seq<u8>)
    requires
        p.len() == q.len(),
        p.skip(4) == q.skip(4),
    ensures
        forall|at: int, end: int|
            4 <= at <= end <= p.len() ==> #[trigger] p.subrange(at, end) == q.subrange(at, end),
{
    assert forall|at: int, end: int| 4 <= at <= end <= p.len() implies #[trigger] p.subrange(
        at,
        end,
    ) == q.subrange(at, end) by {
        assert(p.subrange(at, end) =~= p.skip(4).subrange(at - 4, end - 4));
        assert(q.subrange(at, end) =~= q.skip(4).subrange(at - 4, end - 4));
    }
}

/// Announcing no more rows than are whole leaves the rows as they are.
pub proof fn lemma_shards_trimmed(p: Seq<u8>, q: Seq<u8>)
    requires
        p.len() >= 4,
        p.len() == q.len(),
        p.skip(4) == q.skip(4),
        announced(q) == whole_rows(p, SHARD_ROW as nat),
    ensures
        announced(q) == whole_rows(q, SHARD_ROW as nat),
        shards_of(q) == shards_of(p),
{
    lemma_same_rows(p, q);
    assert forall|i: int| 0 <= i < shards_of(p).len() implies shards_of(q)[i] == shards_of(
        p,
    )[i] by {
        let at = 4 + 36 * i;
        let room = p.len() - 4;
        assert(i < room / 36);
        assert(36 * (room / 36) <= room) by (nonlinear_arith);
        assert(at + 36 <= p.len());
        assert(p.subrange(at, at + 4) == q.subrange(at, at + 4));
        assert(p.subrange(at + 4, at + 12) == q.subrange(at + 4, at + 12));
        assert(p.subrange(at + 12, at + 20) == q.subrange(at + 12, at + 20));
        assert(p.subrange(at + 20, at + 28) == q.subrange(at + 20, at + 28));
        assert(p.subrange(at + 28, at + 36) == q.subrange(at + 28, at + 36));
    }
    assert(shards_of(q) =~= shards_of(p));
}

/// Announcing no more rows than are whole leaves the rows as they are.
pub proof fn lemma_hits_trimmed(p: Seq<u8>, q: Seq<u8>)
    requires
        p.len() >= 4,
        p.len() == q.len(),
        p.skip(4) == q.skip(4),
        announced(q) == whole_rows(p, HIT_ROW as nat),
    ensures
        announced(q) == whole_rows(q, HIT_ROW as nat),
        hits_of(q) == hits_of(p),
{
    lemma_same_rows(p, q);
    assert forall|i: int| 0 <= i < hits_of(p).len() implies hits_of(q)[i] == hits_of(p)[i] by {
        let at = 4 + 12 * i;
        let room = p.len() - 4;
        assert(i < room / 12);
        assert(12 * (room / 12) <= room) by (nonlinear_arith);
        assert(at + 12 <= p.len());
        assert(p.subrange(at, at + 8) == q.subrange(at, at + 8));
        assert(p.subrange(at + 8, at + 12) == q.subrange(at + 8, at + 12));
    }
    assert(hits_of(q) =~= hits_of(p));
}

/// The list `p` with `k` as the number of entries that it announces.
pub(crate) fn announcing(p: &[u8], k: u32) -> (out: Vec<u8>)
    requires
        p@.len() >= 4,
    ensures
        out@.len() == p@.len(),
        out@.skip(4) == p@.skip(4),
        announced(out@) == k,
{
    let mut out: Vec<u8> = Vec::new();
    push_u32(&mut out, k);
    out.extend_from_slice(vstd::slice::slice_subrange(p, 4, p.len()));
    proof {
        lemma_le_len(4, k as nat);
        lemma_pow256_widths();
        lemma_le_roundtrip(4, k as nat);
    }
    assert(out@ =~= le(4, k as nat) + p@.skip(4));
    assert(out@.subrange(0, 4) =~= le(4, k as nat));
    assert(out@.skip(4) =~= p@.skip(4));
    out
}

/// Counts the whole rows among those that a list announces.
pub(crate) fn count_rows(p: &[u8], row: usize) -> (k: u32)
    requires
        p@.len() >= 4,
        row > 0,
    ensures
        k == whole_rows(p@, row as nat),
{
    let n: u32 = read_u32(p, 0);
    let room: usize = (p.len() - 4) / row;
    if n as usize <= room {
        n
    } else {
        room as u32
    }
}

/// Counts the whole entries of a multi-get reply.
pub(crate) fn count_mget(p: &[u8]) -> (k: u32)
    requires
        p@.len() >= 4,
    ensures
        k == mget_of(p@).len(),
{
    let n: u32 = read_u32(p, 0);
    let mut pos: usize = 4;
    let mut k: u32 = 0;
    while k < n
        invariant
            4 <= pos <= p@.len(),
            k <= n,
            n == announced(p@),
            mget_of(p@).len() == k + mget_entries((n - k) as nat, p@.skip(pos as int)).len(),
        decreases n - k,
    {
        let ghost s = p@.skip(pos as int);
        if pos >= p.len() {
            return k;
        }
        if p[pos] != 0 {
            assert(s.skip(1) =~= p@.skip(pos + 1));
            pos = pos + 1;
        } else {
            if p.len() - pos < 5 {
                return k;
            }
            assert(s.subrange(1, 5) =~= p@.subrange(pos + 1, pos + 5));
            let len: u32 = read_u32(p, pos + 1);
            if p.len() - pos - 5 < len as usize {
                return k;
            }
            assert(s.skip(5 + len) =~= p@.skip(pos + 5 + len));
            pos = pos + 5 + len as usize;
        }
        k = k + 1;
    }
    k
}

/// Counts the whole rows of a list of vector indexes.
pub(crate) fn count_vindexes(p: &[u8]) -> (k: u32)
    requires
        p@.len() >= 4,
    ensures
        k == vindexes_of(p@).len(),
{
    let n: u32 = read_u32(p, 0);
    let mut pos: usize = 4;
    let mut k: u32 = 0;
    while k < n
        invariant
            4 <= pos <= p@.len(),
            k <= n,
            n == announced(p@),
            vindexes_of(p@).len() == k + vindex_rows((n - k) as nat, p@.skip(pos as int)).len(),
        decreases n - k,
    {
        let ghost s = p@.skip(pos as int);
        if p.len() - pos < 2 {
            return k;
        }
        assert(s.subrange(0, 2) =~= p@.subrange(pos as int, pos + 2));
        let len: u16 = read_u16(p, pos);
        if p.len() - pos < 16 + len as usize {
            return k;
        }
        assert(s.skip(16 + len) =~= p@.skip(pos + 16 + len));
        pos = pos + 16 + len as usize;
        k = k + 1;
    }
    k
}

}

//! What holds of a call as a whole, its request and its reply together.
use vstd::prelude::*;

use crate::body::{announced, hits_of, values};
use crate::client::{after_request, is_create_v2, is_request, Request, Session};
use crate::error::ClientError;
use crate::frame::{FrameView, FLAGS_NONE, OP_OK, OP_VINDEX_CREATE, PROTOCOL_V2};
use crate::kind::{VectorBackend, VectorKind, VectorKindV2};
use crate::laws::reply::{hit_list, law_hits, law_mget, mget_list};
use crate::reply::{is_done, is_mget_for, is_vsearch};
use crate::request::vindex_create_payload;
use crate::wire::le;

verus! {

/// The two requests are the same: id and bytes.
pub open spec fn same_request(a: Request, b: Request) -> bool {
    a.id == b.id && a.frame@ == b.frame@
}

/// The two errors are the same, a server's message by its text.
pub open spec fn same_error(a: ClientError, b: ClientError) -> bool {
    match (a, b) {
        (
            ClientError::Server { code, msg },
            ClientError::Server { code: other_code, msg: other_msg },
        ) => code == other_code && msg@ == other_msg@,
        _ => a == b,
    }
}

/// The two outcomes of calls that are answered by a bare `Ok` are the same.
pub open spec fn same_done(a: Result<(), ClientError>, b: Result<(), ClientError>) -> bool {
    match (a, b) {
        (Ok(_), Ok(_)) => true,
        (Err(e), Err(other)) => same_error(e, other),
        _ => false,
    }
}

/// A reply to a call that is answered by a bare `Ok` has one outcome.
pub proof fn law_done(reply: FrameView, a: Result<(), ClientError>, b: Result<(), ClientError>)
    requires
        is_done(a, reply),
        is_done(b, reply),
    ensures
        same_done(a, b),
{
}

/// To create an index by a v1 kind is to create it by the kind's byte, on every connection: the
/// same request with the same id is sent, the session after it is the same, and the same reply has
/// the same outcome.
pub proof fn law_create_is_raw(
    pre: Session,
    name: Seq<u8>,
    dim: u32,
    kind: VectorKind,
    byte: u8,
    backend: VectorBackend,
    typed: Request,
    typed_post: Session,
    raw: Request,
    raw_post: Session,
    reply: FrameView,
    typed_outcome: Result<(), ClientError>,
    raw_outcome: Result<(), ClientError>,
)
    requires
        byte == kind.code(),
        is_request(
            typed,
            pre,
            OP_VINDEX_CREATE,
            FLAGS_NONE,
            vindex_create_payload(name, dim, kind.code(), backend.code()),
        ),
        typed_post == after_request(pre),
        raw_post == after_request(pre),
        is_request(
            raw,
            pre,
            OP_VINDEX_CREATE,
            FLAGS_NONE,
            vindex_create_payload(name, dim, byte, backend.code()),
        ),
        is_done(typed_outcome, reply),
        is_done(raw_outcome, reply),
    ensures
        same_request(typed, raw),
        typed_post == raw_post,
        same_done(typed_outcome, raw_outcome),
{
    law_done(reply, typed_outcome, raw_outcome);
}

/// To create an index by a v2 kind on a v2 connection is to create it by the kind's byte: the same
/// request with the same id is sent, one id is used up, the session after it is the same, and the
/// same reply has the same outcome.
pub proof fn law_create_v2_is_raw(
    pre: Session,
    name: Seq<u8>,
    dim: u32,
    kind: VectorKindV2,
    byte: u8,
    backend: VectorBackend,
    typed: Result<Request, ClientError>,
    typed_post: Session,
    raw: Request,
    raw_post: Session,
    reply: FrameView,
    typed_outcome: Result<(), ClientError>,
    raw_outcome: Result<(), ClientError>,
)
    requires
        pre.version == PROTOCOL_V2,
        pre.next_req_id < u64::MAX,
        byte == kind.code(),
        is_create_v2(typed, pre, typed_post, name, dim, kind, backend),
        raw_post == after_request(pre),
        is_request(
            raw,
            pre,
            OP_VINDEX_CREATE,
            FLAGS_NONE,
            vindex_create_payload(name, dim, byte, backend.code()),
        ),
        is_done(typed_outcome, reply),
        is_done(raw_outcome, reply),
    ensures
        typed matches Ok(request) && same_request(request, raw),
        typed_post == raw_post,
        typed_post.next_req_id == pre.next_req_id + 1,
        same_done(typed_outcome, raw_outcome),
{
    law_done(reply, typed_outcome, raw_outcome);
}

/// MGET gives a list parallel to its keys. Where the server answers one entry per key, the caller
/// gets as many entries as there are keys, and for each key the entry that the server sent for it.
pub proof fn law_mget_parallel(
    keys: Seq<Seq<u8>>,
    answers: Seq<Option<Seq<u8>>>,
    tail: Seq<u8>,
    reply: FrameView,
    r: Result<Vec<Option<Vec<u8>>>, ClientError>,
)
    requires
        answers.len() == keys.len(),
        keys.len() <= u32::MAX,
        forall|i: int|
            0 <= i < answers.len() ==> (#[trigger] answers[i] matches Some(b) ==> b.len()
                <= u32::MAX),
        reply.header.op == OP_OK,
        reply.payload == le(4, answers.len()) + mget_list(answers) + tail,
        is_mget_for(r, reply, keys.len()),
    ensures
        r matches Ok(list) && list@.len() == keys.len() && forall|i: int|
            0 <= i < keys.len() ==> #[trigger] values(list@)[i] == answers[i],
{
    law_mget(answers, tail);
}

/// Whatever a server answers, a list that MGET gives is as long as the list of keys.
pub proof fn law_mget_length(
    keys: Seq<Seq<u8>>,
    reply: FrameView,
    r: Result<Vec<Option<Vec<u8>>>, ClientError>,
)
    requires
        is_mget_for(r, reply, keys.len()),
    ensures
        r matches Ok(list) ==> list@.len() == keys.len(),
{
}

/// The f32 with this bit pattern is a number.
pub open spec fn is_number(bits: u32) -> bool {
    bits % 0x8000_0000 <= 0x7F80_0000
}

/// Where a number stands among the f32 numbers: the bits below the sign count away from zero, to
/// either side, and both zeros stand at zero.
pub open spec fn place(bits: u32) -> int {
    if bits < 0x8000_0000 {
        bits as int
    } else {
        0x8000_0000 - bits
    }
}

/// Every score is a number, and none is lower than one that comes after it.
pub open spec fn best_first(hits: Seq<(u64, u32)>) -> bool {
    &&& forall|i: int| 0 <= i < hits.len() ==> is_number(#[trigger] hits[i].1)
    &&& forall|i: int, j: int|
        0 <= i <= j < hits.len() ==> place(#[trigger] hits[i].1) >= place(#[trigger] hits[j].1)
}

/// A VSEARCH reply that is cut short gives the first of the hits that the whole reply gives.
pub proof fn law_hits_cut(p: Seq<u8>, n: int)
    requires
        0 <= n <= p.len(),
    ensures
        hits_of(p.take(n)).len() <= hits_of(p).len(),
        hits_of(p.take(n)) == hits_of(p).take(hits_of(p.take(n)).len() as int),
{
    let q = p.take(n);
    if n >= 4 {
        assert(q.subrange(0, 4) =~= p.subrange(0, 4));
        assert(announced(q) == announced(p));
        assert forall|i: int| 0 <= i < hits_of(q).len() implies hits_of(q)[i] == hits_of(p)[i] by {
            let at = 4 + 12 * i;
            assert(at + 12 <= n);
            assert(q.subrange(at, at + 8) =~= p.subrange(at, at + 8));
            assert(q.subrange(at + 8, at + 12) =~= p.subrange(at + 8, at + 12));
        }
    }
    assert(hits_of(q) =~= hits_of(p).take(hits_of(q).len() as int));
}

/// VSEARCH gives at most `k` hits, highest score first, where the server sends such hits; the order
/// is the server's. That holds of a reply that is cut short, too, and a whole reply gives all of
/// its hits.
pub proof fn law_nearest(
    k: u32,
    hits: Seq<(u64, u32)>,
    tail: Seq<u8>,
    n: int,
    reply: FrameView,
    r: Result<Vec<(u64, u32)>, ClientError>,
)
    requires
        hits.len() <= k,
        best_first(hits),
        0 <= n <= (le(4, hits.len()) + hit_list(hits) + tail).len(),
        reply.header.op == OP_OK,
        reply.payload == (le(4, hits.len()) + hit_list(hits) + tail).take(n),
        is_vsearch(r, reply),
    ensures
        r matches Ok(found) && found@.len() <= k && best_first(found@) && (n == (le(4, hits.len())
            + hit_list(hits) + tail).len() ==> found@ == hits),
{
    let p = le(4, hits.len()) + hit_list(hits) + tail;
    law_hits(hits, tail);
    law_hits_cut(p, n);
    if n == p.len() {
        assert(p.take(n) =~= p);
    }
    let found = hits_of(p.take(n));
    assert forall|i: int| 0 <= i < found.len() implies found[i] == #[trigger] hits[i] by {
        assert(found[i] == hits.take(found.len() as int)[i]);
    }
}

}

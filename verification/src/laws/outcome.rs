//! What each reply means, byte by byte: the outcome that a function gives for every frame, told by
//! the frame's op byte and the bytes of its payload.
use vstd::prelude::*;
use vstd::utf8::{
    decode_utf8, encode_utf8, encode_utf8_decode_utf8, encode_utf8_valid_utf8, valid_utf8,
};

use crate::body::{
    hits_of, mget_entries, mget_of, rows, shards_of, value_of, values, vector_of, vindex_rows,
    NativeCapabilities, ServerStats, ShardStats, VindexInfo, VindexRow,
};
use crate::client::SkegClient;
use crate::error::{err_message, ClientError, ErrCode};
use crate::frame::Frame;
use crate::laws::digits::{eight, four, lemma_eight, lemma_four, lemma_two, two};
use crate::lossy::lossy_utf8;
use crate::reply::is_failure;

verus! {

/// `text` is the text of `bytes`: what they encode in UTF-8, or what the lossy decoder makes of
/// them.
pub open spec fn says(text: Seq<char>, bytes: Seq<u8>) -> bool {
    if valid_utf8(bytes) {
        text == decode_utf8(bytes)
    } else {
        text == lossy_utf8(bytes)
    }
}

/// How many message bytes there are in an error payload of which `p[1]` announces the number.
pub open spec fn message_len(p: Seq<u8>) -> int {
    if p[1] + 2 <= p.len() {
        p[1] as int
    } else {
        p.len() - 2
    }
}

/// `e` is the error by which a frame with an op other than 0xC0 is answered: the code and the
/// message of an error frame, or `UnexpectedOp` for an error frame too short to hold them and for
/// any other frame.
pub open spec fn refused(e: ClientError, op: u8, p: Seq<u8>) -> bool {
    if op == 0xC1 && p.len() >= 2 {
        &&& e matches ClientError::Server { code, msg }
        &&& code == (match p[0] {
            1 => ErrCode::NotFound,
            2 => ErrCode::InvalidRequest,
            _ => ErrCode::Internal,
        })
        &&& says(msg@, p.subrange(2, 2 + message_len(p)))
    } else {
        e is UnexpectedOp
    }
}

/// `e` is the error by which a payload that cannot be decoded is answered.
pub open spec fn undecodable(e: ClientError) -> bool {
    e matches ClientError::Protocol(fault) && fault is InvalidPayload
}

/// The message bytes of an error payload are those behind its first two bytes: as many as the
/// second byte says, or all of them if there are fewer.
pub proof fn law_message_bytes(payload: &[u8], message: &[u8])
    requires
        payload@.len() >= 2,
        call_ensures(SkegClient::err_message_bytes, (payload,), message),
    ensures
        message@ == payload@.subrange(2, 2 + message_len(payload@)),
{
    assert(message@ =~= payload@.subrange(2, 2 + message_len(payload@)));
}

/// The error of a code byte and a message has the byte's code and that very message.
pub proof fn law_error_parts(code_byte: u8, text: String, e: ClientError)
    requires
        call_ensures(SkegClient::server_error, (code_byte, text), e),
    ensures
        e matches ClientError::Server { code, msg } && msg == text && code == (match code_byte {
            1 => ErrCode::NotFound,
            2 => ErrCode::InvalidRequest,
            _ => ErrCode::Internal,
        }),
{
}

/// The error of an error payload has its code and its message.
pub proof fn law_error_of_payload(payload: &[u8], e: ClientError)
    requires
        call_ensures(SkegClient::server_err, (payload,), e),
    ensures
        refused(e, 0xC1, payload@),
{
    if payload@.len() >= 2 {
        lemma_message(payload@);
    }
}

proof fn lemma_message(p: Seq<u8>)
    requires
        p.len() >= 2,
    ensures
        err_message(p) == p.subrange(2, 2 + message_len(p)),
{
    assert(err_message(p) =~= p.subrange(2, 2 + message_len(p)));
}

proof fn lemma_refused(e: ClientError, f: &Frame)
    requires
        f.header.op != 0xC0,
        is_failure(e, f@),
    ensures
        refused(e, f.header.op, f.payload@),
{
    if f.payload@.len() >= 2 {
        lemma_message(f.payload@);
    }
}

/// For every code and every message that fits, the error frame by which a server sends them is
/// answered by an error with that code and that message.
pub proof fn law_error_told(e: ClientError, p: Seq<u8>, code: ErrCode, text: Seq<char>)
    requires
        refused(e, 0xC1, p),
        p.len() >= 2,
        p[0] == (match code {
            ErrCode::NotFound => 1,
            ErrCode::InvalidRequest => 2,
            ErrCode::Internal => 3int,
        }),
        p[1] == encode_utf8(text).len(),
        p.skip(2) == encode_utf8(text),
    ensures
        e matches ClientError::Server { code: told, msg } && told == code && msg@ == text,
{
    encode_utf8_valid_utf8(text);
    encode_utf8_decode_utf8(text);
    assert(p.subrange(2, 2 + message_len(p)) =~= p.skip(2));
}

/// A call that is answered by a bare `Ok` succeeds if and only if the op of the reply is 0xC0;
/// otherwise it fails with what the reply says.
pub proof fn law_done_outcome(frame: &Frame, r: Result<(), ClientError>)
    requires
        call_ensures(SkegClient::done_reply, (frame,), r),
    ensures
        r is Ok <==> frame.header.op == 0xC0,
        r matches Err(e) ==> refused(e, frame.header.op, frame.payload@),
{
    if r is Err {
        lemma_refused(r->Err_0, frame);
    }
}

/// A server's error frame is the error of the call, for every code and message, whatever the call
/// that is answered by a bare `Ok` was.
pub proof fn law_done_error(
    frame: &Frame,
    r: Result<(), ClientError>,
    code: ErrCode,
    text: Seq<char>,
)
    requires
        call_ensures(SkegClient::done_reply, (frame,), r),
        frame.header.op == 0xC1,
        frame.payload@.len() >= 2,
        frame.payload@[0] == (match code {
            ErrCode::NotFound => 1,
            ErrCode::InvalidRequest => 2,
            ErrCode::Internal => 3int,
        }),
        frame.payload@[1] == encode_utf8(text).len(),
        frame.payload@.skip(2) == encode_utf8(text),
    ensures
        r matches Err(ClientError::Server { code: told, msg }) && told == code && msg@ == text,
{
    law_done_outcome(frame, r);
    law_error_told(r->Err_0, frame.payload@, code, text);
}

/// STATS gives the four counters of an `Ok` reply, each from its eight bytes, and calls a reply
/// that is shorter undecodable.
pub proof fn law_stats_outcome(frame: &Frame, r: Result<ServerStats, ClientError>)
    requires
        call_ensures(SkegClient::stats_reply, (frame,), r),
    ensures
        ({
            let p = frame.payload@;
            if frame.header.op != 0xC0 {
                r matches Err(e) && refused(e, frame.header.op, p)
            } else if p.len() < 32 {
                r matches Err(e) && undecodable(e)
            } else {
                &&& r matches Ok(s)
                &&& s.cache_bytes == eight(p, 0)
                &&& s.cache_evictions == eight(p, 8)
                &&& s.n_keys == eight(p, 16)
                &&& s.cache_budget == eight(p, 24)
            }
        }),
{
    broadcast use lemma_eight;

    if r is Err && frame.header.op != 0xC0 {
        lemma_refused(r->Err_0, frame);
    }
}

/// GET gives the value of an `Ok` reply: as many bytes as the first four announce, those behind
/// them. `None` is the answer to an error frame whose code is 0x01, and to nothing else.
pub proof fn law_get_outcome(frame: &Frame, r: Result<Option<Vec<u8>>, ClientError>)
    requires
        call_ensures(SkegClient::get_reply, (frame,), r),
    ensures
        ({
            let p = frame.payload@;
            if frame.header.op == 0xC0 {
                if p.len() >= 4 && p.len() >= 4 + four(p, 0) {
                    r matches Ok(Some(v)) && v@ == p.subrange(4, 4 + four(p, 0))
                } else {
                    r matches Err(e) && undecodable(e)
                }
            } else if frame.header.op == 0xC1 && p.len() > 0 && p[0] == 1 {
                r matches Ok(None)
            } else {
                r matches Err(e) && refused(e, frame.header.op, p)
            }
        }),
{
    broadcast use lemma_four;

    if r is Err && frame.header.op != 0xC0 {
        lemma_refused(r->Err_0, frame);
    }
}

/// Every value whose length fits its field comes out of GET as it was sent, whatever follows it in
/// the frame.
pub proof fn law_get_value(
    frame: &Frame,
    r: Result<Option<Vec<u8>>, ClientError>,
    value: Seq<u8>,
)
    requires
        call_ensures(SkegClient::get_reply, (frame,), r),
        frame.header.op == 0xC0,
        frame.payload@.len() >= 4 + value.len(),
        four(frame.payload@, 0) == value.len(),
        frame.payload@.subrange(4, 4 + value.len() as int) == value,
    ensures
        r matches Ok(Some(v)) && v@ == value,
{
    law_get_outcome(frame, r);
}

/// DEL and VDEL say yes if an `Ok` reply begins with a byte other than zero, and no otherwise.
pub proof fn law_del_outcome(frame: &Frame, r: Result<bool, ClientError>)
    requires
        call_ensures(SkegClient::del_reply, (frame,), r),
    ensures
        ({
            let p = frame.payload@;
            if frame.header.op == 0xC0 {
                r matches Ok(existed) && (existed <==> p.len() > 0 && p[0] != 0)
            } else {
                r matches Err(e) && refused(e, frame.header.op, p)
            }
        }),
{
    if r is Err {
        lemma_refused(r->Err_0, frame);
    }
}

/// A native hello gives the two bytes of an `Ok` reply of two bytes, and calls any other `Ok` reply
/// a bad one.
pub proof fn law_native_hello_outcome(frame: &Frame, r: Result<NativeCapabilities, ClientError>)
    requires
        call_ensures(SkegClient::native_hello_reply, (frame,), r),
    ensures
        ({
            let p = frame.payload@;
            if frame.header.op != 0xC0 {
                r matches Err(e) && refused(e, frame.header.op, p)
            } else if p.len() != 2 {
                r matches Err(e) && e is BadNativeHello
            } else {
                &&& r matches Ok(caps)
                &&& caps.protocol_version == p[0]
                &&& caps.vector_kind_mask == p[1]
            }
        }),
{
    if r is Err && frame.header.op != 0xC0 {
        lemma_refused(r->Err_0, frame);
    }
}

/// VGET gives the vector of an `Ok` reply: one component for every four bytes of the value, each by
/// its bit pattern, in their order. `None` is the answer to an error frame whose code is 0x01, and
/// to nothing else.
pub proof fn law_vget_outcome(frame: &Frame, r: Result<Option<Vec<u32>>, ClientError>)
    requires
        call_ensures(SkegClient::vget_reply, (frame,), r),
    ensures
        ({
            let p = frame.payload@;
            if frame.header.op == 0xC0 {
                if p.len() >= 4 && p.len() >= 4 + four(p, 0) {
                    &&& r matches Ok(Some(v))
                    &&& v@.len() == four(p, 0) / 4
                    &&& forall|i: int| 0 <= i < v@.len() ==> #[trigger] v@[i] == four(p, 4 + 4 * i)
                } else {
                    r matches Err(e) && undecodable(e)
                }
            } else if frame.header.op == 0xC1 && p.len() > 0 && p[0] == 1 {
                r matches Ok(None)
            } else {
                r matches Err(e) && refused(e, frame.header.op, p)
            }
        }),
{
    broadcast use lemma_four;

    let p = frame.payload@;
    if r is Err && frame.header.op != 0xC0 {
        lemma_refused(r->Err_0, frame);
    }
    if frame.header.op == 0xC0 && p.len() >= 4 && p.len() >= 4 + four(p, 0) {
        let b = p.subrange(4, 4 + four(p, 0));
        assert(value_of(p) == Some(b));
        let v = vector_of(b);
        assert forall|i: int| 0 <= i < v.len() implies #[trigger] v[i] == four(p, 4 + 4 * i) by {
            lemma_four(b, 4 * i);
            assert(four(b, 4 * i) == four(p, 4 + 4 * i));
        }
    }
}

/// The number of rows of `row` bytes in a list: as many as its first four bytes announce, or as
/// many as there is room for if that is less.
pub open spec fn row_count(p: Seq<u8>, row: int) -> int {
    if p.len() < 4 {
        0
    } else if four(p, 0) <= (p.len() - 4) / row {
        four(p, 0)
    } else {
        (p.len() - 4) / row
    }
}

/// SHARDS gives the rows of an `Ok` reply in their order: 36 bytes each, the shard's number in four
/// and its counters in eight bytes each.
pub proof fn law_shards_outcome(frame: &Frame, r: Result<Vec<ShardStats>, ClientError>)
    requires
        call_ensures(SkegClient::shards_reply, (frame,), r),
    ensures
        frame.header.op != 0xC0 ==> (r matches Err(e) && refused(
            e,
            frame.header.op,
            frame.payload@,
        )),
        frame.header.op == 0xC0 ==> {
            let p = frame.payload@;
            &&& r matches Ok(list)
            &&& list@.len() == row_count(p, 36)
            &&& forall|i: int|
                0 <= i < list@.len() ==> {
                    &&& (#[trigger] list@[i]).shard_id == four(p, 4 + 36 * i)
                    &&& list@[i].cache_bytes == eight(p, 8 + 36 * i)
                    &&& list@[i].cache_evictions == eight(p, 16 + 36 * i)
                    &&& list@[i].n_keys == eight(p, 24 + 36 * i)
                    &&& list@[i].cache_budget == eight(p, 32 + 36 * i)
                }
        },
{
    broadcast use {lemma_four, lemma_eight};

    let p = frame.payload@;
    if r is Err && frame.header.op != 0xC0 {
        lemma_refused(r->Err_0, frame);
    }
    if frame.header.op == 0xC0 {
        let list = shards_of(p);
        assert forall|i: int| 0 <= i < list.len() implies {
            &&& (#[trigger] list[i]).shard_id == four(p, 4 + 36 * i)
            &&& list[i].cache_bytes == eight(p, 8 + 36 * i)
            &&& list[i].cache_evictions == eight(p, 16 + 36 * i)
            &&& list[i].n_keys == eight(p, 24 + 36 * i)
            &&& list[i].cache_budget == eight(p, 32 + 36 * i)
        } by {
            let room = p.len() - 4;
            assert(36 * (room / 36) <= room) by (nonlinear_arith);
            lemma_four(p, 4 + 36 * i);
            lemma_eight(p, 8 + 36 * i);
            lemma_eight(p, 16 + 36 * i);
            lemma_eight(p, 24 + 36 * i);
            lemma_eight(p, 32 + 36 * i);
        }
    }
}

/// VSEARCH gives the hits of an `Ok` reply in their order: 12 bytes each, the vector's id in eight
/// and the bit pattern of its score in four.
pub proof fn law_vsearch_outcome(frame: &Frame, r: Result<Vec<(u64, u32)>, ClientError>)
    requires
        call_ensures(SkegClient::vsearch_reply, (frame,), r),
    ensures
        frame.header.op != 0xC0 ==> (r matches Err(e) && refused(
            e,
            frame.header.op,
            frame.payload@,
        )),
        frame.header.op == 0xC0 ==> {
            let p = frame.payload@;
            &&& r matches Ok(list)
            &&& list@.len() == row_count(p, 12)
            &&& forall|i: int|
                0 <= i < list@.len() ==> {
                    &&& (#[trigger] list@[i]).0 == eight(p, 4 + 12 * i)
                    &&& list@[i].1 == four(p, 12 + 12 * i)
                }
        },
{
    broadcast use {lemma_four, lemma_eight};

    let p = frame.payload@;
    if r is Err && frame.header.op != 0xC0 {
        lemma_refused(r->Err_0, frame);
    }
    if frame.header.op == 0xC0 {
        let list = hits_of(p);
        assert forall|i: int| 0 <= i < list.len() implies {
            &&& (#[trigger] list[i]).0 == eight(p, 4 + 12 * i)
            &&& list[i].1 == four(p, 12 + 12 * i)
        } by {
            let room = p.len() - 4;
            assert(12 * (room / 12) <= room) by (nonlinear_arith);
            lemma_eight(p, 4 + 12 * i);
            lemma_four(p, 12 + 12 * i);
        }
    }
}

/// Where the entry at place `i` of an MGET reply begins. An entry is a zero byte, four bytes with
/// the value's length and the value, or a single byte other than zero.
pub open spec fn entry_start(p: Seq<u8>, i: int) -> int
    decreases i,
{
    if i <= 0 {
        4
    } else {
        let s = entry_start(p, i - 1);
        if p[s] != 0 {
            s + 1
        } else {
            s + 5 + four(p, s + 1)
        }
    }
}

/// The entry that begins at `s` is all there.
pub open spec fn entry_there(p: Seq<u8>, s: int) -> bool {
    s < p.len() && (p[s] != 0 || (s + 5 <= p.len() && s + 5 + four(p, s + 1) <= p.len()))
}

/// `v` is what the entry that begins at `s` holds.
pub open spec fn entry_holds(p: Seq<u8>, s: int, v: Option<Seq<u8>>) -> bool {
    if p[s] != 0 {
        v is None
    } else {
        v matches Some(b) && b == p.subrange(s + 5, s + 5 + four(p, s + 1))
    }
}

/// The entry at place `i` is all there and holds `v`.
pub open spec fn entry_ok(p: Seq<u8>, i: int, v: Option<Seq<u8>>) -> bool {
    entry_there(p, entry_start(p, i)) && entry_holds(p, entry_start(p, i), v)
}

/// `list` holds what the entries from place `done` on hold: `n` of them, or those before the first
/// that is not all there.
spec fn entries_from(p: Seq<u8>, done: int, n: nat, list: Seq<Option<Seq<u8>>>) -> bool {
    &&& list.len() <= n
    &&& forall|j: int| 0 <= j < list.len() ==> entry_ok(p, done + j, #[trigger] list[j])
    &&& list.len() < n ==> !entry_there(p, entry_start(p, done + list.len()))
}

proof fn lemma_entries(p: Seq<u8>, done: int, n: nat)
    requires
        0 <= done,
        4 <= entry_start(p, done) <= p.len(),
    ensures
        entries_from(p, done, n, mget_entries(n, p.skip(entry_start(p, done)))),
    decreases n,
{
    broadcast use lemma_four;

    let s = entry_start(p, done);
    let t = p.skip(s);
    let list = mget_entries(n, t);
    if n > 0 && t.len() > 0 {
        assert(t[0] == p[s]);
        if t[0] != 0 {
            assert(entry_start(p, done + 1) == s + 1);
            assert(t.skip(1) =~= p.skip(s + 1));
            lemma_entries(p, done + 1, (n - 1) as nat);
            let rest = mget_entries((n - 1) as nat, p.skip(s + 1));
            assert(list =~= seq![None::<Seq<u8>>] + rest);
            assert(done + list.len() == done + 1 + rest.len());
            assert forall|j: int| 0 <= j < list.len() implies entry_ok(
                p,
                done + j,
                #[trigger] list[j],
            ) by {
                if j > 0 {
                    assert(list[j] == rest[j - 1]);
                    assert(done + j == done + 1 + (j - 1));
                }
            }
        } else if t.len() >= 5 {
            lemma_four(t, 1);
            assert(four(t, 1) == four(p, s + 1));
            let len = four(p, s + 1);
            if t.len() >= 5 + len {
                assert(entry_start(p, done + 1) == s + 5 + len);
                assert(t.skip(5 + len) =~= p.skip(s + 5 + len));
                assert(t.subrange(5, 5 + len) =~= p.subrange(s + 5, s + 5 + len));
                lemma_entries(p, done + 1, (n - 1) as nat);
                let rest = mget_entries((n - 1) as nat, p.skip(s + 5 + len));
                assert(list =~= seq![Some(t.subrange(5, 5 + len))] + rest);
                assert(done + list.len() == done + 1 + rest.len());
                assert forall|j: int| 0 <= j < list.len() implies entry_ok(
                p,
                done + j,
                #[trigger] list[j],
            ) by {
                    if j > 0 {
                        assert(list[j] == rest[j - 1]);
                        assert(done + j == done + 1 + (j - 1));
                    }
                }
            } else {
                assert(list.len() == 0);
                assert(done + list.len() == done);
            }
        } else {
            assert(list.len() == 0);
            assert(done + list.len() == done);
        }
    } else {
        assert(list.len() == 0);
        assert(done + list.len() == done);
    }
}

/// The value of an entry as a byte sequence.
pub open spec fn bytes_of(v: Option<Vec<u8>>) -> Option<Seq<u8>> {
    match v {
        Some(b) => Some(b@),
        None => None,
    }
}

/// `list` holds the entries of an MGET reply in their order: all that are announced, or those
/// before the first that is not all there.
pub open spec fn lists_entries(list: Seq<Option<Vec<u8>>>, p: Seq<u8>) -> bool {
    &&& p.len() < 4 ==> list.len() == 0
    &&& p.len() >= 4 ==> {
        &&& list.len() <= four(p, 0)
        &&& forall|i: int|
            0 <= i < list.len() ==> entry_ok(p, i, bytes_of(#[trigger] list[i]))
        &&& list.len() < four(p, 0) ==> !entry_there(p, entry_start(p, list.len() as int))
    }
}

proof fn lemma_lists_entries(list: Seq<Option<Vec<u8>>>, p: Seq<u8>)
    requires
        values(list) == mget_of(p),
    ensures
        lists_entries(list, p),
{
    broadcast use lemma_four;

    let seen = values(list);
    assert(seen.len() == list.len());
    if p.len() >= 4 {
        lemma_four(p, 0);
        lemma_entries(p, 0, four(p, 0) as nat);
        assert forall|i: int| 0 <= i < list.len() implies entry_ok(
            p,
            i,
            bytes_of(#[trigger] list[i]),
        ) by {
            assert(seen[i] == bytes_of(list[i]));
            assert(0 + i == i);
        }
    }
}

/// MGET gives the entries of an `Ok` reply, found and missing, in their order.
pub proof fn law_mget_outcome(frame: &Frame, r: Result<Vec<Option<Vec<u8>>>, ClientError>)
    requires
        call_ensures(SkegClient::mget_reply, (frame,), r),
    ensures
        frame.header.op != 0xC0 ==> (r matches Err(e) && refused(
            e,
            frame.header.op,
            frame.payload@,
        )),
        frame.header.op == 0xC0 ==> (r matches Ok(list) && lists_entries(list@, frame.payload@)),
{
    if frame.header.op != 0xC0 {
        lemma_refused(r->Err_0, frame);
    } else {
        lemma_lists_entries(r->Ok_0@, frame.payload@);
    }
}

/// MGET for a number of keys gives the entries of an `Ok` reply exactly if there are as many as
/// keys: it agrees there with the reading that knows of no keys, and calls any other count
/// undecodable.
pub proof fn law_mget_for_outcome(
    frame: &Frame,
    n_keys: usize,
    any: Result<Vec<Option<Vec<u8>>>, ClientError>,
    r: Result<Vec<Option<Vec<u8>>>, ClientError>,
)
    requires
        call_ensures(SkegClient::mget_reply, (frame,), any),
        call_ensures(SkegClient::mget_reply_for, (frame, n_keys), r),
    ensures
        frame.header.op != 0xC0 ==> (r matches Err(e) && refused(
            e,
            frame.header.op,
            frame.payload@,
        )),
        frame.header.op == 0xC0 ==> {
            &&& any matches Ok(all)
            &&& all@.len() == n_keys ==> {
                &&& r matches Ok(list)
                &&& list@.len() == n_keys
                &&& lists_entries(list@, frame.payload@)
            }
            &&& all@.len() != n_keys ==> (r matches Err(e) && undecodable(e))
        },
{
    if frame.header.op != 0xC0 {
        lemma_refused(r->Err_0, frame);
    } else {
        assert(values(any->Ok_0@).len() == any->Ok_0@.len());
        if r is Ok {
            assert(values(r->Ok_0@).len() == r->Ok_0@.len());
            lemma_lists_entries(r->Ok_0@, frame.payload@);
        }
    }
}

/// Where the row at place `i` of a list of vector indexes begins: a row is two bytes with the
/// name's length, the name and 14 bytes more.
pub open spec fn row_start(p: Seq<u8>, i: int) -> int
    decreases i,
{
    if i <= 0 {
        4
    } else {
        row_start(p, i - 1) + 16 + two(p, row_start(p, i - 1))
    }
}

/// The row that begins at `s` is all there.
pub open spec fn row_there(p: Seq<u8>, s: int) -> bool {
    s + 2 <= p.len() && s + 16 + two(p, s) <= p.len()
}

/// The fields are those of the row that begins at `s`.
pub open spec fn row_holds(
    p: Seq<u8>,
    s: int,
    name: Seq<char>,
    dim: u32,
    kind: u8,
    backend: u8,
    n_vectors: u64,
) -> bool {
    let end = s + 2 + two(p, s);
    &&& says(name, p.subrange(s + 2, end))
    &&& dim == four(p, end)
    &&& kind == p[end + 4]
    &&& backend == p[end + 5]
    &&& n_vectors == eight(p, end + 6)
}

/// The row at place `i` is all there and has the fields of `row`.
spec fn row_ok(p: Seq<u8>, i: int, row: VindexRow) -> bool {
    row_there(p, row_start(p, i)) && row_is(p, row_start(p, i), row)
}

/// `list` holds the rows from place `done` on: `n` of them, or those before the first that is not
/// all there.
spec fn rows_from(p: Seq<u8>, done: int, n: nat, list: Seq<VindexRow>) -> bool {
    &&& list.len() <= n
    &&& forall|j: int| 0 <= j < list.len() ==> row_ok(p, done + j, #[trigger] list[j])
    &&& list.len() < n ==> !row_there(p, row_start(p, done + list.len()))
}

proof fn lemma_rows(p: Seq<u8>, done: int, n: nat)
    requires
        0 <= done,
        4 <= row_start(p, done) <= p.len(),
    ensures
        rows_from(p, done, n, vindex_rows(n, p.skip(row_start(p, done)))),
    decreases n,
{
    let s = row_start(p, done);
    let t = p.skip(s);
    let list = vindex_rows(n, t);
    if n > 0 && t.len() >= 2 {
        lemma_two(t, 0);
        assert(two(t, 0) == two(p, s));
        let len = two(p, s);
        if t.len() >= 16 + len {
            let end = 2 + len;
            assert(row_start(p, done + 1) == s + 16 + len);
            assert(t.skip(end + 14) =~= p.skip(s + 16 + len));
            assert(t.subrange(2, end) =~= p.subrange(s + 2, s + end));
            lemma_four(t, end);
            assert(four(t, end) == four(p, s + end));
            lemma_eight(t, end + 6);
            assert(eight(t, end + 6) == eight(p, s + end + 6));
            lemma_rows(p, done + 1, (n - 1) as nat);
            let rest = vindex_rows((n - 1) as nat, p.skip(s + 16 + len));
            assert(list.skip(1) =~= rest);
            assert(done + list.len() == done + 1 + rest.len());
            assert(row_is(p, s, list[0]));
            assert forall|j: int| 0 <= j < list.len() implies row_ok(
                p,
                done + j,
                #[trigger] list[j],
            ) by {
                if j > 0 {
                    assert(list[j] == rest[j - 1]);
                    assert(done + j == done + 1 + (j - 1));
                }
            }
        } else {
            assert(list.len() == 0);
            assert(done + list.len() == done);
        }
    } else {
        assert(list.len() == 0);
        assert(done + list.len() == done);
    }
}

/// `row` has the fields of the row that begins at `s`.
pub open spec fn row_is(p: Seq<u8>, s: int, row: VindexRow) -> bool {
    row_holds(p, s, row.name, row.dim, row.kind, row.backend, row.n_vectors)
}

/// The row at place `i` is all there and has the fields of `info`.
pub open spec fn info_ok(p: Seq<u8>, i: int, info: VindexInfo) -> bool {
    let s = row_start(p, i);
    &&& row_there(p, s)
    &&& row_holds(p, s, info.name@, info.dim, info.kind, info.backend, info.n_vectors)
}

/// VINDEX LIST gives the rows of an `Ok` reply in their order, each field from its bytes: all that
/// are announced, or those before the first that is not all there.
pub proof fn law_vindex_list_outcome(frame: &Frame, r: Result<Vec<VindexInfo>, ClientError>)
    requires
        call_ensures(SkegClient::vindex_list_reply, (frame,), r),
    ensures
        frame.header.op != 0xC0 ==> (r matches Err(e) && refused(
            e,
            frame.header.op,
            frame.payload@,
        )),
        frame.header.op == 0xC0 ==> {
            let p = frame.payload@;
            &&& r matches Ok(list)
            &&& p.len() < 4 ==> list@.len() == 0
            &&& p.len() >= 4 ==> {
                &&& list@.len() <= four(p, 0)
                &&& forall|i: int|
                    0 <= i < list@.len() ==> info_ok(p, i, #[trigger] list@[i])
                &&& list@.len() < four(p, 0) ==> !row_there(p, row_start(p, list@.len() as int))
            }
        },
{
    let p = frame.payload@;
    if frame.header.op != 0xC0 {
        lemma_refused(r->Err_0, frame);
    } else {
        let list = r->Ok_0@;
        let seen = rows(list);
        assert(seen.len() == list.len());
        if p.len() >= 4 {
            lemma_four(p, 0);
            lemma_rows(p, 0, four(p, 0) as nat);
            assert(row_start(p, 0) == 4);
            assert(seen == vindex_rows(four(p, 0) as nat, p.skip(4)));
            assert(0 + seen.len() == list.len());
            assert forall|i: int| 0 <= i < list.len() implies info_ok(p, i, #[trigger] list[i]) by {
                assert(seen[i] == list[i]@);
                assert(0 + i == i);
            }
        }
    }
}

}

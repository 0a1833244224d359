//! What holds of a connection over its whole life.
use vstd::prelude::*;

use crate::client::{
    after_recv, after_request, fresh_session, is_request, recv_result, Request, Session,
};
use crate::error::{ClientError, ParseError};
use crate::frame::{
    blank_reserved, frame_of, lemma_parse_cut, lemma_parse_stable, parse, sendable, Frame,
    FrameView, Parsed, HEADER_LEN, MAX_FRAME_SIZE,
};
use crate::laws::request::law_request_frame;

verus! {

/// Something that happens on a connection.
pub enum Event {
    /// A request is made.
    Made,
    /// A look for a reply is taken.
    Looked,
    /// Bytes arrive.
    Arrived(Seq<u8>),
}

/// The session after one event.
pub open spec fn step(s: Session, e: Event) -> Session {
    match e {
        Event::Made => after_request(s),
        Event::Looked => after_recv(s),
        Event::Arrived(chunk) => Session { unread: s.unread + chunk, ..s },
    }
}

/// The session after a run of events.
pub open spec fn run(s: Session, events: Seq<Event>) -> Session
    decreases events.len(),
{
    if events.len() == 0 {
        s
    } else {
        step(run(s, events.drop_last()), events.last())
    }
}

/// The number of requests in a run of events.
pub open spec fn requests(events: Seq<Event>) -> nat
    decreases events.len(),
{
    if events.len() == 0 {
        0
    } else {
        requests(events.drop_last()) + (if events.last() is Made {
            1nat
        } else {
            0
        })
    }
}

/// Whatever happens on a connection, it keeps speaking one version, and each request uses up one
/// id.
pub proof fn law_session(pre: Session, events: Seq<Event>)
    requires
        pre.next_req_id + requests(events) <= u64::MAX,
    ensures
        run(pre, events).version == pre.version,
        run(pre, events).next_req_id == pre.next_req_id + requests(events),
    decreases events.len(),
{
    if events.len() > 0 {
        law_session(pre, events.drop_last());
    }
}

proof fn lemma_requests_grow(events: Seq<Event>, n: int)
    requires
        0 <= n <= events.len(),
    ensures
        requests(events.take(n)) <= requests(events),
    decreases events.len() - n,
{
    if n < events.len() {
        assert(events.take(n + 1).drop_last() =~= events.take(n));
        lemma_requests_grow(events, n + 1);
    } else {
        assert(events.take(n) =~= events);
    }
}

/// No two requests on a connection carry the same id: of two requests, whatever happens between
/// them, the later one has the greater id.
pub proof fn law_ids_increase(pre: Session, events: Seq<Event>, first: int, second: int)
    requires
        pre.next_req_id + requests(events) <= u64::MAX,
        0 <= first < second < events.len(),
        events[first] is Made,
        events[second] is Made,
    ensures
        run(pre, events.take(first)).next_req_id < run(pre, events.take(second)).next_req_id,
{
    lemma_requests_grow(events, first);
    lemma_requests_grow(events, second);
    law_session(pre, events.take(first));
    law_session(pre, events.take(second));
    let upto = events.take(second);
    lemma_requests_grow(upto, first + 1);
    assert(upto.take(first + 1).drop_last() =~= events.take(first));
}

/// The requests of a connection carry the ids 1, 2, 3 and so on, whatever happens between them: a
/// request's id is its place among the connection's requests.
pub proof fn law_ids_count(version: u8, events: Seq<Event>, at: int)
    requires
        requests(events) < u64::MAX,
        0 <= at < events.len(),
        events[at] is Made,
    ensures
        run(fresh_session(version), events.take(at)).next_req_id == requests(events.take(at + 1)),
        requests(events.take(at + 1)) == requests(events.take(at)) + 1,
{
    lemma_requests_grow(events, at);
    law_session(fresh_session(version), events.take(at));
    assert(events.take(at + 1).drop_last() =~= events.take(at));
}

/// A frame is handed out only as the reply to the request that was asked about, in the
/// connection's version, and within the protocol's size limit.
pub proof fn law_accepted(pre: Session, expected_id: u64, frame: Frame)
    requires
        recv_result(pre, expected_id, Ok(Some(frame))),
    ensures
        frame@.header.version == pre.version,
        frame@.header.req_id == expected_id,
        frame@.payload.len() == frame@.header.payload_len,
        frame@.payload.len() <= MAX_FRAME_SIZE,
{
}

/// A whole frame in another version than the connection's is answered by `VersionMismatch`,
/// whatever else it holds; one in its version that answers another request by `ReqIdMismatch`.
/// Either is gone from the unread bytes.
pub proof fn law_rejected(
    pre: Session,
    expected_id: u64,
    f: FrameView,
    r: Result<Option<Frame>, ClientError>,
)
    requires
        parse(pre.unread) == Parsed::Whole(f),
        f.header.version != pre.version || f.header.req_id != expected_id,
        recv_result(pre, expected_id, r),
    ensures
        f.header.version != pre.version ==> r == Err::<Option<Frame>, ClientError>(
            ClientError::VersionMismatch { sent: pre.version, got: f.header.version },
        ),
        f.header.version == pre.version ==> r == Err::<Option<Frame>, ClientError>(
            ClientError::ReqIdMismatch { sent: expected_id, got: f.header.req_id },
        ),
        after_recv(pre).unread == pre.unread.skip(HEADER_LEN + f.payload.len()),
{
}

/// A fault in the stream stays: however often one looks and whatever arrives, it is reported
/// again.
pub proof fn law_fault_stays(pre: Session, e: ParseError, more: Seq<Seq<u8>>)
    requires
        parse(pre.unread) == Parsed::Fault(e),
    ensures
        parse(run(pre, reads(more)).unread) == Parsed::Fault(e),
    decreases more.len(),
{
    if more.len() > 0 {
        let before = run(pre, reads(more.drop_last()));
        law_fault_stays(pre, e, more.drop_last());
        lemma_reads_step(pre, more);
        lemma_parse_stable(before.unread, more.last());
        lemma_parse_stable(before.unread + more.last(), Seq::empty());
        assert(blank_reserved(before.unread + more.last()) + Seq::<u8>::empty() =~= blank_reserved(
            before.unread + more.last(),
        ));
        assert(before.unread + more.last() + Seq::<u8>::empty() =~= before.unread + more.last());
    }
}

/// The events of reads from the socket: each brings a chunk, and after each one looks.
pub open spec fn reads(chunks: Seq<Seq<u8>>) -> Seq<Event>
    decreases chunks.len(),
{
    if chunks.len() == 0 {
        Seq::empty()
    } else {
        reads(chunks.drop_last()).push(Event::Arrived(chunks.last())).push(Event::Looked)
    }
}

/// The bytes of chunks that arrived one after another.
pub open spec fn joined(chunks: Seq<Seq<u8>>) -> Seq<u8>
    decreases chunks.len(),
{
    if chunks.len() == 0 {
        Seq::empty()
    } else {
        joined(chunks.drop_last()) + chunks.last()
    }
}

proof fn lemma_reads_step(pre: Session, chunks: Seq<Seq<u8>>)
    requires
        chunks.len() > 0,
    ensures
        run(pre, reads(chunks)) == after_recv(
            step(run(pre, reads(chunks.drop_last())), Event::Arrived(chunks.last())),
        ),
{
    reveal_with_fuel(run, 3);
    let before = reads(chunks.drop_last());
    let arrived = before.push(Event::Arrived(chunks.last()));
    assert(arrived.push(Event::Looked).drop_last() =~= arrived);
    assert(arrived.drop_last() =~= before);
}

/// A session on which nothing has been looked at since bytes arrived in one piece.
pub open spec fn at_once(pre: Session, bytes: Seq<u8>) -> Session {
    Session { unread: pre.unread + bytes, ..pre }
}

/// Looks differ in nothing between bytes and the same bytes with a blank reserved field.
proof fn lemma_same_look(pre: Session, s: Seq<u8>, more: Seq<u8>)
    ensures
        parse(blank_reserved(s) + more) == parse(s + more),
        after_recv(Session { unread: blank_reserved(s) + more, ..pre }) == after_recv(
            Session { unread: s + more, ..pre },
        ),
{
    lemma_parse_stable(s, more);
    match parse(s + more) {
        Parsed::Whole(f) => {
            let end = HEADER_LEN + f.payload.len();
            assert((blank_reserved(s) + more).skip(end) =~= (s + more).skip(end));
        },
        _ => {},
    }
}

/// While no frame is there, reads gather their bytes: a session that looked after each of them
/// behaves from then on as one that got them in one piece.
proof fn lemma_reads_gather(pre: Session, chunks: Seq<Seq<u8>>, more: Seq<u8>)
    requires
        parse(pre.unread + joined(chunks)) is Incomplete,
    ensures
        ({
            let there = step(run(pre, reads(chunks)), Event::Arrived(more));
            &&& parse(run(pre, reads(chunks)).unread) is Incomplete
            &&& parse(there.unread) == parse(pre.unread + joined(chunks) + more)
            &&& after_recv(there) == after_recv(at_once(pre, joined(chunks) + more))
            &&& there == (Session { unread: there.unread, ..pre })
        }),
    decreases chunks.len(),
{
    let all = pre.unread + joined(chunks);
    assert(all + more =~= pre.unread + (joined(chunks) + more));
    if chunks.len() == 0 {
        assert(all =~= pre.unread);
    } else {
        let some = pre.unread + joined(chunks.drop_last());
        assert(all =~= some + chunks.last());
        lemma_parse_stable(some, chunks.last());
        lemma_reads_gather(pre, chunks.drop_last(), chunks.last());
        lemma_reads_step(pre, chunks);
        assert(at_once(pre, joined(chunks)).unread =~= all);
        assert(run(pre, reads(chunks)) == (Session { unread: blank_reserved(all), ..pre }));
        lemma_same_look(pre, all, more);
        lemma_same_look(pre, all, Seq::empty());
        assert(blank_reserved(all) + Seq::<u8>::empty() =~= blank_reserved(all));
        assert(all + Seq::<u8>::empty() =~= all);
    }
}

/// No frame is seen until its last byte is there.
pub proof fn law_last_byte(pre: Session, f: FrameView, n: int)
    requires
        parse(pre.unread) == Parsed::Whole(f),
        0 <= n < HEADER_LEN + f.payload.len(),
    ensures
        parse(pre.unread.take(n)) is Incomplete,
{
    lemma_parse_cut(pre.unread, f, n);
}

/// A look gives what it would give, had the bytes come in one piece: however they are cut into
/// reads, as long as no frame was there before the last of them, the outcome of the look is the
/// same, be it a frame, a fault or the need of more bytes, and so is the session after it.
pub proof fn law_any_cut(pre: Session, chunks: Seq<Seq<u8>>, last: Seq<u8>)
    requires
        parse(pre.unread + joined(chunks)) is Incomplete,
    ensures
        ({
            let seen = run(pre, reads(chunks));
            let there = step(seen, Event::Arrived(last));
            let whole = at_once(pre, joined(chunks) + last);
            &&& parse(seen.unread) is Incomplete
            &&& step(there, Event::Looked) == step(whole, Event::Looked)
            &&& forall|id: u64, r: Result<Option<Frame>, ClientError>|
                recv_result(there, id, r) == recv_result(whole, id, r)
        }),
{
    lemma_reads_gather(pre, chunks, last);
    assert(pre.unread + joined(chunks) + last =~= pre.unread + (joined(chunks) + last));
}

/// The frames that a session hands out, one look after another until a look finds none, and the
/// session after these looks.
pub open spec fn looked_out(s: Session) -> (Seq<FrameView>, Session)
    decreases s.unread.len(),
{
    match parse(s.unread) {
        Parsed::Whole(f) => {
            let (more, end) = looked_out(step(s, Event::Looked));
            (seq![f] + more, end)
        },
        _ => (Seq::empty(), step(s, Event::Looked)),
    }
}

/// The frames that a session hands out, and the session after them, where one looks until there is
/// no frame left at the start and after each read.
pub open spec fn read_out(pre: Session, chunks: Seq<Seq<u8>>) -> (Seq<FrameView>, Session)
    decreases chunks.len(),
{
    if chunks.len() == 0 {
        looked_out(pre)
    } else {
        let (frames, s) = read_out(pre, chunks.drop_last());
        let (more, end) = looked_out(step(s, Event::Arrived(chunks.last())));
        (frames + more, end)
    }
}

/// Looking out what is there and then what arrives is looking out both.
proof fn lemma_looked_out_split(s: Session, more: Seq<u8>)
    ensures
        ({
            let (frames, left) = looked_out(s);
            let (later, end) = looked_out(step(left, Event::Arrived(more)));
            looked_out(at_once(s, more)) == (frames + later, end)
        }),
    decreases s.unread.len(),
{
    let (frames, left) = looked_out(s);
    let (later, end) = looked_out(step(left, Event::Arrived(more)));
    lemma_parse_stable(s.unread, more);
    match parse(s.unread) {
        Parsed::Whole(f) => {
            let n = HEADER_LEN + f.payload.len();
            let next = step(s, Event::Looked);
            lemma_looked_out_split(next, more);
            assert((s.unread + more).skip(n) =~= s.unread.skip(n) + more);
            assert(step(at_once(s, more), Event::Looked) == at_once(next, more));
            let rest = looked_out(next).0;
            assert(seq![f] + (rest + later) =~= frames + later);
        },
        _ => {
            lemma_same_look(s, s.unread, more);
            assert(frames + later =~= later);
            assert(looked_out(at_once(s, more)) == (later, end));
        },
    }
}

/// Reading out chunk by chunk is reading out all of them at once.
proof fn lemma_read_out(pre: Session, chunks: Seq<Seq<u8>>)
    ensures
        read_out(pre, chunks) == looked_out(at_once(pre, joined(chunks))),
    decreases chunks.len(),
{
    if chunks.len() == 0 {
        assert(pre.unread + joined(chunks) =~= pre.unread);
    } else {
        lemma_read_out(pre, chunks.drop_last());
        lemma_looked_out_split(at_once(pre, joined(chunks.drop_last())), chunks.last());
        assert(at_once(at_once(pre, joined(chunks.drop_last())), chunks.last()) =~= at_once(
            pre,
            joined(chunks),
        ));
    }
}

/// The frames that come out of a byte stream do not depend on how it was cut into reads. On every
/// session, two cuts of the same bytes give the same frames in the same order and leave the same
/// session, whatever the bytes are.
pub proof fn law_stream(pre: Session, chunks: Seq<Seq<u8>>, others: Seq<Seq<u8>>)
    requires
        joined(chunks) == joined(others),
    ensures
        read_out(pre, chunks) == read_out(pre, others),
{
    lemma_read_out(pre, chunks);
    lemma_read_out(pre, others);
}

/// A call is one round trip. The request is one whole frame, if the protocol has frames of its
/// version and size. Where what is unread and what arrives afterwards begin with a frame in the
/// connection's version that carries the request's id, that frame is handed out, however its bytes
/// are cut into reads, and the connection is ready for the next call with what follows the frame.
pub proof fn law_round_trip(
    pre: Session,
    made: Request,
    op: u8,
    flags: u32,
    payload: Seq<u8>,
    chunks: Seq<Seq<u8>>,
    last: Seq<u8>,
    reply: FrameView,
)
    requires
        pre.next_req_id < u64::MAX,
        is_request(made, pre, op, flags, payload),
        parse(pre.unread + joined(chunks)) is Incomplete,
        parse(pre.unread + joined(chunks) + last) == Parsed::Whole(reply),
        reply.header.version == pre.version,
        reply.header.req_id == made.id,
    ensures
        sendable(pre.version, op, flags, payload) ==> parse(made.frame@) == Parsed::Whole(
            frame_of(pre.version, op, flags, made.id, payload),
        ),
        ({
            let sent = step(pre, Event::Made);
            let there = step(run(sent, reads(chunks)), Event::Arrived(last));
            &&& parse(run(sent, reads(chunks)).unread) is Incomplete
            &&& forall|r: Result<Option<Frame>, ClientError>| #[trigger]
                recv_result(there, made.id, r) ==> {
                    &&& r matches Ok(Some(frame))
                    &&& frame@ == reply
                }
            &&& step(there, Event::Looked) == (Session {
                next_req_id: (pre.next_req_id + 1) as u64,
                unread: (pre.unread + joined(chunks) + last).skip(
                    HEADER_LEN + reply.payload.len(),
                ),
                ..pre
            })
        }),
{
    if sendable(pre.version, op, flags, payload) {
        law_request_frame(made, pre, op, flags, payload);
    }
    law_any_cut(step(pre, Event::Made), chunks, last);
    assert(pre.unread + joined(chunks) + last =~= pre.unread + (joined(chunks) + last));
}

}

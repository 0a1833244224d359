//! What a connection does with what it is given, byte by byte: its start, its ids, the bytes that
//! arrive and the frames that it finds in them.
use vstd::prelude::*;

use crate::client::SkegClient;
use crate::error::{ClientError, ParseError};
use crate::frame::Frame;
use crate::laws::digits::{eight, four, lemma_eight, lemma_four, lemma_two, two};
use crate::laws::sent::one_id_used;
use crate::wire::lemma_le_len;

verus! {

/// A fresh connection speaks v1, its first request will have id 1, and nothing has arrived.
pub proof fn law_connect(c: SkegClient)
    requires
        call_ensures(SkegClient::connect, (), c),
    ensures
        c@.version == 1,
        c@.next_req_id == 1,
        c@.unread.len() == 0,
{
}

/// A fresh connection speaks the version that was asked for, whichever it is; its first request
/// will have id 1, and nothing has arrived.
pub proof fn law_connect_with_version(version: u8, c: SkegClient)
    requires
        call_ensures(SkegClient::connect_with_version, (version,), c),
    ensures
        c@.version == version,
        c@.next_req_id == 1,
        c@.unread.len() == 0,
{
}

/// The version and the next id that a client tells are those of its session.
pub proof fn law_told(c: &SkegClient, version: u8, id: u64)
    requires
        call_ensures(SkegClient::version, (c,), version),
        call_ensures(SkegClient::next_req_id, (c,), id),
    ensures
        version == c@.version,
        id == c@.next_req_id,
{
}

/// Drawing an id gives the next one and uses it up.
pub proof fn law_next_id(c: &mut SkegClient, id: u64)
    requires
        old(c)@.next_req_id < u64::MAX,
        call_ensures(SkegClient::next_id, (c,), id),
    ensures
        id == old(c)@.next_req_id,
        one_id_used(old(c)@, final(c)@),
{
}

/// Stamping puts the connection's version in the third byte of a frame that was encoded for v1, and
/// changes no other byte; on a v1 connection it changes nothing.
pub proof fn law_stamp(c: &SkegClient, frame: Vec<u8>, stamped: Vec<u8>)
    requires
        c@.version != 1 ==> frame@.len() >= 3,
        call_ensures(SkegClient::stamp_version, (c, frame), stamped),
    ensures
        stamped@.len() == frame@.len(),
        forall|i: int| 0 <= i < frame@.len() && i != 2 ==> stamped@[i] == frame@[i],
        c@.version != 1 ==> stamped@[2] == c@.version,
        frame@.len() >= 3 && frame@[2] == 1 ==> stamped@[2] == c@.version,
        c@.version == 1 ==> stamped@ == frame@,
{
}

/// What arrives goes behind what is unread, and nothing else changes. No bytes are the end of the
/// stream, and only they are.
pub proof fn law_received(c: &mut SkegClient, chunk: &[u8], r: Result<(), ClientError>)
    requires
        call_ensures(SkegClient::received, (c, chunk), r),
    ensures
        final(c)@.version == old(c)@.version,
        final(c)@.next_req_id == old(c)@.next_req_id,
        final(c)@.unread == old(c)@.unread + chunk@,
        chunk@.len() == 0 ==> r == Err::<(), ClientError>(ClientError::ConnectionClosed),
        chunk@.len() > 0 ==> r is Ok,
{
}

/// The op bytes that a frame may have.
pub open spec fn op_exists(op: u8) -> bool {
    ||| 1 <= op <= 7
    ||| 16 <= op <= 22
    ||| 128 <= op <= 132
    ||| 192 <= op <= 194
}

/// The 24 bytes at the front of `u` are a header that a frame may have.
pub open spec fn sound_header(u: Seq<u8>) -> bool {
    &&& u.len() >= 24
    &&& u[0] == 0x4B
    &&& u[1] == 0x56
    &&& u[2] == 1 || u[2] == 2
    &&& op_exists(u[3])
    &&& four(u, 4) <= 255
    &&& four(u, 16) <= 0x100_0000
}

/// A look asks for more bytes exactly as long as there is no whole header, or a sound one whose
/// payload is not all there. What is unread stays, but for the reserved field of the header.
pub proof fn law_look_waits(
    c: &mut SkegClient,
    expected_id: u64,
    r: Result<Option<Frame>, ClientError>,
)
    requires
        call_ensures(SkegClient::recv_frame, (c, expected_id), r),
    ensures
        (r matches Ok(None)) <==> {
            let u = old(c)@.unread;
            u.len() < 24 || (sound_header(u) && u.len() < 24 + four(u, 16))
        },
        final(c)@.version == old(c)@.version,
        final(c)@.next_req_id == old(c)@.next_req_id,
        (r matches Ok(None)) ==> {
            let u = old(c)@.unread;
            let left = final(c)@.unread;
            &&& left.len() == u.len()
            &&& forall|i: int| 0 <= i < u.len() && !(20 <= i < 24) ==> left[i] == u[i]
            &&& u.len() < 24 ==> left == u
        },
{
    broadcast use {lemma_two, lemma_four, lemma_eight};

    lemma_le_len(4, 0);
    let u = old(c)@.unread;
    if u.len() >= 24 {
        assert(u[0] == 0x4B && u[1] == 0x56 <==> two(u, 0) == 0x564B);
    }
}

/// A look hands out a frame exactly where a sound header in the connection's version and with the
/// expected id is there with its whole payload. The frame is those bytes, field by field, and they
/// are gone from what is unread.
pub proof fn law_look_finds(
    c: &mut SkegClient,
    expected_id: u64,
    r: Result<Option<Frame>, ClientError>,
)
    requires
        call_ensures(SkegClient::recv_frame, (c, expected_id), r),
    ensures
        (r matches Ok(Some(_))) <==> {
            let u = old(c)@.unread;
            &&& sound_header(u)
            &&& u.len() >= 24 + four(u, 16)
            &&& u[2] == old(c)@.version
            &&& eight(u, 8) == expected_id
        },
        r matches Ok(Some(frame)) ==> {
            let u = old(c)@.unread;
            let n = four(u, 16);
            &&& frame.header.version == u[2]
            &&& frame.header.op == u[3]
            &&& frame.header.flags == four(u, 4)
            &&& frame.header.req_id == expected_id
            &&& frame.header.payload_len == n
            &&& frame.payload@ == u.subrange(24, 24 + n)
            &&& final(c)@.unread == u.skip(24 + n)
        },
{
    broadcast use {lemma_two, lemma_four, lemma_eight};

    let u = old(c)@.unread;
    if u.len() >= 24 {
        assert(u[0] == 0x4B && u[1] == 0x56 <==> two(u, 0) == 0x564B);
    }
}

/// A whole frame that is not the reply is rejected and gone from what is unread: one in another
/// version than the connection's by `VersionMismatch`, whatever its id is, and one in its version
/// with another id by `ReqIdMismatch`.
pub proof fn law_look_rejects(
    c: &mut SkegClient,
    expected_id: u64,
    r: Result<Option<Frame>, ClientError>,
)
    requires
        call_ensures(SkegClient::recv_frame, (c, expected_id), r),
        sound_header(old(c)@.unread),
        old(c)@.unread.len() >= 24 + four(old(c)@.unread, 16),
        old(c)@.unread[2] != old(c)@.version || eight(old(c)@.unread, 8) != expected_id,
    ensures
        final(c)@.unread == old(c)@.unread.skip(24 + four(old(c)@.unread, 16)),
        old(c)@.unread[2] != old(c)@.version ==> {
            &&& r matches Err(ClientError::VersionMismatch { sent, got })
            &&& sent == old(c)@.version
            &&& got == old(c)@.unread[2]
        },
        old(c)@.unread[2] == old(c)@.version ==> {
            &&& r matches Err(ClientError::ReqIdMismatch { sent, got })
            &&& sent == expected_id
            &&& got == eight(old(c)@.unread, 8)
        },
{
    broadcast use {lemma_two, lemma_four, lemma_eight};

    assert(two(old(c)@.unread, 0) == 0x564B);
}

/// A header that no frame may have is reported by the first of its fields that is wrong, as soon as
/// it is there: magic, version, op, flags, length.
pub proof fn law_look_faults(
    c: &mut SkegClient,
    expected_id: u64,
    r: Result<Option<Frame>, ClientError>,
)
    requires
        call_ensures(SkegClient::recv_frame, (c, expected_id), r),
        old(c)@.unread.len() >= 24,
        !sound_header(old(c)@.unread),
    ensures
        r matches Err(ClientError::Protocol(e)) && {
            let u = old(c)@.unread;
            if u[0] != 0x4B || u[1] != 0x56 {
                &&& e matches ParseError::InvalidMagic { expected, got }
                &&& expected == 0x564B
                &&& got == two(u, 0)
            } else if u[2] != 1 && u[2] != 2 {
                e matches ParseError::InvalidVersion { got } && got == u[2]
            } else if !op_exists(u[3]) {
                e matches ParseError::UnknownOp { got } && got == u[3]
            } else if four(u, 4) > 255 {
                e matches ParseError::InvalidFlags { bits } && bits == four(u, 4)
            } else {
                &&& e matches ParseError::FrameTooLarge { len, max }
                &&& len == four(u, 16)
                &&& max == 0x100_0000
            }
        },
        final(c)@.unread.len() == old(c)@.unread.len(),
        forall|i: int|
            0 <= i < old(c)@.unread.len() && !(20 <= i < 24) ==> final(c)@.unread[i] == old(
                c,
            )@.unread[i],
{
    broadcast use {lemma_two, lemma_four, lemma_eight};

    lemma_le_len(4, 0);
    let u = old(c)@.unread;
    assert(u[0] == 0x4B && u[1] == 0x56 <==> two(u, 0) == 0x564B);
}

}

//! One connection to a server, without its socket.
use vstd::prelude::*;
use vstd::utf8::encode_utf8;

use crate::error::ClientError;
use crate::frame::{
    blank_reserved, frame_bytes, lemma_blank_split, lemma_frame_len, lemma_frame_restamped,
    lemma_parse_stable, parse, Frame, Parsed, FLAGS_NONE, FLAG_NO_REPLY, HEADER_LEN,
    MAX_FRAME_SIZE, OP_DEL, OP_GET, OP_MGET, OP_NATIVE_HELLO, OP_PING, OP_SET, OP_SHARDS, OP_STATS,
    OP_VDEL, OP_VGET, OP_VINDEX_CREATE, OP_VINDEX_DROP, OP_VINDEX_LIST, OP_VSEARCH, OP_VSET,
    PROTOCOL_V1, PROTOCOL_V2,
};
use crate::kind::{VectorBackend, VectorKind, VectorKindV2};
use crate::proto::{
    buffer_extend, buffer_with_capacity, contents, encode_del, encode_get, encode_mget,
    encode_native_hello, encode_ping, encode_set, encode_shards, encode_stats, encode_vdel,
    encode_vget, encode_vindex_create, encode_vindex_drop, encode_vindex_list, encode_vsearch,
    encode_vset, held, parser_feed, parser_new,
};
use crate::request::{
    component_bytes, fits, mget_payload, set_payload, short_bytes, slices, vector_ref,
    vindex_create_payload, vsearch_payload, vset_payload,
};

verus! {

/// A request that is ready to be written to the socket, and the id that its reply will carry.
#[derive(Debug)]
pub struct Request {
    pub id: u64,
    pub frame: Vec<u8>,
}

/// The state of one connection: everything but the socket. Each call of the protocol is a method
/// that makes the request frame, [`recv_frame`](Self::recv_frame) and
/// [`received`](Self::received) in turn until the reply frame is there, and an associated
/// function that reads it.
pub struct SkegClient {
    parser: skeg_proto::FrameParser,
    read_buf: bytes::BytesMut,
    next_req_id: u64,
    version: u8,
}

/// The state of a connection as a mathematical value.
#[verifier::ext_equal]
pub struct Session {
    /// The protocol version of every frame, sent and received.
    pub version: u8,
    /// The id of the next request.
    pub next_req_id: u64,
    /// The bytes that arrived and were not handed out in a frame.
    pub unread: Seq<u8>,
}

impl View for SkegClient {
    type V = Session;

    closed spec fn view(&self) -> Session {
        Session {
            version: self.version,
            next_req_id: self.next_req_id,
            unread: held(self.parser) + contents(self.read_buf),
        }
    }
}

/// A connection on which nothing has happened yet.
pub open spec fn fresh_session(version: u8) -> Session {
    Session { version, next_req_id: 1, unread: Seq::empty() }
}

/// The session after a request: one id is used up.
pub open spec fn after_request(pre: Session) -> Session {
    Session { next_req_id: (pre.next_req_id + 1) as u64, ..pre }
}

/// `r` carries, with the session's next id and in its version, the given op, flags and payload.
pub open spec fn is_request(
    r: Request,
    pre: Session,
    op: u8,
    flags: u32,
    payload: Seq<u8>,
) -> bool {
    &&& r.id == pre.next_req_id
    &&& r.frame@ == frame_bytes(pre.version, op, flags, r.id, payload)
}

/// `r`, with `post` as the session after it, is what the request to create an index by a v2 kind
/// gives on session `pre`.
pub open spec fn is_create_v2(
    r: Result<Request, ClientError>,
    pre: Session,
    post: Session,
    name: Seq<u8>,
    dim: u32,
    kind: VectorKindV2,
    backend: VectorBackend,
) -> bool {
    if pre.version == PROTOCOL_V2 {
        &&& r matches Ok(request)
        &&& is_request(
            request,
            pre,
            OP_VINDEX_CREATE,
            FLAGS_NONE,
            vindex_create_payload(name, dim, kind.code(), backend.code()),
        )
        &&& post == after_request(pre)
    } else {
        &&& r matches Err(ClientError::RequiresV2(call))
        &&& call@ == "vindex_create_v2"@
        &&& post == pre
    }
}

/// The session after a look for a frame: a whole frame is gone from the unread bytes.
pub open spec fn after_recv(pre: Session) -> Session {
    match parse(pre.unread) {
        Parsed::Whole(f) => Session {
            unread: pre.unread.skip(HEADER_LEN + f.payload.len()),
            ..pre
        },
        _ => Session { unread: blank_reserved(pre.unread), ..pre },
    }
}

/// `r` is what a look for the reply to request `expected_id` gives on session `pre`.
pub open spec fn recv_result(
    pre: Session,
    expected_id: u64,
    r: Result<Option<Frame>, ClientError>,
) -> bool {
    match parse(pre.unread) {
        Parsed::Incomplete => r matches Ok(None),
        Parsed::Fault(e) => r == Err::<Option<Frame>, ClientError>(ClientError::Protocol(e)),
        Parsed::Whole(f) => if f.header.version != pre.version {
            r == Err::<Option<Frame>, ClientError>(
                ClientError::VersionMismatch { sent: pre.version, got: f.header.version },
            )
        } else if f.header.req_id != expected_id {
            r == Err::<Option<Frame>, ClientError>(
                ClientError::ReqIdMismatch { sent: expected_id, got: f.header.req_id },
            )
        } else {
            r matches Ok(Some(frame)) && frame@ == f
        },
    }
}

impl SkegClient {
    /// The state of a fresh connection that speaks native protocol v1.
    pub fn connect() -> (client: Self)
        ensures
            client@ == fresh_session(PROTOCOL_V1),
    {
        Self::connect_with_version(PROTOCOL_V1)
    }

    /// The state of a fresh connection that speaks `version` on every frame.
    ///
    /// [`PROTOCOL_V1`] is what [`connect`](Self::connect) uses. [`PROTOCOL_V2`] is required for
    /// the TurboQuant kinds and for [`native_hello`](Self::native_hello).
    pub fn connect_with_version(version: u8) -> (client: Self)
        ensures
            client@ == fresh_session(version),
    {
        let client = SkegClient {
            parser: parser_new(),
            read_buf: buffer_with_capacity(64 * 1024),
            next_req_id: 1,
            version,
        };
        assert(client@.unread =~= Seq::empty());
        client
    }

    /// The native protocol version this client stamps on every frame.
    #[must_use]
    pub fn version(&self) -> (version: u8)
        ensures
            version == self@.version,
    {
        self.version
    }

    /// The id that the next request will carry.
    #[must_use]
    pub fn next_req_id(&self) -> (id: u64)
        ensures
            id == self@.next_req_id,
    {
        self.next_req_id
    }

    /// Draw the id of the next request. The request methods do this themselves; with
    /// [`stamp_version`](Self::stamp_version) it lets a caller frame a request of its own.
    pub fn next_id(&mut self) -> (id: u64)
        requires
            old(self)@.next_req_id < u64::MAX,
        ensures
            id == old(self)@.next_req_id,
            final(self)@ == after_request(old(self)@),
    {
        let id: u64 = self.next_req_id;
        self.next_req_id = self.next_req_id + 1;
        id
    }

    /// Rewrite a v1-encoded frame to carry this connection's version.
    ///
    /// The typed encoders emit v1. The version is one byte at a fixed header offset, so stamping
    /// it here is cheaper and far less error-prone than duplicating every payload builder.
    pub fn stamp_version(&self, frame: Vec<u8>) -> (stamped: Vec<u8>)
        requires
            self@.version != PROTOCOL_V1 ==> frame@.len() > 2,
        ensures
            stamped@ == (if self@.version == PROTOCOL_V1 {
                frame@
            } else {
                frame@.update(2, self@.version)
            }),
    {
        if self.version == PROTOCOL_V1 {
            return frame;
        }
        let mut out = frame;
        out[2] = self.version;
        out
    }

    /// Look for the reply to request `expected_id` in what has arrived. `None` asks for more
    /// bytes: read from the socket, hand them to [`received`](Self::received), look again.
    ///
    /// # Errors
    ///
    /// `Protocol` where the bytes are no frame, `VersionMismatch` for a frame in another protocol
    /// version than this connection's, and `ReqIdMismatch` for one that answers another request,
    /// so that a server's out-of-order reply or a desynchronised connection fails loud instead of
    /// silently returning the wrong call's result.
    pub fn recv_frame(&mut self, expected_id: u64) -> (r: Result<Option<Frame>, ClientError>)
        ensures
            recv_result(old(self)@, expected_id, r),
            final(self)@ == after_recv(old(self)@),
            r matches Ok(None) ==> final(self)@.unread.len() < HEADER_LEN + MAX_FRAME_SIZE,
    {
        let ghost s = self@.unread;
        proof {
            lemma_parse_stable(s, Seq::empty());
        }
        match parser_feed(&mut self.parser, &mut self.read_buf) {
            Err(e) => {
                proof {
                    lemma_blank_split(s);
                }
                assert(self@ =~= after_recv(old(self)@));
                Err(ClientError::Protocol(e))
            },
            Ok(None) => {
                assert(self@ =~= after_recv(old(self)@));
                Ok(None)
            },
            Ok(Some(frame)) => {
                assert(self@ =~= after_recv(old(self)@));
                if frame.header.version != self.version {
                    return Err(
                        ClientError::VersionMismatch {
                            sent: self.version,
                            got: frame.header.version,
                        },
                    );
                }
                if frame.header.req_id != expected_id {
                    return Err(
                        ClientError::ReqIdMismatch { sent: expected_id, got: frame.header.req_id },
                    );
                }
                Ok(Some(frame))
            },
        }
    }

    /// Take in the bytes of one read from the socket. A read of no bytes is the end of the
    /// stream.
    ///
    /// # Errors
    ///
    /// `ConnectionClosed` at the end of the stream.
    pub fn received(&mut self, chunk: &[u8]) -> (r: Result<(), ClientError>)
        requires
            old(self)@.unread.len() + chunk@.len() <= isize::MAX / 4,
        ensures
            r == (if chunk@.len() == 0 {
                Err::<(), ClientError>(ClientError::ConnectionClosed)
            } else {
                Ok::<(), ClientError>(())
            }),
            final(self)@ == (Session { unread: old(self)@.unread + chunk@, ..old(self)@ }),
    {
        if chunk.len() == 0 {
            assert(self@.unread + chunk@ =~= self@.unread);
            return Err(ClientError::ConnectionClosed);
        }
        buffer_extend(&mut self.read_buf, chunk);
        assert(self@.unread =~= old(self)@.unread + chunk@);
        Ok(())
    }

    /// The request of a PING.
    pub fn ping(&mut self) -> (r: Request)
        requires
            old(self)@.next_req_id < u64::MAX,
        ensures
            is_request(r, old(self)@, OP_PING, FLAGS_NONE, Seq::empty()),
            final(self)@ == after_request(old(self)@),
    {
        broadcast use {lemma_frame_len, lemma_frame_restamped};

        let id: u64 = self.next_id();
        let frame = self.stamp_version(encode_ping(id));
        Request { id, frame }
    }

    /// The request for aggregate server statistics (cache bytes, evictions, key count).
    pub fn stats(&mut self) -> (r: Request)
        requires
            old(self)@.next_req_id < u64::MAX,
        ensures
            is_request(r, old(self)@, OP_STATS, FLAGS_NONE, Seq::empty()),
            final(self)@ == after_request(old(self)@),
    {
        broadcast use {lemma_frame_len, lemma_frame_restamped};

        let id: u64 = self.next_id();
        let frame = self.stamp_version(encode_stats(id));
        Request { id, frame }
    }

    /// The request for the per-shard stats breakdown.
    pub fn shards(&mut self) -> (r: Request)
        requires
            old(self)@.next_req_id < u64::MAX,
        ensures
            is_request(r, old(self)@, OP_SHARDS, FLAGS_NONE, Seq::empty()),
            final(self)@ == after_request(old(self)@),
    {
        broadcast use {lemma_frame_len, lemma_frame_restamped};

        let id: u64 = self.next_id();
        let frame = self.stamp_version(encode_shards(id));
        Request { id, frame }
    }

    /// The request for the list of every VINDEX.
    pub fn vindex_list(&mut self) -> (r: Request)
        requires
            old(self)@.next_req_id < u64::MAX,
        ensures
            is_request(r, old(self)@, OP_VINDEX_LIST, FLAGS_NONE, Seq::empty()),
            final(self)@ == after_request(old(self)@),
    {
        broadcast use {lemma_frame_len, lemma_frame_restamped};

        let id: u64 = self.next_id();
        let frame = self.stamp_version(encode_vindex_list(id));
        Request { id, frame }
    }

    /// The request to GET a key.
    pub fn get(&mut self, key: &[u8]) -> (r: Request)
        requires
            old(self)@.next_req_id < u64::MAX,
            fits(2 + key@.len()),
        ensures
            is_request(r, old(self)@, OP_GET, FLAGS_NONE, short_bytes(key@)),
            final(self)@ == after_request(old(self)@),
    {
        broadcast use {lemma_frame_len, lemma_frame_restamped};

        let id: u64 = self.next_id();
        let frame = self.stamp_version(encode_get(id, key));
        Request { id, frame }
    }

    /// The request to SET a key-value pair.
    pub fn set(&mut self, key: &[u8], value: &[u8]) -> (r: Request)
        requires
            old(self)@.next_req_id < u64::MAX,
            fits(6 + key@.len() + value@.len()),
        ensures
            is_request(r, old(self)@, OP_SET, FLAGS_NONE, set_payload(key@, value@)),
            final(self)@ == after_request(old(self)@),
    {
        broadcast use {lemma_frame_len, lemma_frame_restamped};

        let id: u64 = self.next_id();
        let frame = self.stamp_version(encode_set(id, key, value, FLAGS_NONE));
        Request { id, frame }
    }

    /// The request to SET with the `NO_REPLY` flag - fire-and-forget: no reply will come.
    pub fn set_no_reply(&mut self, key: &[u8], value: &[u8]) -> (r: Request)
        requires
            old(self)@.next_req_id < u64::MAX,
            fits(6 + key@.len() + value@.len()),
        ensures
            is_request(r, old(self)@, OP_SET, FLAG_NO_REPLY, set_payload(key@, value@)),
            final(self)@ == after_request(old(self)@),
    {
        broadcast use {lemma_frame_len, lemma_frame_restamped};

        let id: u64 = self.next_id();
        let frame = self.stamp_version(encode_set(id, key, value, FLAG_NO_REPLY));
        Request { id, frame }
    }

    /// The request to DEL a key.
    pub fn del(&mut self, key: &[u8]) -> (r: Request)
        requires
            old(self)@.next_req_id < u64::MAX,
            fits(2 + key@.len()),
        ensures
            is_request(r, old(self)@, OP_DEL, FLAGS_NONE, short_bytes(key@)),
            final(self)@ == after_request(old(self)@),
    {
        broadcast use {lemma_frame_len, lemma_frame_restamped};

        let id: u64 = self.next_id();
        let frame = self.stamp_version(encode_del(id, key));
        Request { id, frame }
    }

    /// The request to MGET multiple keys.
    pub fn mget(&mut self, keys: &[&[u8]]) -> (r: Request)
        requires
            old(self)@.next_req_id < u64::MAX,
            fits(mget_payload(slices(keys@)).len()),
        ensures
            is_request(r, old(self)@, OP_MGET, FLAGS_NONE, mget_payload(slices(keys@))),
            final(self)@ == after_request(old(self)@),
    {
        broadcast use {lemma_frame_len, lemma_frame_restamped};

        let id: u64 = self.next_id();
        let frame = self.stamp_version(encode_mget(id, keys));
        Request { id, frame }
    }

    /// The request to create a vector index `name` for `dim`-dimensional vectors, choosing the
    /// storage `backend` (in-RAM flat or on-disk Vamana graph).
    pub fn vindex_create(
        &mut self,
        name: &str,
        dim: u32,
        kind: VectorKind,
        backend: VectorBackend,
    ) -> (r: Request)
        requires
            old(self)@.next_req_id < u64::MAX,
            fits(8 + encode_utf8(name@).len()),
        ensures
            is_request(
                r,
                old(self)@,
                OP_VINDEX_CREATE,
                FLAGS_NONE,
                vindex_create_payload(encode_utf8(name@), dim, kind.code(), backend.code()),
            ),
            final(self)@ == after_request(old(self)@),
    {
        broadcast use {lemma_frame_len, lemma_frame_restamped};

        let id: u64 = self.next_id();
        let frame = self.stamp_version(
            encode_vindex_create(id, name, dim, kind.wire(), backend.wire()),
        );
        Request { id, frame }
    }

    /// The request to create a vector index using a native v2 kind, TurboQuant tiers included.
    ///
    /// # Errors
    ///
    /// [`ClientError::RequiresV2`] on a connection that does not speak v2; nothing is sent then.
    pub fn vindex_create_v2(
        &mut self,
        name: &str,
        dim: u32,
        kind: VectorKindV2,
        backend: VectorBackend,
    ) -> (r: Result<Request, ClientError>)
        requires
            old(self)@.version == PROTOCOL_V2 ==> old(self)@.next_req_id < u64::MAX,
            old(self)@.version == PROTOCOL_V2 ==> fits(8 + encode_utf8(name@).len()),
        ensures
            is_create_v2(r, old(self)@, final(self)@, encode_utf8(name@), dim, kind, backend),
    {
        if self.version != PROTOCOL_V2 {
            return Err(ClientError::RequiresV2("vindex_create_v2"));
        }
        Ok(self.vindex_create_raw_kind(name, dim, kind.wire(), backend))
    }

    /// The request to create a vector index from a raw kind byte.
    ///
    /// The escape hatch for a byte neither kind enum names - which is how the server's refusal of
    /// it can be exercised at all. Prefer [`vindex_create`](Self::vindex_create) or
    /// [`vindex_create_v2`](Self::vindex_create_v2).
    pub fn vindex_create_raw_kind(
        &mut self,
        name: &str,
        dim: u32,
        kind: u8,
        backend: VectorBackend,
    ) -> (r: Request)
        requires
            old(self)@.next_req_id < u64::MAX,
            fits(8 + encode_utf8(name@).len()),
        ensures
            is_request(
                r,
                old(self)@,
                OP_VINDEX_CREATE,
                FLAGS_NONE,
                vindex_create_payload(encode_utf8(name@), dim, kind, backend.code()),
            ),
            final(self)@ == after_request(old(self)@),
    {
        broadcast use {lemma_frame_len, lemma_frame_restamped};

        let id: u64 = self.next_id();
        let frame = self.stamp_version(encode_vindex_create(id, name, dim, kind, backend.wire()));
        Request { id, frame }
    }

    /// The request by which a v2 server is asked which protocol version and vector kinds it
    /// supports.
    ///
    /// # Errors
    ///
    /// [`ClientError::RequiresV2`] on a connection that does not speak v2, rather than a frame
    /// the server would refuse anyway; nothing is sent then.
    pub fn native_hello(&mut self) -> (r: Result<Request, ClientError>)
        requires
            old(self)@.version == PROTOCOL_V2 ==> old(self)@.next_req_id < u64::MAX,
        ensures
            if old(self)@.version == PROTOCOL_V2 {
                &&& r matches Ok(request)
                &&& is_request(request, old(self)@, OP_NATIVE_HELLO, FLAGS_NONE, Seq::empty())
                &&& final(self)@ == after_request(old(self)@)
            } else {
                &&& r matches Err(ClientError::RequiresV2(call))
                &&& call@ == "native_hello"@
                &&& final(self)@ == old(self)@
            },
    {
        broadcast use {lemma_frame_len, lemma_frame_restamped};

        if self.version != PROTOCOL_V2 {
            return Err(ClientError::RequiresV2("native_hello"));
        }
        let id: u64 = self.next_id();
        let frame = self.stamp_version(encode_native_hello(id));
        Ok(Request { id, frame })
    }

    /// The request to drop the vector index `name`.
    pub fn vindex_drop(&mut self, name: &str) -> (r: Request)
        requires
            old(self)@.next_req_id < u64::MAX,
            fits(2 + encode_utf8(name@).len()),
        ensures
            is_request(r, old(self)@, OP_VINDEX_DROP, FLAGS_NONE, short_bytes(encode_utf8(name@))),
            final(self)@ == after_request(old(self)@),
    {
        broadcast use {lemma_frame_len, lemma_frame_restamped};

        let id: u64 = self.next_id();
        let frame = self.stamp_version(encode_vindex_drop(id, name));
        Request { id, frame }
    }

    /// The request to insert `vector`, given by the bit patterns of its f32 components, under
    /// `id` into the index `name`.
    pub fn vset(&mut self, name: &str, id: u64, vector: &[u32]) -> (r: Request)
        requires
            old(self)@.next_req_id < u64::MAX,
            fits(14 + encode_utf8(name@).len() + 4 * vector@.len()),
        ensures
            is_request(
                r,
                old(self)@,
                OP_VSET,
                FLAGS_NONE,
                vset_payload(encode_utf8(name@), id, vector@),
            ),
            final(self)@ == after_request(old(self)@),
    {
        broadcast use {lemma_frame_len, lemma_frame_restamped};

        let req_id: u64 = self.next_id();
        let body = component_bytes(vector);
        let frame = self.stamp_version(encode_vset(req_id, name, id, &body));
        Request { id: req_id, frame }
    }

    /// The request for the stored vector for `vec_id` in `name`.
    pub fn vget(&mut self, name: &str, vec_id: u64) -> (r: Request)
        requires
            old(self)@.next_req_id < u64::MAX,
            fits(10 + encode_utf8(name@).len()),
        ensures
            is_request(r, old(self)@, OP_VGET, FLAGS_NONE, vector_ref(encode_utf8(name@), vec_id)),
            final(self)@ == after_request(old(self)@),
    {
        broadcast use {lemma_frame_len, lemma_frame_restamped};

        let id: u64 = self.next_id();
        let frame = self.stamp_version(encode_vget(id, name, vec_id));
        Request { id, frame }
    }

    /// The request to tombstone the vector for `vec_id` in `name`.
    pub fn vdel(&mut self, name: &str, vec_id: u64) -> (r: Request)
        requires
            old(self)@.next_req_id < u64::MAX,
            fits(10 + encode_utf8(name@).len()),
        ensures
            is_request(r, old(self)@, OP_VDEL, FLAGS_NONE, vector_ref(encode_utf8(name@), vec_id)),
            final(self)@ == after_request(old(self)@),
    {
        broadcast use {lemma_frame_len, lemma_frame_restamped};

        let id: u64 = self.next_id();
        let frame = self.stamp_version(encode_vdel(id, name, vec_id));
        Request { id, frame }
    }

    /// The request to search `name` for the `k` nearest vectors to `query`, given by the bit
    /// patterns of its f32 components.
    pub fn vsearch(&mut self, name: &str, query: &[u32], k: u32) -> (r: Request)
        requires
            old(self)@.next_req_id < u64::MAX,
            fits(10 + encode_utf8(name@).len() + 4 * query@.len()),
        ensures
            is_request(
                r,
                old(self)@,
                OP_VSEARCH,
                FLAGS_NONE,
                vsearch_payload(encode_utf8(name@), k, query@),
            ),
            final(self)@ == after_request(old(self)@),
    {
        broadcast use {lemma_frame_len, lemma_frame_restamped};

        let req_id: u64 = self.next_id();
        let body = component_bytes(query);
        let frame = self.stamp_version(encode_vsearch(req_id, name, k, &body));
        Request { id: req_id, frame }
    }
}

}

//! What a reply frame says of the call that it answers.
use vstd::prelude::*;

use crate::body::{
    announced, announcing, bool_of, capabilities_of, count_mget, count_rows, count_vindexes,
    hits_of, lemma_hits_trimmed, lemma_mget_trimmed, lemma_shards_trimmed, lemma_vindex_trimmed,
    mget_of, rows, shards_of, stats_of, value_of, values, vector_of, vindexes_of,
    NativeCapabilities, ServerStats, ShardStats, VindexInfo, HIT_ROW, SHARD_ROW,
};
use crate::client::SkegClient;
use crate::error::{
    err_message, is_server_err, ClientError, ErrCode, ParseError, INVALID_REQUEST_BYTE,
    NOT_FOUND_BYTE,
};
use crate::frame::{Frame, FrameView, MAX_FRAME_SIZE, OP_ERR, OP_OK};
use crate::lossy::from_utf8_lossy;
use crate::proto::{
    decode_bool, decode_capabilities, decode_mget, decode_shards, decode_stats, decode_value,
    decode_vector, decode_vindex_list, decode_vsearch,
};
use crate::wire::read_u32;

verus! {

/// `e` is the error that a frame other than an `Ok` reply stands for.
pub open spec fn is_failure(e: ClientError, f: FrameView) -> bool {
    if f.header.op == OP_ERR {
        is_server_err(e, f.payload)
    } else {
        e is UnexpectedOp
    }
}

/// `e` is the error that an `Ok` reply stands for whose payload cannot be decoded.
pub open spec fn is_undecodable(e: ClientError) -> bool {
    e == ClientError::Protocol(ParseError::InvalidPayload)
}

/// The frame is a reply by which the server says that what was asked for does not exist.
pub open spec fn is_miss(f: FrameView) -> bool {
    f.header.op == OP_ERR && f.payload.len() > 0 && f.payload[0] == NOT_FOUND_BYTE
}

/// `r` is the outcome of a call that is answered by a bare `Ok`, where `f` is the reply.
pub open spec fn is_done(r: Result<(), ClientError>, f: FrameView) -> bool {
    match r {
        Ok(_) => f.header.op == OP_OK,
        Err(e) => f.header.op != OP_OK && is_failure(e, f),
    }
}

/// `r` is the outcome of MGET for `n_keys` keys, where `f` is the reply.
pub open spec fn is_mget_for(
    r: Result<Vec<Option<Vec<u8>>>, ClientError>,
    f: FrameView,
    n_keys: nat,
) -> bool {
    match r {
        Ok(list) => {
            &&& f.header.op == OP_OK
            &&& list@.len() == n_keys
            &&& values(list@) == mget_of(f.payload)
        },
        Err(e) => if f.header.op == OP_OK {
            mget_of(f.payload).len() != n_keys && is_undecodable(e)
        } else {
            is_failure(e, f)
        },
    }
}

/// `r` is the outcome of VSEARCH, where `f` is the reply.
pub open spec fn is_vsearch(r: Result<Vec<(u64, u32)>, ClientError>, f: FrameView) -> bool {
    match r {
        Ok(hits) => f.header.op == OP_OK && hits@ == hits_of(f.payload),
        Err(e) => f.header.op != OP_OK && is_failure(e, f),
    }
}

impl SkegClient {
    /// The part of an `Err` payload that is its message.
    pub fn err_message_bytes(payload: &[u8]) -> (message: &[u8])
        requires
            payload@.len() >= 2,
        ensures
            message@ == err_message(payload@),
    {
        let announced: usize = payload[1] as usize;
        let there: usize = payload.len() - 2;
        let end: usize = if announced <= there {
            2 + announced
        } else {
            2 + there
        };
        let message = vstd::slice::slice_subrange(payload, 2, end);
        assert(message@ =~= err_message(payload@));
        message
    }

    /// The error that a server reports by a code byte and a message.
    pub fn server_error(code_byte: u8, msg: String) -> (e: ClientError)
        ensures
            e == (ClientError::Server { code: ErrCode::of_byte(code_byte), msg }),
    {
        let code = match code_byte {
            NOT_FOUND_BYTE => ErrCode::NotFound,
            INVALID_REQUEST_BYTE => ErrCode::InvalidRequest,
            _ => ErrCode::Internal,
        };
        ClientError::Server { code, msg }
    }

    /// The error that the payload of an `Err` reply, `[code u8][msg_len u8][msg]`, stands for. A
    /// message shorter than announced is taken as far as it goes.
    pub fn server_err(payload: &[u8]) -> (e: ClientError)
        ensures
            is_server_err(e, payload@),
    {
        if payload.len() < 2 {
            return ClientError::UnexpectedOp;
        }
        let msg = from_utf8_lossy(Self::err_message_bytes(payload));
        Self::server_error(payload[0], msg)
    }

    fn failure(frame: &Frame) -> (e: ClientError)
        ensures
            is_failure(e, frame@),
    {
        if frame.header.op == OP_ERR {
            Self::server_err(&frame.payload)
        } else {
            ClientError::UnexpectedOp
        }
    }

    /// The outcome of a call that is answered by a bare `Ok`: PING, SET, VINDEX CREATE in each of
    /// its forms, VINDEX DROP and VSET.
    ///
    /// # Errors
    ///
    /// The server's error, or `UnexpectedOp` for a frame that is no reply.
    pub fn done_reply(frame: &Frame) -> (r: Result<(), ClientError>)
        ensures
            is_done(r, frame@),
    {
        if frame.header.op == OP_OK {
            Ok(())
        } else {
            Err(Self::failure(frame))
        }
    }

    /// The outcome of STATS.
    ///
    /// # Errors
    ///
    /// The server's error, `UnexpectedOp` for a frame that is no reply, or `Protocol` for an `Ok`
    /// frame that holds less than the statistics.
    pub fn stats_reply(frame: &Frame) -> (r: Result<ServerStats, ClientError>)
        ensures
            match r {
                Ok(stats) => frame@.header.op == OP_OK && stats_of(frame@.payload) == Some(stats),
                Err(e) => if frame@.header.op == OP_OK {
                    stats_of(frame@.payload) is None && is_undecodable(e)
                } else {
                    is_failure(e, frame@)
                },
            },
    {
        if frame.header.op == OP_OK {
            match decode_stats(&frame.payload) {
                Some(stats) => Ok(stats),
                None => Err(ClientError::Protocol(ParseError::InvalidPayload)),
            }
        } else {
            Err(Self::failure(frame))
        }
    }

    /// The outcome of SHARDS: the statistics of each shard.
    ///
    /// # Errors
    ///
    /// The server's error, or `UnexpectedOp` for a frame that is no reply.
    pub fn shards_reply(frame: &Frame) -> (r: Result<Vec<ShardStats>, ClientError>)
        requires
            frame@.payload.len() <= MAX_FRAME_SIZE,
        ensures
            match r {
                Ok(list) => frame@.header.op == OP_OK && list@ == shards_of(frame@.payload),
                Err(e) => frame@.header.op != OP_OK && is_failure(e, frame@),
            },
    {
        if frame.header.op != OP_OK {
            return Err(Self::failure(frame));
        }
        let p = &frame.payload;
        if p.len() < 4 {
            return Ok(decode_shards(p));
        }
        let k: u32 = count_rows(p, SHARD_ROW);
        if k == read_u32(p, 0) {
            return Ok(decode_shards(p));
        }
        let trimmed = announcing(p, k);
        proof {
            lemma_shards_trimmed(p@, trimmed@);
        }
        Ok(decode_shards(&trimmed))
    }

    /// The outcome of VINDEX LIST: name, dim, kind byte, backend byte and live vector count of each
    /// index.
    ///
    /// # Errors
    ///
    /// The server's error, or `UnexpectedOp` for a frame that is no reply.
    pub fn vindex_list_reply(frame: &Frame) -> (r: Result<Vec<VindexInfo>, ClientError>)
        requires
            frame@.payload.len() <= MAX_FRAME_SIZE,
        ensures
            match r {
                Ok(list) => frame@.header.op == OP_OK && rows(list@) == vindexes_of(frame@.payload),
                Err(e) => frame@.header.op != OP_OK && is_failure(e, frame@),
            },
    {
        if frame.header.op != OP_OK {
            return Err(Self::failure(frame));
        }
        let p = &frame.payload;
        if p.len() < 4 {
            return Ok(decode_vindex_list(p));
        }
        let k: u32 = count_vindexes(p);
        if k == read_u32(p, 0) {
            return Ok(decode_vindex_list(p));
        }
        let trimmed = announcing(p, k);
        proof {
            lemma_vindex_trimmed(announced(p@), p@.skip(4));
        }
        Ok(decode_vindex_list(&trimmed))
    }

    fn value(p: &[u8]) -> (value: Option<Vec<u8>>)
        ensures
            match value {
                Some(v) => value_of(p@) == Some(v@),
                None => value_of(p@) is None,
            },
    {
        if p.len() >= 4 && read_u32(p, 0) as usize > usize::MAX - 4 {
            return None;
        }
        decode_value(p)
    }

    /// The outcome of GET: `None` if the key does not exist.
    ///
    /// # Errors
    ///
    /// The server's error unless it is `NotFound`, `UnexpectedOp` for a frame that is no reply, or
    /// `Protocol` for an `Ok` frame that holds no whole value.
    pub fn get_reply(frame: &Frame) -> (r: Result<Option<Vec<u8>>, ClientError>)
        ensures
            match r {
                Ok(Some(v)) => frame@.header.op == OP_OK && value_of(frame@.payload) == Some(v@),
                Ok(None) => is_miss(frame@),
                Err(e) => if frame@.header.op == OP_OK {
                    value_of(frame@.payload) is None && is_undecodable(e)
                } else {
                    !is_miss(frame@) && is_failure(e, frame@)
                },
            },
    {
        if frame.header.op == OP_OK {
            match Self::value(&frame.payload) {
                Some(v) => Ok(Some(v)),
                None => Err(ClientError::Protocol(ParseError::InvalidPayload)),
            }
        } else if Self::miss(frame) {
            Ok(None)
        } else {
            Err(Self::failure(frame))
        }
    }

    /// NotFound is a valid "miss".
    fn miss(frame: &Frame) -> (yes: bool)
        ensures
            yes == is_miss(frame@),
    {
        frame.header.op == OP_ERR && frame.payload.len() > 0 && frame.payload[0] == NOT_FOUND_BYTE
    }

    /// The outcome of DEL and of VDEL: `true` if the key, or the vector, existed.
    ///
    /// # Errors
    ///
    /// The server's error, or `UnexpectedOp` for a frame that is no reply.
    pub fn del_reply(frame: &Frame) -> (r: Result<bool, ClientError>)
        ensures
            match r {
                Ok(existed) => frame@.header.op == OP_OK && existed == bool_of(frame@.payload),
                Err(e) => frame@.header.op != OP_OK && is_failure(e, frame@),
            },
    {
        if frame.header.op == OP_OK {
            Ok(decode_bool(&frame.payload))
        } else {
            Err(Self::failure(frame))
        }
    }

    /// The outcome of MGET: the entries that the reply holds, in its order. They are parallel to
    /// the keys of the request where the server answers with one entry per key.
    ///
    /// # Errors
    ///
    /// The server's error, or `UnexpectedOp` for a frame that is no reply.
    pub fn mget_reply(frame: &Frame) -> (r: Result<Vec<Option<Vec<u8>>>, ClientError>)
        requires
            frame@.payload.len() <= MAX_FRAME_SIZE,
        ensures
            match r {
                Ok(list) => frame@.header.op == OP_OK && values(list@) == mget_of(frame@.payload),
                Err(e) => frame@.header.op != OP_OK && is_failure(e, frame@),
            },
    {
        if frame.header.op != OP_OK {
            return Err(Self::failure(frame));
        }
        let p = &frame.payload;
        if p.len() < 4 {
            return Ok(decode_mget(p));
        }
        let k: u32 = count_mget(p);
        if k == read_u32(p, 0) {
            return Ok(decode_mget(p));
        }
        let trimmed = announcing(p, k);
        proof {
            lemma_mget_trimmed(announced(p@), p@.skip(4));
        }
        Ok(decode_mget(&trimmed))
    }

    /// The outcome of MGET for `n_keys` keys: a `Vec` parallel to the keys of the request.
    ///
    /// # Errors
    ///
    /// The server's error, `UnexpectedOp` for a frame that is no reply, or `Protocol` for an `Ok`
    /// frame that holds another number of entries than there were keys.
    pub fn mget_reply_for(frame: &Frame, n_keys: usize) -> (r: Result<
        Vec<Option<Vec<u8>>>,
        ClientError,
    >)
        requires
            frame@.payload.len() <= MAX_FRAME_SIZE,
        ensures
            is_mget_for(r, frame@, n_keys as nat),
    {
        let list = Self::mget_reply(frame)?;
        assert(values(list@).len() == list@.len());
        if list.len() != n_keys {
            return Err(ClientError::Protocol(ParseError::InvalidPayload));
        }
        Ok(list)
    }

    /// The outcome of a native hello.
    ///
    /// # Errors
    ///
    /// `BadNativeHello` for an `Ok` frame that is no capability record, the server's error, or
    /// `UnexpectedOp` for a frame that is no reply.
    pub fn native_hello_reply(frame: &Frame) -> (r: Result<NativeCapabilities, ClientError>)
        ensures
            match r {
                Ok(caps) => {
                    &&& frame@.header.op == OP_OK
                    &&& capabilities_of(frame@.payload) == Some(caps)
                },
                Err(e) => if frame@.header.op == OP_OK {
                    capabilities_of(frame@.payload) is None && e is BadNativeHello
                } else {
                    is_failure(e, frame@)
                },
            },
    {
        if frame.header.op == OP_OK {
            match decode_capabilities(&frame.payload) {
                Some(caps) => Ok(caps),
                None => Err(ClientError::BadNativeHello),
            }
        } else {
            Err(Self::failure(frame))
        }
    }

    /// The outcome of VGET: the stored vector, by the bit patterns of its f32 components, or
    /// `None` if there is none.
    ///
    /// # Errors
    ///
    /// The server's error unless it is `NotFound`, `UnexpectedOp` for a frame that is no reply, or
    /// `Protocol` for an `Ok` frame that holds no whole value.
    pub fn vget_reply(frame: &Frame) -> (r: Result<Option<Vec<u32>>, ClientError>)
        ensures
            match r {
                Ok(Some(vector)) => {
                    &&& frame@.header.op == OP_OK
                    &&& value_of(frame@.payload) matches Some(b)
                    &&& vector@ == vector_of(b)
                },
                Ok(None) => is_miss(frame@),
                Err(e) => if frame@.header.op == OP_OK {
                    value_of(frame@.payload) is None && is_undecodable(e)
                } else {
                    !is_miss(frame@) && is_failure(e, frame@)
                },
            },
    {
        if frame.header.op == OP_OK {
            match Self::value(&frame.payload) {
                Some(b) => Ok(Some(decode_vector(&b))),
                None => Err(ClientError::Protocol(ParseError::InvalidPayload)),
            }
        } else if Self::miss(frame) {
            Ok(None)
        } else {
            Err(Self::failure(frame))
        }
    }

    /// The outcome of VSEARCH: `(vec_id, score)` pairs in the order of the reply, each score by the
    /// bit pattern of its f32.
    ///
    /// # Errors
    ///
    /// The server's error, or `UnexpectedOp` for a frame that is no reply.
    pub fn vsearch_reply(frame: &Frame) -> (r: Result<Vec<(u64, u32)>, ClientError>)
        requires
            frame@.payload.len() <= MAX_FRAME_SIZE,
        ensures
            is_vsearch(r, frame@),
    {
        if frame.header.op != OP_OK {
            return Err(Self::failure(frame));
        }
        let p = &frame.payload;
        if p.len() < 4 {
            return Ok(decode_vsearch(p));
        }
        let k: u32 = count_rows(p, HIT_ROW);
        if k == read_u32(p, 0) {
            return Ok(decode_vsearch(p));
        }
        let trimmed = announcing(p, k);
        proof {
            lemma_hits_trimmed(p@, trimmed@);
        }
        Ok(decode_vsearch(&trimmed))
    }
}

}

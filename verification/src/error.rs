//! What can go wrong on a connection, apart from the socket itself.
use vstd::prelude::*;
use vstd::utf8::{decode_utf8, valid_utf8};

use crate::lossy::lossy_utf8;

verus! {

/// The error code that an `Err` reply carries.
#[derive(Debug, Clone, Copy, PartialEq, Eq, Structural)]
pub enum ErrCode {
    NotFound,
    InvalidRequest,
    Internal,
}

/// The byte by which a server says "not found".
pub const NOT_FOUND_BYTE: u8 = 0x01;

/// The byte by which a server says "invalid request".
pub const INVALID_REQUEST_BYTE: u8 = 0x02;

impl ErrCode {
    /// The code that a byte stands for; a byte without a meaning of its own is `Internal`.
    pub open spec fn of_byte(byte: u8) -> ErrCode {
        if byte == NOT_FOUND_BYTE {
            ErrCode::NotFound
        } else if byte == INVALID_REQUEST_BYTE {
            ErrCode::InvalidRequest
        } else {
            ErrCode::Internal
        }
    }
}

/// Why a byte stream is not a sequence of frames, or a frame not a reply.
#[derive(Debug, Clone, Copy, PartialEq, Eq, Structural)]
#[allow(inconsistent_fields)]
pub enum ParseError {
    InvalidMagic { expected: u16, got: u16 },
    InvalidVersion { got: u8 },
    UnknownOp { got: u8 },
    FrameTooLarge { len: u32, max: u32 },
    InvalidFlags { bits: u32 },
    /// The payload of an `Ok` reply does not hold what the request asked for.
    InvalidPayload,
    /// A fault that the frame parser does not report: the codec's own list of faults is open.
    Other,
}

/// Why a call on a connection failed.
#[derive(Debug)]
#[allow(inconsistent_fields)]
pub enum ClientError {
    /// The bytes that came back are not a frame, or an `Ok` reply cannot be decoded.
    Protocol(ParseError),
    /// The server answered with an `Err` frame.
    Server { code: ErrCode, msg: String },
    /// The reply's op does not belong to the request, or an `Err` reply is too short to hold an
    /// error.
    UnexpectedOp,
    /// The server closed its side of the connection.
    ConnectionClosed,
    /// The reply answers another request.
    ReqIdMismatch { sent: u64, got: u64 },
    /// The reply is in another protocol version than the request.
    VersionMismatch { sent: u8, got: u8 },
    /// The named call exists in native protocol v2 only.
    RequiresV2(&'static str),
    /// The reply to a native hello is not a capability record.
    BadNativeHello,
}

/// The text of a run of bytes: their decoding where they are UTF-8, and otherwise what the
/// lossy decoder makes of them.
pub open spec fn text_of(bytes: Seq<u8>) -> Seq<char> {
    if valid_utf8(bytes) {
        decode_utf8(bytes)
    } else {
        lossy_utf8(bytes)
    }
}

/// The message bytes of an `Err` payload, `[code u8][msg_len u8][msg]`: as many as `msg_len`
/// announces, or all that there are.
pub open spec fn err_message(payload: Seq<u8>) -> Seq<u8>
    recommends
        payload.len() >= 2,
{
    if payload[1] as int <= payload.len() - 2 {
        payload.subrange(2, 2 + payload[1] as int)
    } else {
        payload.skip(2)
    }
}

/// `e` is the error that the `Err` payload `payload` stands for.
pub open spec fn is_server_err(e: ClientError, payload: Seq<u8>) -> bool {
    if payload.len() < 2 {
        e is UnexpectedOp
    } else {
        &&& e matches ClientError::Server { code, msg }
        &&& code == ErrCode::of_byte(payload[0])
        &&& msg@ == text_of(err_message(payload))
    }
}

}

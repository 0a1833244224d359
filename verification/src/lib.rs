//! A client for the skeg binary protocol, as far as it computes: frames, sessions and replies.
//!
//! A connection is a [`SkegClient`]. A method of it makes a request; the caller writes the
//! request's frame to the socket. [`SkegClient::recv_frame`] looks for the reply, and
//! [`SkegClient::received`] takes in what the socket brings until it is there. One of the
//! `_reply` functions then says what the reply means. No function here does I/O.
//!
//! Vectors travel as the bit patterns of their f32 components.

pub mod body;
pub mod client;
pub mod error;
pub mod frame;
pub mod kind;
pub mod laws;
mod lossy;
mod proto;
pub mod reply;
pub mod request;
pub mod wire;

pub use body::{NativeCapabilities, NativeVectorKindV2, ServerStats, ShardStats, VindexInfo};
pub use client::{Request, SkegClient};
pub use error::{ClientError, ErrCode, ParseError};
pub use frame::{Frame, FrameHeader, PROTOCOL_V1, PROTOCOL_V2};
pub use kind::{VectorBackend, VectorKind, VectorKindV2};

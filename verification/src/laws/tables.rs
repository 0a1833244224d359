//! The bytes by which kinds and backends go over the wire, one by one.
use vstd::prelude::*;

use crate::body::{NativeCapabilities, NativeVectorKindV2};
use crate::kind::{VectorBackend, VectorKind, VectorKindV2};
use crate::laws::sent::{backend_byte, v1_byte, v2_byte};

verus! {

/// Each v1 kind is sent as its byte, and `from_wire` gives the kind back for that byte.
pub proof fn law_v1_kind(kind: VectorKind, byte: u8, back: Option<VectorKind>)
    requires
        call_ensures(VectorKind::wire, (kind,), byte),
        call_ensures(VectorKind::from_wire, (byte,), back),
    ensures
        byte == v1_byte(kind),
        back == Some(kind),
{
}

/// `from_wire` names the v1 bytes 0, 1 and 2, and no other.
pub proof fn law_v1_byte(byte: u8, kind: Option<VectorKind>)
    requires
        call_ensures(VectorKind::from_wire, (byte,), kind),
    ensures
        kind == match byte {
            0 => Some(VectorKind::F32),
            1 => Some(VectorKind::Int8),
            2 => Some(VectorKind::Binary),
            _ => None,
        },
{
}

/// Each v2 kind is sent as its byte, and `from_wire` gives the kind back for that byte.
pub proof fn law_v2_kind(kind: VectorKindV2, byte: u8, back: Option<VectorKindV2>)
    requires
        call_ensures(VectorKindV2::wire, (kind,), byte),
        call_ensures(VectorKindV2::from_wire, (byte,), back),
    ensures
        byte == v2_byte(kind),
        back == Some(kind),
{
}

/// `from_wire` names the v2 bytes 0 to 5, and no other.
pub proof fn law_v2_byte(byte: u8, kind: Option<VectorKindV2>)
    requires
        call_ensures(VectorKindV2::from_wire, (byte,), kind),
    ensures
        kind == match byte {
            0 => Some(VectorKindV2::F32),
            1 => Some(VectorKindV2::Int8),
            2 => Some(VectorKindV2::Binary),
            3 => Some(VectorKindV2::Tq1),
            4 => Some(VectorKindV2::Tq2),
            5 => Some(VectorKindV2::Tq4),
            _ => None,
        },
{
}

/// Each backend is sent as its byte.
pub proof fn law_backend(backend: VectorBackend, byte: u8)
    requires
        call_ensures(VectorBackend::wire, (backend,), byte),
    ensures
        byte == backend_byte(backend),
{
}

/// The kinds of a capability record have the bytes 0 to 5; any other byte is handed back.
pub proof fn law_capability_kind(byte: u8, kind: Result<NativeVectorKindV2, u8>)
    requires
        call_ensures(NativeVectorKindV2::try_from, (byte,), kind),
    ensures
        kind == match byte {
            0 => Ok(NativeVectorKindV2::F32),
            1 => Ok(NativeVectorKindV2::Int8),
            2 => Ok(NativeVectorKindV2::Binary),
            3 => Ok(NativeVectorKindV2::Tq1),
            4 => Ok(NativeVectorKindV2::Tq2),
            5 => Ok(NativeVectorKindV2::Tq4),
            _ => Err(byte),
        },
{
}

/// A server supports a kind exactly if its mask has the kind's bit, whatever the other bits and
/// the version are.
pub proof fn law_supports(caps: NativeCapabilities, kind: NativeVectorKindV2, yes: bool)
    requires
        call_ensures(NativeCapabilities::supports, (caps, kind), yes),
    ensures
        yes <==> caps.vector_kind_mask & (match kind {
            NativeVectorKindV2::F32 => 1u8,
            NativeVectorKindV2::Int8 => 2u8,
            NativeVectorKindV2::Binary => 4u8,
            NativeVectorKindV2::Tq1 => 8u8,
            NativeVectorKindV2::Tq2 => 16u8,
            NativeVectorKindV2::Tq4 => 32u8,
        }) != 0,
{
    let mask = caps.vector_kind_mask;
    assert({
        &&& (mask & 1 != 0) == (mask % 2 == 1)
        &&& (mask & 2 != 0) == ((mask / 2) % 2 == 1)
        &&& (mask & 4 != 0) == ((mask / 4) % 2 == 1)
        &&& (mask & 8 != 0) == ((mask / 8) % 2 == 1)
        &&& (mask & 16 != 0) == ((mask / 16) % 2 == 1)
        &&& (mask & 32 != 0) == ((mask / 32) % 2 == 1)
    }) by (bit_vector);
}

}

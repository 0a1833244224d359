//! How a vector index stores its vectors.
use vstd::prelude::*;

verus! {

/// Quantization kind for a vector index.
#[derive(Debug, Clone, Copy, PartialEq, Eq, Structural)]
pub enum VectorKind {
    /// Full-precision f32; the flat scan runs exact cosine.
    F32,
    /// Symmetric 8-bit integer quantization.
    Int8,
    /// 1-bit sign quantization.
    Binary,
}

impl VectorKind {
    /// The byte that names this kind on a native v1 connection.
    pub open spec fn code(self) -> u8 {
        match self {
            VectorKind::F32 => 0,
            VectorKind::Int8 => 1,
            VectorKind::Binary => 2,
        }
    }

    /// The wire byte of this kind.
    pub fn wire(self) -> (byte: u8)
        ensures
            byte == self.code(),
    {
        match self {
            VectorKind::F32 => 0,
            VectorKind::Int8 => 1,
            VectorKind::Binary => 2,
        }
    }

    /// The typed kind for a native v1 wire byte, or `None` if v1 has no name for it. Byte 3 is
    /// deliberately `None`: it meant PQ, and today's server refuses it rather than build the TQ1
    /// index the same byte means in v2.
    #[must_use]
    pub fn from_wire(byte: u8) -> (kind: Option<Self>)
        ensures
            kind is Some <==> byte <= 2,
            kind matches Some(k) ==> k.code() == byte,
    {
        match byte {
            0 => Some(VectorKind::F32),
            1 => Some(VectorKind::Int8),
            2 => Some(VectorKind::Binary),
            _ => None,
        }
    }
}

/// Quantization kind for a vector index on native protocol v2.
///
/// Separate from [`VectorKind`] on purpose. Codes 0..2 agree, but code 3 is PQ in v1 and TQ1
/// here - one shared enum would hide exactly the collision that protocol v2 exists to resolve.
/// The TurboQuant tiers are reachable only from a v2 connection.
#[derive(Debug, Clone, Copy, PartialEq, Eq, Structural)]
pub enum VectorKindV2 {
    /// Full-precision f32.
    F32,
    /// Symmetric 8-bit integer quantization.
    Int8,
    /// 1-bit sign quantization.
    Binary,
    /// TurboQuant, 1 bit per dimension.
    Tq1,
    /// TurboQuant, 2 bits per dimension. The server's default tier.
    Tq2,
    /// TurboQuant, 4 bits per dimension.
    Tq4,
}

impl VectorKindV2 {
    /// The byte that names this kind on a native v2 connection.
    pub open spec fn code(self) -> u8 {
        match self {
            VectorKindV2::F32 => 0,
            VectorKindV2::Int8 => 1,
            VectorKindV2::Binary => 2,
            VectorKindV2::Tq1 => 3,
            VectorKindV2::Tq2 => 4,
            VectorKindV2::Tq4 => 5,
        }
    }

    /// The wire byte of this kind.
    pub fn wire(self) -> (byte: u8)
        ensures
            byte == self.code(),
    {
        match self {
            VectorKindV2::F32 => 0,
            VectorKindV2::Int8 => 1,
            VectorKindV2::Binary => 2,
            VectorKindV2::Tq1 => 3,
            VectorKindV2::Tq2 => 4,
            VectorKindV2::Tq4 => 5,
        }
    }

    /// The typed kind for a native v2 wire byte, or `None` above 5.
    #[must_use]
    pub fn from_wire(byte: u8) -> (kind: Option<Self>)
        ensures
            kind is Some <==> byte <= 5,
            kind matches Some(k) ==> k.code() == byte,
    {
        match byte {
            0 => Some(VectorKindV2::F32),
            1 => Some(VectorKindV2::Int8),
            2 => Some(VectorKindV2::Binary),
            3 => Some(VectorKindV2::Tq1),
            4 => Some(VectorKindV2::Tq2),
            5 => Some(VectorKindV2::Tq4),
            _ => None,
        }
    }
}

/// Storage backend for a vector index.
#[derive(Debug, Clone, Copy, PartialEq, Eq, Structural)]
pub enum VectorBackend {
    /// In-RAM flat index: full f32 in RAM, exhaustive scan.
    Flat,
    /// On-disk Vamana graph: f32 vectors on disk, graph + int8 tier in RAM. RAM-frugal, the
    /// right choice past a few thousand vectors.
    DiskVamana,
}

impl VectorBackend {
    /// The byte that names this backend.
    pub open spec fn code(self) -> u8 {
        match self {
            VectorBackend::Flat => 0,
            VectorBackend::DiskVamana => 1,
        }
    }

    /// The wire byte of this backend.
    pub fn wire(self) -> (byte: u8)
        ensures
            byte == self.code(),
    {
        match self {
            VectorBackend::Flat => 0,
            VectorBackend::DiskVamana => 1,
        }
    }
}

}

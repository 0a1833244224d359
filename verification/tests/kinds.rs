use skeg_client::{
    NativeCapabilities, NativeVectorKindV2, VectorBackend, VectorKind, VectorKindV2, PROTOCOL_V1,
    PROTOCOL_V2,
};

#[test]
fn v1_kinds_and_their_bytes() {
    assert_eq!(VectorKind::from_wire(0), Some(VectorKind::F32));
    assert_eq!(VectorKind::from_wire(1), Some(VectorKind::Int8));
    assert_eq!(VectorKind::from_wire(2), Some(VectorKind::Binary));
    for byte in 3..=u8::MAX {
        assert_eq!(VectorKind::from_wire(byte), None);
    }
    for byte in 0..3 {
        assert_eq!(VectorKind::from_wire(byte).unwrap().wire(), byte);
    }
}

#[test]
fn v2_kinds_and_their_bytes() {
    let kinds = [
        VectorKindV2::F32,
        VectorKindV2::Int8,
        VectorKindV2::Binary,
        VectorKindV2::Tq1,
        VectorKindV2::Tq2,
        VectorKindV2::Tq4,
    ];
    for (byte, kind) in kinds.iter().enumerate() {
        assert_eq!(kind.wire(), byte as u8);
        assert_eq!(VectorKindV2::from_wire(byte as u8), Some(*kind));
    }
    for byte in 6..=u8::MAX {
        assert_eq!(VectorKindV2::from_wire(byte), None);
    }
}

#[test]
fn byte_three_is_a_kind_in_v2_only() {
    assert_eq!(VectorKind::from_wire(3), None);
    assert_eq!(VectorKindV2::from_wire(3), Some(VectorKindV2::Tq1));
    for byte in 0..3 {
        let v1 = VectorKind::from_wire(byte).unwrap();
        let v2 = VectorKindV2::from_wire(byte).unwrap();
        assert_eq!(format!("{v1:?}"), format!("{v2:?}"));
    }
}

#[test]
fn backends_and_their_bytes() {
    assert_eq!(VectorBackend::Flat.wire(), 0);
    assert_eq!(VectorBackend::DiskVamana.wire(), 1);
}

#[test]
fn protocol_versions() {
    assert_eq!(PROTOCOL_V1, skeg_proto::VERSION_V1);
    assert_eq!(PROTOCOL_V2, skeg_proto::VERSION_V2);
}

#[test]
fn a_capability_mask_names_its_kinds() {
    let ours = [
        NativeVectorKindV2::F32,
        NativeVectorKindV2::Int8,
        NativeVectorKindV2::Binary,
        NativeVectorKindV2::Tq1,
        NativeVectorKindV2::Tq2,
        NativeVectorKindV2::Tq4,
    ];
    for mask in 0..=u8::MAX {
        let caps = NativeCapabilities { protocol_version: 2, vector_kind_mask: mask };
        let theirs = skeg_proto::NativeCapabilities { protocol_version: 2, vector_kind_mask: mask };
        for (code, kind) in ours.iter().enumerate() {
            let their_kind = skeg_proto::NativeVectorKindV2::try_from(code as u8).unwrap();
            assert_eq!(caps.supports(*kind), theirs.supports(their_kind));
        }
    }
    let caps = NativeCapabilities { protocol_version: 2, vector_kind_mask: 0b0001_0000 };
    assert!(caps.supports(NativeVectorKindV2::Tq2));
    assert!(!caps.supports(NativeVectorKindV2::Tq1));
}

#[test]
fn capability_kinds_and_their_bytes() {
    assert_eq!(NativeVectorKindV2::try_from(0), Ok(NativeVectorKindV2::F32));
    assert_eq!(NativeVectorKindV2::try_from(1), Ok(NativeVectorKindV2::Int8));
    assert_eq!(NativeVectorKindV2::try_from(2), Ok(NativeVectorKindV2::Binary));
    assert_eq!(NativeVectorKindV2::try_from(3), Ok(NativeVectorKindV2::Tq1));
    assert_eq!(NativeVectorKindV2::try_from(4), Ok(NativeVectorKindV2::Tq2));
    assert_eq!(NativeVectorKindV2::try_from(5), Ok(NativeVectorKindV2::Tq4));
    for byte in 6..=u8::MAX {
        assert_eq!(NativeVectorKindV2::try_from(byte), Err(byte));
    }
}

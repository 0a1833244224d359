use bytes::{Bytes, BytesMut};
use skeg_client::request::mget_fits;
use skeg_client::{
    ClientError, Request, SkegClient, VectorBackend, VectorKind, VectorKindV2, PROTOCOL_V1,
    PROTOCOL_V2,
};
use skeg_proto::{Flags, FrameParser, Op};

fn parsed(r: &Request) -> skeg_proto::Frame {
    let mut buf = BytesMut::from(&r.frame[..]);
    let frame = FrameParser::new().feed(&mut buf).unwrap().unwrap();
    assert!(buf.is_empty());
    assert_eq!(frame.header.req_id, r.id);
    frame
}

fn restamped(frame: Bytes, version: u8) -> Vec<u8> {
    let mut out = frame.to_vec();
    out[2] = version;
    out
}

#[test]
fn a_v1_connection_sends_the_encoders_bytes() {
    let mut c = SkegClient::connect();
    assert_eq!(c.version(), PROTOCOL_V1);
    let r = c.get(b"mykey");
    assert_eq!(r.id, 1);
    assert_eq!(r.frame, skeg_proto::encode_get(1, b"mykey").to_vec());
}

#[test]
fn a_ping_is_these_bytes() {
    let mut c = SkegClient::connect();
    assert_eq!(
        c.ping().frame,
        vec![
            0x4B, 0x56, 1, 0x80, 0, 0, 0, 0, 1, 0, 0, 0, 0, 0, 0, 0, 0, 0, 0, 0, 0, 0, 0, 0,
        ]
    );
}

#[test]
fn every_request_carries_the_connections_version() {
    for version in [PROTOCOL_V1, PROTOCOL_V2, 7] {
        let mut c = SkegClient::connect_with_version(version);
        let keys: [&[u8]; 2] = [b"a", b"bb"];
        let requests = vec![
            c.ping(),
            c.stats(),
            c.shards(),
            c.vindex_list(),
            c.get(b"k"),
            c.set(b"k", b"v"),
            c.set_no_reply(b"k", b"v"),
            c.del(b"k"),
            c.mget(&keys),
            c.vindex_create("i", 4, VectorKind::Int8, VectorBackend::Flat),
            c.vindex_create_raw_kind("i", 4, 9, VectorBackend::Flat),
            c.vindex_drop("i"),
            c.vset("i", 1, &[0, 1]),
            c.vget("i", 1),
            c.vdel("i", 1),
            c.vsearch("i", &[0, 1], 3),
        ];
        for (n, r) in requests.iter().enumerate() {
            assert_eq!(r.frame[2], version);
            assert_eq!(r.id, n as u64 + 1);
        }
    }
}

#[test]
fn ids_start_at_one_and_increase() {
    let mut c = SkegClient::connect();
    assert_eq!(c.next_req_id(), 1);
    let mut last = 0;
    for _ in 0..100 {
        let r = c.ping();
        assert!(r.id > last);
        last = r.id;
    }
    assert_eq!(last, 100);
    assert_eq!(c.next_req_id(), 101);
}

#[test]
fn ids_are_drawn_one_by_one() {
    let mut c = SkegClient::connect();
    for n in 1..=50 {
        assert_eq!(c.next_id(), n);
        let _ = c.received(b"x");
    }
    assert_eq!(c.ping().id, 51);
    assert_eq!(c.next_id(), 52);
}

#[test]
fn stamping_changes_the_version_byte_alone() {
    let v1 = SkegClient::connect();
    let v2 = SkegClient::connect_with_version(PROTOCOL_V2);
    let frame = skeg_proto::encode_get(5, b"key").to_vec();
    assert_eq!(v1.stamp_version(frame.clone()), frame);
    assert_eq!(v1.stamp_version(vec![]), Vec::<u8>::new());
    let stamped = v2.stamp_version(frame.clone());
    assert_eq!(stamped, restamped(skeg_proto::encode_get(5, b"key"), 2));
    assert_ne!(stamped, frame);
}

#[test]
fn requests_without_a_payload() {
    let mut c = SkegClient::connect_with_version(PROTOCOL_V2);
    for (r, op) in [
        (c.ping(), Op::Ping),
        (c.stats(), Op::Stats),
        (c.shards(), Op::Shards),
        (c.vindex_list(), Op::VindexList),
        (c.native_hello().unwrap(), Op::NativeHello),
    ] {
        let f = parsed(&r);
        assert_eq!(f.header.op, op);
        assert_eq!(f.header.version, PROTOCOL_V2);
        assert_eq!(f.header.flags, Flags::empty());
        assert!(f.payload.is_empty());
    }
}

#[test]
fn key_requests_carry_their_keys() {
    let mut c = SkegClient::connect_with_version(PROTOCOL_V2);
    let f = parsed(&c.get(b"mykey"));
    assert_eq!(f.header.op, Op::Get);
    assert_eq!(skeg_proto::decode_key_payload(&f.payload).unwrap(), &b"mykey"[..]);
    let f = parsed(&c.del(b""));
    assert_eq!(f.header.op, Op::Del);
    assert!(skeg_proto::decode_key_payload(&f.payload).unwrap().is_empty());
    let keys: [&[u8]; 3] = [b"a", b"", b"ccc"];
    assert!(mget_fits(&keys));
    let f = parsed(&c.mget(&keys));
    assert_eq!(f.header.op, Op::Mget);
    let back = skeg_proto::decode_mget_payload(&f.payload).unwrap();
    assert_eq!(back, vec![&b"a"[..], &b""[..], &b"ccc"[..]]);
    let none: [&[u8]; 0] = [];
    assert!(mget_fits(&none));
    assert_eq!(parsed(&c.mget(&none)).payload, &[0u8, 0, 0, 0][..]);
}

#[test]
fn a_key_too_long_for_its_length_field_is_announced_by_the_low_bits() {
    let mut c = SkegClient::connect();
    let key = vec![7u8; 0x1_0002];
    let r = c.get(&key);
    assert_eq!(r.frame[24..26], [2, 0]);
    assert_eq!(r.frame[26..], key[..]);
    assert_eq!(r.frame, skeg_proto::encode_get(1, &key).to_vec());
}

#[test]
fn set_and_its_no_reply_form_differ_in_the_flag() {
    let mut c = SkegClient::connect();
    let mut d = SkegClient::connect();
    let plain = c.set(b"k", b"v_value");
    let quiet = d.set_no_reply(b"k", b"v_value");
    let f = parsed(&plain);
    assert_eq!(f.header.op, Op::Set);
    assert_eq!(f.header.flags, Flags::empty());
    let (key, value) = skeg_proto::decode_set_payload(&f.payload).unwrap();
    assert_eq!((key.as_ref(), value.as_ref()), (&b"k"[..], &b"v_value"[..]));
    assert_eq!(parsed(&quiet).header.flags, Flags::NO_REPLY);
    let differing: Vec<usize> =
        (0..plain.frame.len()).filter(|i| plain.frame[*i] != quiet.frame[*i]).collect();
    assert_eq!(differing, vec![4]);
}

#[test]
fn vindex_create_carries_name_dim_kind_and_backend() {
    let mut c = SkegClient::connect();
    let f = parsed(&c.vindex_create("docs", 1024, VectorKind::Int8, VectorBackend::DiskVamana));
    assert_eq!(f.header.op, Op::VindexCreate);
    let (name, dim, kind, backend) = skeg_proto::decode_vindex_create_payload(&f.payload).unwrap();
    assert_eq!(name, &b"docs"[..]);
    assert_eq!((dim, kind, backend), (1024, 1, 1));
    let f = parsed(&c.vindex_create_raw_kind("\u{e9}", 3, 200, VectorBackend::Flat));
    let (name, dim, kind, backend) = skeg_proto::decode_vindex_create_payload(&f.payload).unwrap();
    assert_eq!(name, "\u{e9}".as_bytes());
    assert_eq!((dim, kind, backend), (3, 200, 0));
}

#[test]
fn v2_calls_are_refused_on_other_connections_without_using_an_id() {
    for version in [PROTOCOL_V1, 3] {
        let mut c = SkegClient::connect_with_version(version);
        let r = c.vindex_create_v2("notes", 8, VectorKindV2::Tq2, VectorBackend::DiskVamana);
        assert!(matches!(r, Err(ClientError::RequiresV2("vindex_create_v2"))));
        assert!(matches!(c.native_hello(), Err(ClientError::RequiresV2("native_hello"))));
        assert_eq!(c.next_req_id(), 1);
    }
}

#[test]
fn v2_calls_on_a_v2_connection() {
    let mut c = SkegClient::connect_with_version(PROTOCOL_V2);
    let mut d = SkegClient::connect_with_version(PROTOCOL_V2);
    let typed =
        c.vindex_create_v2("notes", 1024, VectorKindV2::Tq2, VectorBackend::DiskVamana).unwrap();
    let raw = d.vindex_create_raw_kind("notes", 1024, 4, VectorBackend::DiskVamana);
    assert_eq!(typed.frame, raw.frame);
    assert_eq!(
        typed.frame,
        restamped(skeg_proto::encode_vindex_create(1, "notes", 1024, 4, 1), 2)
    );
    assert_eq!(c.native_hello().unwrap().frame, skeg_proto::encode_native_hello(2).to_vec());
}

#[test]
fn vector_requests() {
    let mut c = SkegClient::connect();
    let vector = [0.5f32, -1.0, f32::MAX, -0.0];
    let bits: Vec<u32> = vector.iter().map(|x| x.to_bits()).collect();
    let r = c.vset("idx", 99, &bits);
    assert_eq!(
        r.frame,
        skeg_proto::encode_vset(1, "idx", 99, &vector, Flags::empty()).to_vec()
    );
    let r = c.vsearch("idx", &bits, 10);
    assert_eq!(r.frame, skeg_proto::encode_vsearch(2, "idx", 10, &vector).to_vec());
    let f = parsed(&r);
    let (_, k, query, _) = skeg_proto::decode_vsearch_payload(&f.payload).unwrap();
    assert_eq!(k, 10);
    assert_eq!(query, vector);
    assert_eq!(c.vget("idx", 7).frame, skeg_proto::encode_vget(3, "idx", 7).to_vec());
    assert_eq!(c.vdel("idx", 7).frame, skeg_proto::encode_vdel(4, "idx", 7).to_vec());
    assert_eq!(c.vindex_drop("idx").frame, skeg_proto::encode_vindex_drop(5, "idx").to_vec());
    assert_eq!(
        c.vset("idx", 1, &[]).frame,
        skeg_proto::encode_vset(6, "idx", 1, &[], Flags::empty()).to_vec()
    );
}

#[test]
fn vector_bits_are_sent_as_they_are() {
    let mut c = SkegClient::connect();
    let nan = 0x7fc0_1234u32;
    let r = c.vset("i", 1, &[nan, 0x0403_0201]);
    let n = r.frame.len();
    assert_eq!(r.frame[n - 8..], [0x34, 0x12, 0xc0, 0x7f, 1, 2, 3, 4]);
}

#[test]
fn vector_requests_are_read_back() {
    let mut c = SkegClient::connect_with_version(PROTOCOL_V2);
    let bits = [1.5f32.to_bits(), (-2.0f32).to_bits()];
    let f = parsed(&c.vset("idx", u64::MAX, &bits));
    assert_eq!(f.header.op, Op::Vset);
    let (name, id, vector) = skeg_proto::decode_vset_payload(&f.payload).unwrap();
    assert_eq!((name.as_ref(), id), (&b"idx"[..], u64::MAX));
    assert_eq!(vector, [1.5, -2.0]);
    for (r, op) in [(c.vget("i", 9), Op::Vget), (c.vdel("i", 9), Op::Vdel)] {
        let f = parsed(&r);
        assert_eq!(f.header.op, op);
        let (name, id) = skeg_proto::decode_vname_id_payload(&f.payload).unwrap();
        assert_eq!((name.as_ref(), id), (&b"i"[..], 9));
    }
    let f = parsed(&c.vindex_drop("gone"));
    assert_eq!(f.header.op, Op::VindexDrop);
    assert_eq!(skeg_proto::decode_vname_payload(&f.payload).unwrap(), &b"gone"[..]);
}

#[test]
fn creating_by_kind_is_creating_by_its_byte() {
    for version in [PROTOCOL_V1, PROTOCOL_V2] {
        for kind in [VectorKind::F32, VectorKind::Int8, VectorKind::Binary] {
            let mut a = SkegClient::connect_with_version(version);
            let mut b = SkegClient::connect_with_version(version);
            let typed = a.vindex_create("i", 8, kind, VectorBackend::Flat);
            let raw = b.vindex_create_raw_kind("i", 8, kind.wire(), VectorBackend::Flat);
            assert_eq!((typed.id, typed.frame), (raw.id, raw.frame));
            assert_eq!(a.next_req_id(), b.next_req_id());
        }
    }
    for byte in 0..6 {
        let kind = VectorKindV2::from_wire(byte).unwrap();
        let mut a = SkegClient::connect_with_version(PROTOCOL_V2);
        let mut b = SkegClient::connect_with_version(PROTOCOL_V2);
        let typed = a.vindex_create_v2("i", 8, kind, VectorBackend::DiskVamana).unwrap();
        let raw = b.vindex_create_raw_kind("i", 8, kind.wire(), VectorBackend::DiskVamana);
        assert_eq!((typed.id, typed.frame), (raw.id, raw.frame));
        assert_eq!((a.next_req_id(), b.next_req_id()), (2, 2));
    }
}

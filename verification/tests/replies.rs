use bytes::{Bytes, BytesMut};
use skeg_client::{
    ClientError, ErrCode, Frame, FrameHeader, NativeCapabilities, ParseError, ServerStats,
    ShardStats, SkegClient, VindexInfo,
};
use skeg_proto::FrameParser;

fn frame(op: u8, payload: &[u8]) -> Frame {
    Frame {
        header: FrameHeader {
            version: 1,
            op,
            flags: 0,
            req_id: 1,
            payload_len: payload.len() as u32,
        },
        payload: payload.to_vec(),
    }
}

/// The frame that the server's own encoder makes.
fn served(bytes: Bytes) -> Frame {
    let f = FrameParser::new().feed(&mut BytesMut::from(&bytes[..])).unwrap().unwrap();
    frame(f.header.op as u8, &f.payload)
}

const OK: u8 = 0xC0;
const ERR: u8 = 0xC1;
const GET: u8 = 0x01;

#[test]
fn a_bare_ok() {
    assert!(SkegClient::done_reply(&served(skeg_proto::encode_ok(1))).is_ok());
    assert!(SkegClient::done_reply(&frame(OK, b"ignored")).is_ok());
    let refused = served(skeg_proto::encode_err(
        1,
        skeg_proto::ErrCode::InvalidRequest,
        "index exists",
    ));
    match SkegClient::done_reply(&refused) {
        Err(ClientError::Server { code, msg }) => {
            assert_eq!(code, ErrCode::InvalidRequest);
            assert_eq!(msg, "index exists");
        }
        other => panic!("unexpected {other:?}"),
    }
    assert!(matches!(
        SkegClient::done_reply(&frame(GET, b"")),
        Err(ClientError::UnexpectedOp)
    ));
}

#[test]
fn errors_of_every_reply() {
    let refused = served(skeg_proto::encode_err(1, skeg_proto::ErrCode::Internal, "boom"));
    let stray = frame(0xC2, b"");
    fn check<T: std::fmt::Debug>(refused: Result<T, ClientError>, stray: Result<T, ClientError>) {
        match refused {
            Err(ClientError::Server { code, msg }) => {
                assert_eq!(code, ErrCode::Internal);
                assert_eq!(msg, "boom");
            }
            other => panic!("unexpected {other:?}"),
        }
        assert!(matches!(stray, Err(ClientError::UnexpectedOp)));
    }
    check(SkegClient::done_reply(&refused), SkegClient::done_reply(&stray));
    check(SkegClient::stats_reply(&refused), SkegClient::stats_reply(&stray));
    check(SkegClient::shards_reply(&refused), SkegClient::shards_reply(&stray));
    check(SkegClient::vindex_list_reply(&refused), SkegClient::vindex_list_reply(&stray));
    check(SkegClient::get_reply(&refused), SkegClient::get_reply(&stray));
    check(SkegClient::del_reply(&refused), SkegClient::del_reply(&stray));
    check(SkegClient::mget_reply(&refused), SkegClient::mget_reply(&stray));
    check(SkegClient::native_hello_reply(&refused), SkegClient::native_hello_reply(&stray));
    check(SkegClient::vget_reply(&refused), SkegClient::vget_reply(&stray));
    check(SkegClient::vsearch_reply(&refused), SkegClient::vsearch_reply(&stray));
}

#[test]
fn get_finds_a_value() {
    let f = served(skeg_proto::encode_ok_value(1, b"hello"));
    assert_eq!(SkegClient::get_reply(&f).unwrap(), Some(b"hello".to_vec()));
    let f = served(skeg_proto::encode_ok_value(1, b""));
    assert_eq!(SkegClient::get_reply(&f).unwrap(), Some(vec![]));
    assert_eq!(
        SkegClient::get_reply(&frame(OK, &[1, 0, 0, 0, 7, 8, 9])).unwrap(),
        Some(vec![7])
    );
}

#[test]
fn get_misses() {
    let f = served(skeg_proto::encode_err(1, skeg_proto::ErrCode::NotFound, "no such key"));
    assert_eq!(SkegClient::get_reply(&f).unwrap(), None);
    assert_eq!(SkegClient::get_reply(&frame(ERR, &[1])).unwrap(), None);
    assert!(matches!(
        SkegClient::get_reply(&frame(ERR, &[])),
        Err(ClientError::UnexpectedOp)
    ));
    assert!(matches!(
        SkegClient::get_reply(&frame(ERR, &[2])),
        Err(ClientError::UnexpectedOp)
    ));
    assert!(matches!(
        SkegClient::get_reply(&frame(ERR, &[2, 0])),
        Err(ClientError::Server { code: ErrCode::InvalidRequest, .. })
    ));
}

#[test]
fn a_malformed_value_is_a_protocol_error() {
    let malformed = [&[][..], &[0, 0, 0], &[2, 0, 0, 0, 9], &[0xFF, 0xFF, 0xFF, 0xFF, 9]];
    for payload in malformed {
        assert!(matches!(
            SkegClient::get_reply(&frame(OK, payload)),
            Err(ClientError::Protocol(ParseError::InvalidPayload))
        ));
        assert!(matches!(
            SkegClient::vget_reply(&frame(OK, payload)),
            Err(ClientError::Protocol(ParseError::InvalidPayload))
        ));
    }
}

#[test]
fn a_not_found_elsewhere_is_an_error() {
    let f = served(skeg_proto::encode_err(1, skeg_proto::ErrCode::NotFound, "no index"));
    assert!(matches!(
        SkegClient::vsearch_reply(&f),
        Err(ClientError::Server { code: ErrCode::NotFound, .. })
    ));
    assert!(matches!(
        SkegClient::del_reply(&f),
        Err(ClientError::Server { code: ErrCode::NotFound, .. })
    ));
}

#[test]
fn del_says_whether_it_existed() {
    assert!(SkegClient::del_reply(&served(skeg_proto::encode_ok_bool(1, true))).unwrap());
    assert!(!SkegClient::del_reply(&served(skeg_proto::encode_ok_bool(1, false))).unwrap());
    assert!(!SkegClient::del_reply(&frame(OK, &[])).unwrap());
    assert!(SkegClient::del_reply(&frame(OK, &[9, 0])).unwrap());
}

#[test]
fn mget_is_parallel_to_its_keys() {
    let results = vec![
        Some(Bytes::from_static(b"val1")),
        None,
        Some(Bytes::from_static(b"")),
        None,
        Some(Bytes::from_static(b"val3")),
    ];
    let f = served(skeg_proto::encode_ok_mget(1, &results));
    assert_eq!(
        SkegClient::mget_reply(&f).unwrap(),
        vec![Some(b"val1".to_vec()), None, Some(vec![]), None, Some(b"val3".to_vec())]
    );
    let none = served(skeg_proto::encode_ok_mget(1, &[]));
    assert!(SkegClient::mget_reply(&none).unwrap().is_empty());
}

#[test]
fn mget_for_its_keys_is_as_long_as_they_are() {
    let results = vec![Some(Bytes::from_static(b"a")), None];
    let f = served(skeg_proto::encode_ok_mget(1, &results));
    assert_eq!(
        SkegClient::mget_reply_for(&f, 2).unwrap(),
        vec![Some(b"a".to_vec()), None]
    );
    for n_keys in [0, 1, 3] {
        assert!(matches!(
            SkegClient::mget_reply_for(&f, n_keys),
            Err(ClientError::Protocol(ParseError::InvalidPayload))
        ));
    }
    assert!(SkegClient::mget_reply_for(&frame(OK, &[]), 0).unwrap().is_empty());
    let f = served(skeg_proto::encode_err(1, skeg_proto::ErrCode::Internal, "boom"));
    assert!(matches!(
        SkegClient::mget_reply_for(&f, 2),
        Err(ClientError::Server { code: ErrCode::Internal, .. })
    ));
    assert!(matches!(
        SkegClient::mget_reply_for(&frame(GET, b""), 2),
        Err(ClientError::UnexpectedOp)
    ));
}

#[test]
fn at_most_k_hits_best_first() {
    let k = 4;
    let hits = [(3u64, 0.99f32), (17, 0.5), (5, 0.0), (4, -0.25)];
    let whole = served(skeg_proto::encode_ok_vsearch(1, &hits)).payload;
    for n in 0..=whole.len() {
        let found = SkegClient::vsearch_reply(&frame(OK, &whole[..n])).unwrap();
        assert!(found.len() <= k);
        let scores: Vec<f32> = found.iter().map(|(_, s)| f32::from_bits(*s)).collect();
        assert!(scores.windows(2).all(|w| w[0] >= w[1]));
    }
}

#[test]
fn records_have_defaults_and_clones() {
    assert_eq!(ServerStats::default().n_keys, 0);
    assert_eq!(ShardStats::default().shard_id, 0);
    let info = VindexInfo { name: "i".to_string(), dim: 1, kind: 2, backend: 1, n_vectors: 3 };
    assert_eq!(info.clone(), info);
}

#[test]
fn mget_of_a_truncated_reply_stops_where_it_is_cut() {
    let results = vec![Some(Bytes::from_static(b"ab")), None, Some(Bytes::from_static(b"cde"))];
    let whole = served(skeg_proto::encode_ok_mget(1, &results)).payload;
    for n in 0..=whole.len() {
        let cut = frame(OK, &whole[..n]);
        let theirs: Vec<Option<Vec<u8>>> =
            skeg_proto::decode_mget_response(&Bytes::copy_from_slice(&whole[..n]))
                .into_iter()
                .map(|v| v.map(|b| b.to_vec()))
                .collect();
        assert_eq!(SkegClient::mget_reply(&cut).unwrap(), theirs);
    }
}

#[test]
fn a_list_that_announces_more_than_it_has() {
    let many = [0xFF, 0xFF, 0xFF, 0xFF];
    assert!(SkegClient::mget_reply(&frame(OK, &many)).unwrap().is_empty());
    assert!(SkegClient::shards_reply(&frame(OK, &many)).unwrap().is_empty());
    assert!(SkegClient::vindex_list_reply(&frame(OK, &many)).unwrap().is_empty());
    assert!(SkegClient::vsearch_reply(&frame(OK, &many)).unwrap().is_empty());
    assert_eq!(
        SkegClient::mget_reply(&frame(OK, &[0xFF, 0xFF, 0xFF, 0xFF, 5, 0, 0xFF, 0xFF, 0xFF, 0xFF]))
            .unwrap(),
        vec![None]
    );
}

#[test]
fn lists_too_short_for_their_count() {
    let short = frame(OK, &[1, 0, 0]);
    assert!(SkegClient::mget_reply(&short).unwrap().is_empty());
    assert!(SkegClient::shards_reply(&short).unwrap().is_empty());
    assert!(SkegClient::vindex_list_reply(&short).unwrap().is_empty());
    assert!(SkegClient::vsearch_reply(&short).unwrap().is_empty());
}

#[test]
fn stats_are_four_counters() {
    let f = served(skeg_proto::encode_ok_stats(
        1,
        skeg_proto::ServerStats {
            cache_bytes: 1,
            cache_evictions: 2,
            n_keys: 3,
            cache_budget: 1 << 40,
        },
    ));
    assert_eq!(
        SkegClient::stats_reply(&f).unwrap(),
        ServerStats { cache_bytes: 1, cache_evictions: 2, n_keys: 3, cache_budget: 1 << 40 }
    );
    for payload in [&[][..], &[0; 31]] {
        assert!(matches!(
            SkegClient::stats_reply(&frame(OK, payload)),
            Err(ClientError::Protocol(ParseError::InvalidPayload))
        ));
    }
    assert!(SkegClient::stats_reply(&frame(OK, &[0; 33])).is_ok());
}

#[test]
fn shards_are_rows() {
    let rows = [(7u32, 10u64), (8, 20), (9, 30)];
    let theirs: Vec<skeg_proto::ShardStats> = rows
        .iter()
        .map(|(id, n)| skeg_proto::ShardStats {
            shard_id: *id,
            cache_bytes: *n,
            cache_evictions: n + 1,
            n_keys: n + 2,
            cache_budget: n + 3,
        })
        .collect();
    let ours: Vec<ShardStats> = rows
        .iter()
        .map(|(id, n)| ShardStats {
            shard_id: *id,
            cache_bytes: *n,
            cache_evictions: n + 1,
            n_keys: n + 2,
            cache_budget: n + 3,
        })
        .collect();
    let f = served(skeg_proto::encode_ok_shards(1, &theirs));
    assert_eq!(SkegClient::shards_reply(&f).unwrap(), ours);
    let cut = frame(OK, &f.payload[..f.payload.len() - 1]);
    assert_eq!(SkegClient::shards_reply(&cut).unwrap(), ours[..2]);
}

#[test]
fn vindexes_are_rows() {
    let rows = [
        ("docs", 1024u32, 1u8, 1u8, 5u64),
        ("\u{e9}t\u{e9}", 3, 4, 0, 1 << 33),
        ("", 0, 0, 0, 0),
    ];
    let theirs: Vec<skeg_proto::VindexInfo> = rows
        .iter()
        .map(|(name, dim, kind, backend, n_vectors)| skeg_proto::VindexInfo {
            name: name.to_string(),
            dim: *dim,
            kind: *kind,
            backend: *backend,
            n_vectors: *n_vectors,
        })
        .collect();
    let ours: Vec<VindexInfo> = rows
        .iter()
        .map(|(name, dim, kind, backend, n_vectors)| VindexInfo {
            name: name.to_string(),
            dim: *dim,
            kind: *kind,
            backend: *backend,
            n_vectors: *n_vectors,
        })
        .collect();
    let f = served(skeg_proto::encode_ok_vindex_list(1, &theirs));
    assert_eq!(SkegClient::vindex_list_reply(&f).unwrap(), ours);
    let cut = frame(OK, &f.payload[..f.payload.len() - 1]);
    assert_eq!(SkegClient::vindex_list_reply(&cut).unwrap(), ours[..2]);
}

#[test]
fn a_vindex_name_that_is_not_utf8() {
    let mut p = vec![1, 0, 0, 0, 2, 0, b'a', 0xFF];
    p.extend_from_slice(&[5, 0, 0, 0, 2, 1, 9, 0, 0, 0, 0, 0, 0, 0]);
    let list = SkegClient::vindex_list_reply(&frame(OK, &p)).unwrap();
    assert_eq!(list.len(), 1);
    assert_eq!(list[0].name, "a\u{fffd}");
    assert_eq!((list[0].dim, list[0].kind, list[0].backend, list[0].n_vectors), (5, 2, 1, 9));
}

#[test]
fn capabilities_are_two_bytes() {
    let f = served(skeg_proto::encode_ok_native_capabilities(
        1,
        skeg_proto::NativeCapabilities { protocol_version: 2, vector_kind_mask: 0b0011_1111 },
    ));
    assert_eq!(
        SkegClient::native_hello_reply(&f).unwrap(),
        NativeCapabilities { protocol_version: 2, vector_kind_mask: 0b0011_1111 }
    );
    for payload in [&[][..], &[2], &[2, 63, 0]] {
        assert!(matches!(
            SkegClient::native_hello_reply(&frame(OK, payload)),
            Err(ClientError::BadNativeHello)
        ));
    }
}

#[test]
fn vget_gives_back_the_stored_vector() {
    let vector = [0.0f32, -3.5, 100.25, 1e-9];
    let bits: Vec<u32> = vector.iter().map(|x| x.to_bits()).collect();
    let f = served(skeg_proto::encode_ok_value(1, &skeg_proto::f32_vec_to_bytes(&vector)));
    assert_eq!(SkegClient::vget_reply(&f).unwrap(), Some(bits));
    let f = frame(OK, &[5, 0, 0, 0, 1, 2, 3, 4, 5]);
    assert_eq!(SkegClient::vget_reply(&f).unwrap(), Some(vec![0x0403_0201]));
    let f = served(skeg_proto::encode_err(1, skeg_proto::ErrCode::NotFound, ""));
    assert_eq!(SkegClient::vget_reply(&f).unwrap(), None);
}

#[test]
fn a_vector_survives_vset_and_vget() {
    let bits = [0x7fc0_1234u32, 0, 0xffff_ffff, 0x3f80_0000];
    let r = SkegClient::connect().vset("i", 1, &bits);
    let stored = &r.frame[r.frame.len() - 16..];
    let f = served(skeg_proto::encode_ok_value(1, stored));
    assert_eq!(SkegClient::vget_reply(&f).unwrap(), Some(bits.to_vec()));
}

#[test]
fn vsearch_keeps_the_order_of_its_hits() {
    let hits = [(3u64, 0.99f32), (17, 0.81), (4, -0.5)];
    let bits: Vec<(u64, u32)> = hits.iter().map(|(id, s)| (*id, s.to_bits())).collect();
    let f = served(skeg_proto::encode_ok_vsearch(1, &hits));
    assert_eq!(SkegClient::vsearch_reply(&f).unwrap(), bits);
    let cut = frame(OK, &f.payload[..f.payload.len() - 1]);
    assert_eq!(SkegClient::vsearch_reply(&cut).unwrap(), bits[..2]);
    assert!(SkegClient::vsearch_reply(&served(skeg_proto::encode_ok_vsearch(1, &[])))
        .unwrap()
        .is_empty());
}

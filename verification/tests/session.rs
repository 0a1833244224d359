use bytes::Bytes;
use skeg_client::{ClientError, Frame, ParseError, SkegClient, PROTOCOL_V1, PROTOCOL_V2};
use skeg_proto::{encode_frame_versioned, Flags, Op};

fn reply(version: u8, id: u64, payload: &[u8]) -> Bytes {
    encode_frame_versioned(version, Op::Ok, Flags::empty(), id, payload)
}

fn look(c: &mut SkegClient, id: u64) -> Option<Frame> {
    c.recv_frame(id).unwrap()
}

#[test]
fn a_reply_that_arrives_at_once() {
    let mut c = SkegClient::connect();
    let id = c.ping().id;
    assert!(look(&mut c, id).is_none());
    c.received(&reply(1, id, b"hello")).unwrap();
    let f = look(&mut c, id).unwrap();
    assert_eq!(f.payload, b"hello");
    assert_eq!(f.header.version, PROTOCOL_V1);
    assert_eq!(f.header.op, 0xC0);
    assert_eq!(f.header.flags, 0);
    assert_eq!(f.header.req_id, 1);
    assert_eq!(f.header.payload_len, 5);
    assert!(look(&mut c, id).is_none());
}

#[test]
fn a_reply_cut_anywhere() {
    let bytes = reply(2, 1, b"abcdefgh");
    for cut in 1..bytes.len() {
        let mut c = SkegClient::connect_with_version(PROTOCOL_V2);
        c.received(&bytes[..cut]).unwrap();
        assert!(look(&mut c, 1).is_none());
        c.received(&bytes[cut..]).unwrap();
        assert_eq!(look(&mut c, 1).unwrap().payload, b"abcdefgh");
    }
    let mut c = SkegClient::connect_with_version(PROTOCOL_V2);
    for (n, byte) in bytes.iter().enumerate() {
        c.received(&[*byte]).unwrap();
        assert_eq!(look(&mut c, 1).is_some(), n + 1 == bytes.len());
    }
}

#[test]
fn a_whole_round_trip() {
    let mut c = SkegClient::connect_with_version(PROTOCOL_V2);
    for round in 1..=3u64 {
        let r = c.get(b"key");
        assert_eq!(r.id, round);
        let mut answer = skeg_proto::encode_ok_value(r.id, b"world").to_vec();
        answer[2] = 2;
        c.received(&answer[..10]).unwrap();
        assert!(look(&mut c, r.id).is_none());
        c.received(&answer[10..]).unwrap();
        let f = look(&mut c, r.id).unwrap();
        assert_eq!(SkegClient::get_reply(&f).unwrap(), Some(b"world".to_vec()));
    }
}

#[test]
fn what_follows_a_reply_is_kept() {
    let mut c = SkegClient::connect();
    let mut both = reply(1, 1, b"one").to_vec();
    both.extend_from_slice(&reply(1, 2, b"two"));
    c.received(&both).unwrap();
    assert_eq!(look(&mut c, 1).unwrap().payload, b"one");
    assert_eq!(look(&mut c, 2).unwrap().payload, b"two");
    assert!(look(&mut c, 3).is_none());
}

#[test]
fn a_reply_in_another_version_is_rejected() {
    let mut c = SkegClient::connect_with_version(PROTOCOL_V2);
    c.received(&reply(1, 9, b"")).unwrap();
    assert!(matches!(
        c.recv_frame(9),
        Err(ClientError::VersionMismatch { sent: 2, got: 1 })
    ));
    c.received(&reply(2, 9, b"")).unwrap();
    assert!(look(&mut c, 9).is_some());
}

#[test]
fn a_reply_to_another_request_is_rejected() {
    let mut c = SkegClient::connect();
    c.received(&reply(1, 4, b"")).unwrap();
    assert!(matches!(
        c.recv_frame(5),
        Err(ClientError::ReqIdMismatch { sent: 5, got: 4 })
    ));
}

#[test]
fn the_version_is_checked_before_the_id() {
    let mut c = SkegClient::connect();
    c.received(&reply(2, 4, b"")).unwrap();
    assert!(matches!(
        c.recv_frame(5),
        Err(ClientError::VersionMismatch { sent: 1, got: 2 })
    ));
}

#[test]
fn the_end_of_the_stream() {
    let mut c = SkegClient::connect();
    assert!(matches!(c.received(&[]), Err(ClientError::ConnectionClosed)));
    c.received(&reply(1, 1, b"")[..5]).unwrap();
    assert!(look(&mut c, 1).is_none());
    assert!(matches!(c.received(&[]), Err(ClientError::ConnectionClosed)));
}

fn fault(change: &[(usize, u8)]) -> ParseError {
    let mut bytes = reply(1, 1, b"").to_vec();
    for (at, byte) in change {
        bytes[*at] = *byte;
    }
    let mut c = SkegClient::connect();
    c.received(&bytes).unwrap();
    match c.recv_frame(1) {
        Err(ClientError::Protocol(e)) => e,
        other => panic!("expected a protocol error, got {other:?}"),
    }
}

#[test]
fn each_fault_of_a_header() {
    assert_eq!(
        fault(&[(0, 0), (1, 1)]),
        ParseError::InvalidMagic { expected: 0x564B, got: 0x0100 }
    );
    assert_eq!(fault(&[(2, 0x99)]), ParseError::InvalidVersion { got: 0x99 });
    assert_eq!(fault(&[(3, 0x09)]), ParseError::UnknownOp { got: 0x09 });
    assert_eq!(fault(&[(7, 0xF0)]), ParseError::InvalidFlags { bits: 0xF000_0000 });
    assert_eq!(fault(&[(5, 1)]), ParseError::InvalidFlags { bits: 0x100 });
    assert_eq!(
        fault(&[(16, 1), (19, 1)]),
        ParseError::FrameTooLarge { len: 0x100_0001, max: 0x100_0000 }
    );
}

#[test]
fn the_first_fault_of_a_header_is_reported() {
    assert_eq!(
        fault(&[(0, 0), (2, 9), (3, 0), (7, 1), (19, 9)]),
        ParseError::InvalidMagic { expected: 0x564B, got: 0x5600 }
    );
    assert_eq!(
        fault(&[(2, 9), (3, 0), (7, 1), (19, 9)]),
        ParseError::InvalidVersion { got: 9 }
    );
    assert_eq!(fault(&[(3, 0), (7, 1), (19, 9)]), ParseError::UnknownOp { got: 0 });
    assert_eq!(fault(&[(7, 1), (19, 9)]), ParseError::InvalidFlags { bits: 0x100_0000 });
}

#[test]
fn every_op_byte_is_known_or_not() {
    for op in 0..=u8::MAX {
        let mut bytes = reply(1, 1, b"").to_vec();
        bytes[3] = op;
        let mut c = SkegClient::connect();
        c.received(&bytes).unwrap();
        let known = (0x01..=0x07).contains(&op)
            || (0x10..=0x16).contains(&op)
            || (0x80..=0x84).contains(&op)
            || (0xC0..=0xC2).contains(&op);
        match c.recv_frame(1) {
            Ok(Some(f)) => {
                assert!(known);
                assert_eq!(f.header.op, op);
            }
            Err(ClientError::Protocol(e)) => {
                assert!(!known);
                assert_eq!(e, ParseError::UnknownOp { got: op });
            }
            other => panic!("unexpected {other:?}"),
        }
    }
}

#[test]
fn a_fault_stays() {
    let mut bytes = reply(1, 1, b"").to_vec();
    bytes[2] = 5;
    let mut c = SkegClient::connect();
    c.received(&bytes).unwrap();
    for _ in 0..3 {
        assert!(matches!(
            c.recv_frame(1),
            Err(ClientError::Protocol(ParseError::InvalidVersion { got: 5 }))
        ));
        c.received(&reply(1, 1, b"later")).unwrap();
    }
}

#[test]
fn the_reserved_field_says_nothing() {
    let mut bytes = reply(1, 1, b"xyz").to_vec();
    bytes[20..24].copy_from_slice(&[1, 2, 3, 4]);
    for cut in [10, 22, 24, 25] {
        let mut c = SkegClient::connect();
        c.received(&bytes[..cut]).unwrap();
        assert!(look(&mut c, 1).is_none());
        c.received(&bytes[cut..]).unwrap();
        assert_eq!(look(&mut c, 1).unwrap().payload, b"xyz");
    }
}

#[test]
fn the_largest_ids_and_all_flags() {
    let mut c = SkegClient::connect();
    let bytes = encode_frame_versioned(1, Op::Continued, Flags::all(), u64::MAX, b"");
    c.received(&bytes).unwrap();
    let f = look(&mut c, u64::MAX).unwrap();
    assert_eq!(f.header.req_id, u64::MAX);
    assert_eq!(f.header.flags, 0xFF);
    assert_eq!(f.header.op, 0xC2);
}

fn read_out(chunks: &[&[u8]]) -> (Vec<(u64, Vec<u8>)>, Option<ParseError>) {
    let mut c = SkegClient::connect();
    let mut frames = vec![];
    for chunk in chunks {
        c.received(chunk).unwrap();
        loop {
            match c.recv_frame(frames.len() as u64 + 1) {
                Ok(Some(f)) => frames.push((f.header.req_id, f.payload)),
                Ok(None) => break,
                Err(ClientError::Protocol(e)) => return (frames, Some(e)),
                Err(other) => panic!("unexpected {other:?}"),
            }
        }
    }
    (frames, None)
}

#[test]
fn a_stream_gives_the_same_frames_however_it_is_cut() {
    let mut bytes = vec![];
    for id in 1..=3 {
        let mut f = reply(1, id, &vec![id as u8; id as usize]).to_vec();
        f[20..24].copy_from_slice(&[9, 8, 7, id as u8]);
        bytes.extend_from_slice(&f);
    }
    let whole = read_out(&[&bytes]);
    assert_eq!(whole.0, vec![(1, vec![1]), (2, vec![2, 2]), (3, vec![3, 3, 3])]);
    assert_eq!(whole.1, None);
    bytes.extend_from_slice(&[0; 30]);
    let faulty = read_out(&[&bytes]);
    assert_eq!(faulty.0, whole.0);
    assert_eq!(faulty.1, Some(ParseError::InvalidMagic { expected: 0x564B, got: 0 }));
    for first in 1..bytes.len() - 1 {
        for second in [first + 1, bytes.len() - 1] {
            if first < second && second < bytes.len() {
                let cut = [&bytes[..first], &bytes[first..second], &bytes[second..]];
                assert_eq!(read_out(&cut), faulty);
            }
        }
    }
    let single: Vec<&[u8]> = bytes.chunks(1).collect();
    assert_eq!(read_out(&single), faulty);
}

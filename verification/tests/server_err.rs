use bytes::Bytes;
use skeg_client::{ClientError, ErrCode, SkegClient};

#[test]
fn server_err_parses_code_and_message() {
    // payload: [code u8][msg_len u8][msg bytes...]
    let payload = Bytes::from_static(&[
        0x01, 9, b'n', b'o', b'-', b's', b'u', b'c', b'h', b'-', b'k',
    ]);
    let err = SkegClient::server_err(&payload);
    match err {
        ClientError::Server { code, msg } => {
            assert!(matches!(code, ErrCode::NotFound));
            assert_eq!(msg, "no-such-k");
        }
        other => panic!("expected Server error, got {other:?}"),
    }
}

#[test]
fn server_err_unknown_code_falls_back_to_internal() {
    let payload = Bytes::from_static(&[0xff, 2, b'h', b'i']);
    match SkegClient::server_err(&payload) {
        ClientError::Server { code, msg } => {
            assert!(matches!(code, ErrCode::Internal));
            assert_eq!(msg, "hi");
        }
        other => panic!("expected Server error, got {other:?}"),
    }
}

#[test]
fn server_err_short_payload_is_unexpected_op() {
    let payload = Bytes::from_static(&[0x01]); // only the code byte
    assert!(matches!(
        SkegClient::server_err(&payload),
        ClientError::UnexpectedOp
    ));
}

#[test]
fn server_err_truncated_message_does_not_panic() {
    // Declared msg_len=10 but only 3 message bytes follow. The
    // parser should clamp rather than read out of bounds.
    let payload = Bytes::from_static(&[0x01, 10, b'h', b'i', b'!']);
    let err = SkegClient::server_err(&payload);
    match err {
        ClientError::Server { msg, .. } => assert_eq!(msg, "hi!"),
        other => panic!("expected Server error, got {other:?}"),
    }
}

#[test]
fn invalid_request_has_its_own_code() {
    match SkegClient::server_err(&[0x02, 1, b'x', b'y']) {
        ClientError::Server { code, msg } => {
            assert_eq!(code, ErrCode::InvalidRequest);
            assert_eq!(msg, "x");
        }
        other => panic!("expected Server error, got {other:?}"),
    }
}

#[test]
fn a_message_that_is_not_utf8_is_decoded_lossily() {
    match SkegClient::server_err(&[0x03, 3, b'a', 0xff, b'b']) {
        ClientError::Server { code, msg } => {
            assert_eq!(code, ErrCode::Internal);
            assert_eq!(msg, "a\u{fffd}b");
        }
        other => panic!("expected Server error, got {other:?}"),
    }
}

#[test]
fn a_message_beyond_ascii_survives() {
    let text = "clé introuvable";
    let mut payload = vec![0x01, text.len() as u8];
    payload.extend_from_slice(text.as_bytes());
    match SkegClient::server_err(&payload) {
        ClientError::Server { msg, .. } => assert_eq!(msg, text),
        other => panic!("expected Server error, got {other:?}"),
    }
}

#[test]
fn empty_payload_is_unexpected_op() {
    assert!(matches!(SkegClient::server_err(&[]), ClientError::UnexpectedOp));
}

#[test]
fn message_bytes_and_error_parts() {
    assert_eq!(SkegClient::err_message_bytes(&[9, 2, 7, 8, 5]), &[7, 8]);
    assert_eq!(SkegClient::err_message_bytes(&[9, 200, 7]), &[7]);
    assert_eq!(SkegClient::err_message_bytes(&[9, 0, 7]), &[] as &[u8]);
    match SkegClient::server_error(1, "gone".to_string()) {
        ClientError::Server { code, msg } => {
            assert_eq!(code, ErrCode::NotFound);
            assert_eq!(msg, "gone");
        }
        other => panic!("expected Server error, got {other:?}"),
    }
}

use git_sentry::ssh_protocol::{
    failure_frame, frame_total_len, parse_message, read_string, read_u32, read_u8, write_string,
    write_u32, write_u8, DecodeError, SshMessage, SSH_AGENTC_REQUEST_IDENTITIES,
};

#[test]
fn test_parse_request_identities() {
    let data = [0x00, 0x00, 0x00, 0x01, 0x0b]; // length=1, type=11
    let msg = parse_message(&data).unwrap();
    assert!(matches!(msg, SshMessage::RequestIdentities));
}

#[test]
fn parse_remove_all_identities() {
    let data = [0x00, 0x00, 0x00, 0x01, 0x13];
    let msg = parse_message(&data).unwrap();
    assert!(matches!(msg, SshMessage::RemoveAllIdentities));
}

#[test]
fn parse_unknown_type_passes_through() {
    let data = [0x00, 0x00, 0x00, 0x01, 0x2a];
    let msg = parse_message(&data).unwrap();
    assert!(matches!(msg, SshMessage::Unknown(0x2a)));
    assert_eq!(msg.message_type(), 0x2a);
    assert!(!msg.is_sign_request());
}

#[test]
fn serialize_request_identities() {
    let m = SshMessage::RequestIdentities;
    assert_eq!(m.to_bytes(), vec![0x00, 0x00, 0x00, 0x01, 0x0b]);
    assert_eq!(m.message_type(), SSH_AGENTC_REQUEST_IDENTITIES);
}

#[test]
fn serialize_sign_request_exact_bytes() {
    let m = SshMessage::SignRequest {
        key_blob: vec![1, 2, 3],
        data: vec![9, 8],
        flags: 5,
    };
    let bytes = m.to_bytes();
    let expected = vec![
        0x00, 0x00, 0x00, 18, // frame length: 1 + 7 + 6 + 4
        13, // type
        0x00, 0x00, 0x00, 3, 1, 2, 3, // key blob
        0x00, 0x00, 0x00, 2, 9, 8, // data
        0x00, 0x00, 0x00, 5, // flags
    ];
    assert_eq!(bytes, expected);
}

#[test]
fn round_trip_sign_request() {
    let m = SshMessage::SignRequest {
        key_blob: vec![0xde, 0xad, 0xbe, 0xef],
        data: vec![1, 2, 3, 4, 5],
        flags: 0x1234_5678,
    };
    let bytes = m.to_bytes();
    match parse_message(&bytes).unwrap() {
        SshMessage::SignRequest { key_blob, data, flags } => {
            assert_eq!(key_blob, vec![0xde, 0xad, 0xbe, 0xef]);
            assert_eq!(data, vec![1, 2, 3, 4, 5]);
            assert_eq!(flags, 0x1234_5678);
        }
        other => panic!("parsed to the wrong variant: {:?}", other),
    }
}

#[test]
fn round_trip_bodyless_messages() {
    for m in [SshMessage::RequestIdentities, SshMessage::RemoveAllIdentities] {
        let t = m.message_type();
        let parsed = parse_message(&m.to_bytes()).unwrap();
        assert_eq!(parsed.message_type(), t);
    }
}

#[test]
fn every_strict_prefix_is_truncated() {
    let m = SshMessage::SignRequest {
        key_blob: vec![7; 8],
        data: vec![1, 2, 3],
        flags: 0,
    };
    let bytes = m.to_bytes();
    for n in 0..bytes.len() {
        let r = parse_message(&bytes[..n]);
        assert_eq!(r.unwrap_err(), DecodeError::Truncated, "prefix of {} bytes", n);
    }
}

#[test]
fn zero_length_frame_is_malformed() {
    let data = [0x00, 0x00, 0x00, 0x00];
    assert_eq!(parse_message(&data).unwrap_err(), DecodeError::Malformed);
}

#[test]
fn sign_request_with_oversized_field_is_malformed() {
    // declared frame length 6; key blob claims 99 bytes the body lacks
    let data = [0x00, 0x00, 0x00, 0x06, 13, 0x00, 0x00, 0x00, 99, 7];
    assert_eq!(parse_message(&data).unwrap_err(), DecodeError::Malformed);
}

#[test]
fn empty_input_is_truncated() {
    assert_eq!(parse_message(&[]).unwrap_err(), DecodeError::Truncated);
    assert_eq!(parse_message(&[0, 0]).unwrap_err(), DecodeError::Truncated);
}

#[test]
fn read_helpers() {
    let data = [0xab, 0x12, 0x34, 0x56, 0x78];
    assert_eq!(read_u8(&data, 0), Some((0xab, 1)));
    assert_eq!(read_u8(&data, 5), None);
    assert_eq!(read_u32(&data, 1), Some((0x1234_5678, 5)));
    assert_eq!(read_u32(&data, 2), None);

    let s = [0x00, 0x00, 0x00, 0x02, 0xaa, 0xbb, 0xcc];
    let (bytes, next) = read_string(&s, 0).unwrap();
    assert_eq!(bytes, vec![0xaa, 0xbb]);
    assert_eq!(next, 6);
    assert!(read_string(&s, 4).is_none());
}

#[test]
fn write_helpers() {
    let mut buf: Vec<u8> = Vec::new();
    write_u8(&mut buf, 0x42);
    write_u32(&mut buf, 0x0102_0304);
    write_string(&mut buf, &[9, 9]);
    assert_eq!(buf, vec![0x42, 1, 2, 3, 4, 0, 0, 0, 2, 9, 9]);
}

#[test]
fn frame_total_len_reads_header() {
    assert_eq!(frame_total_len(&[0, 0, 1, 0, 0xff]), Some(4 + 256));
    assert_eq!(frame_total_len(&[0, 0, 0]), None);
}

#[test]
fn failure_frame_is_canonical() {
    assert_eq!(failure_frame(), vec![0x00, 0x00, 0x00, 0x01, 0x05]);
}

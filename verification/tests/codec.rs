use peerlink::tcp::{decode_info_payload, encode_size_field, parse_digits, FrameError, Message};

fn encode_decode(m: &Message) -> Message {
    let bytes = m.encode();
    match Message::decode(&bytes) {
        Ok(Some(out)) => out,
        other => panic!("expected a message, got {:?}", other.is_ok()),
    }
}

#[test]
fn file_info_round_trip() {
    let m = Message::FileInfo {
        path: b"/tmp/report.txt".to_vec(),
        size: 4096,
    };
    match encode_decode(&m) {
        Message::FileInfo { path, size } => {
            assert_eq!(path, b"/tmp/report.txt".to_vec());
            assert_eq!(size, 4096);
        }
        _ => panic!("wrong variant"),
    }
}

#[test]
fn file_info_round_trip_empty_path() {
    let m = Message::FileInfo {
        path: Vec::new(),
        size: 0,
    };
    match encode_decode(&m) {
        Message::FileInfo { path, size } => {
            assert_eq!(path, Vec::<u8>::new());
            assert_eq!(size, 0);
        }
        _ => panic!("wrong variant"),
    }
}

#[test]
fn file_info_round_trip_digit_path_and_max_size() {
    // A path that itself ends in digits must not bleed into the size.
    let m = Message::FileInfo {
        path: b"backup.2024.tar.001".to_vec(),
        size: u64::MAX,
    };
    match encode_decode(&m) {
        Message::FileInfo { path, size } => {
            assert_eq!(path, b"backup.2024.tar.001".to_vec());
            assert_eq!(size, u64::MAX);
        }
        _ => panic!("wrong variant"),
    }
}

#[test]
fn file_data_round_trip_empty() {
    match encode_decode(&Message::FileData(Vec::new())) {
        Message::FileData(bytes) => assert_eq!(bytes, Vec::<u8>::new()),
        _ => panic!("wrong variant"),
    }
}

#[test]
fn file_data_round_trip_single_byte() {
    match encode_decode(&Message::FileData(vec![0xA5])) {
        Message::FileData(bytes) => assert_eq!(bytes, vec![0xA5]),
        _ => panic!("wrong variant"),
    }
}

#[test]
fn file_data_round_trip_large() {
    let payload: Vec<u8> = (0..1_000_000u32).map(|i| (i % 251) as u8).collect();
    match encode_decode(&Message::FileData(payload.clone())) {
        Message::FileData(bytes) => assert_eq!(bytes, payload),
        _ => panic!("wrong variant"),
    }
}

#[test]
fn frame_layout_is_marker_length_payload() {
    let m = Message::FileData(vec![1, 2, 3]);
    let bytes = m.encode();
    assert_eq!(&bytes[0..5], b"DATA:");
    assert_eq!(&bytes[5..13], &3u64.to_le_bytes());
    assert_eq!(&bytes[13..], &[1, 2, 3]);
}

#[test]
fn info_payload_has_fixed_width_size_suffix() {
    let m = Message::FileInfo {
        path: b"a".to_vec(),
        size: 7,
    };
    let bytes = m.encode();
    assert_eq!(&bytes[0..5], b"INFO:");
    // payload: the path byte, then 20 zero-padded digits
    assert_eq!(bytes.len(), 13 + 1 + 20);
    assert_eq!(&bytes[13..14], b"a");
    assert_eq!(&bytes[14..], b"00000000000000000007");
}

#[test]
fn empty_buffer_is_clean_end_of_stream() {
    assert!(matches!(Message::decode(&Vec::new()), Ok(None)));
}

#[test]
fn unknown_marker_is_rejected() {
    let mut bytes = Message::FileData(vec![9]).encode();
    bytes[0] = b'X';
    assert!(matches!(
        Message::decode(&bytes),
        Err(FrameError::UnknownMarker)
    ));
}

#[test]
fn short_buffer_is_truncated() {
    let bytes = b"INFO:".to_vec();
    assert!(matches!(Message::decode(&bytes), Err(FrameError::Truncated)));
}

#[test]
fn wrong_declared_length_is_truncated() {
    let mut bytes = Message::FileData(vec![1, 2, 3]).encode();
    bytes[5] = 99; // declared length no longer matches the payload
    assert!(matches!(Message::decode(&bytes), Err(FrameError::Truncated)));
}

#[test]
fn info_payload_shorter_than_suffix_is_malformed() {
    // A well-framed INFO message whose payload cannot hold the suffix.
    let mut bytes = b"INFO:".to_vec();
    bytes.extend_from_slice(&5u64.to_le_bytes());
    bytes.extend_from_slice(b"hello");
    assert!(matches!(
        Message::decode(&bytes),
        Err(FrameError::MalformedInfo)
    ));
}

#[test]
fn info_suffix_with_non_digit_is_malformed() {
    let mut payload = b"file".to_vec();
    payload.extend_from_slice(b"0000000000000000000x");
    let mut bytes = b"INFO:".to_vec();
    bytes.extend_from_slice(&(payload.len() as u64).to_le_bytes());
    bytes.extend_from_slice(&payload);
    assert!(matches!(
        Message::decode(&bytes),
        Err(FrameError::MalformedInfo)
    ));
}

#[test]
fn info_suffix_beyond_u64_is_malformed() {
    // 20 nines denote more than u64::MAX: the decoder must flag it.
    let payload = b"99999999999999999999".to_vec();
    assert!(matches!(
        decode_info_payload(payload),
        Err(FrameError::MalformedInfo)
    ));
}

#[test]
fn size_field_is_zero_padded_decimal() {
    assert_eq!(encode_size_field(0), b"00000000000000000000".to_vec());
    assert_eq!(encode_size_field(42), b"00000000000000000042".to_vec());
    assert_eq!(
        encode_size_field(u64::MAX),
        b"18446744073709551615".to_vec()
    );
}

#[test]
fn parse_digits_reads_decimal() {
    assert_eq!(parse_digits(&b"00000000000000000042".to_vec(), 0), Some(42));
    assert_eq!(parse_digits(&b"abc123".to_vec(), 3), Some(123));
    assert_eq!(parse_digits(&b"12x".to_vec(), 0), None);
    assert_eq!(parse_digits(&b"99999999999999999999".to_vec(), 0), None);
    assert_eq!(
        parse_digits(&b"18446744073709551615".to_vec(), 0),
        Some(u64::MAX)
    );
}

use kafka_core::{frame_size, read_frame, ErrorCode, KafkaError, Message, ResponseBody, ResponseHeader};

#[test]
fn test_message_serialization() {
    let message = Message::new(ResponseHeader::new_v0(7), None);
    let mut bytes: Vec<u8> = Vec::new();
    message.send(&mut bytes).unwrap();
    let expected = vec![
        0, 0, 0, 4, // message size (4 bytes for collation_id)
        0, 0, 0, 7, // collation_id
    ];
    assert_eq!(bytes, expected);
}

#[test]
fn test_serialize_response_header_v0() {
    let message = Message::new(ResponseHeader::new_v0(42), None);
    let mut buffer: Vec<u8> = Vec::new();
    message.send(&mut buffer).unwrap();
    let expected_bytes: Vec<u8> = vec![
        0, 0, 0, 4, // message size
        0, 0, 0, 42, // collation_id
    ];
    assert_eq!(buffer, expected_bytes);
}

#[test]
fn size_prefix_counts_header_and_body() {
    let message = Message::new(
        ResponseHeader::new_v1(9),
        Some(ResponseBody::Error(ErrorCode::UnsupportedVersion)),
    );
    let mut out = Vec::new();
    message.send(&mut out).unwrap();
    assert_eq!(out, vec![0, 0, 0, 7, 0, 0, 0, 9, 0, 0, 35]);
    assert_eq!(frame_size(&out[..4]), Ok(out.len() - 4));
    assert_eq!(read_frame(&out, 0), Ok((out[4..].to_vec(), out.len())));
    assert_eq!(message.correlation_id(), 9);
}

#[test]
fn empty_frame_has_no_bytes() {
    assert_eq!(read_frame(&[0, 0, 0, 0, 9, 9], 0), Ok((Vec::new(), 4)));
    assert_eq!(frame_size(&[0, 0, 0, 0]), Ok(0));
}

#[test]
fn negative_frame_size_is_rejected() {
    assert_eq!(read_frame(&[0xFF, 0xFF, 0xFF, 0xFE], 0), Err(KafkaError::NegativeFrameSize));
    assert_eq!(frame_size(&[0x80, 0, 0, 0]), Err(KafkaError::NegativeFrameSize));
}

#[test]
fn frame_cut_short_is_truncated() {
    assert_eq!(read_frame(&[0, 0, 0, 3, 1, 2], 0), Err(KafkaError::Truncated));
    assert_eq!(frame_size(&[0, 0]), Err(KafkaError::Truncated));
}

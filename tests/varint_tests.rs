use kafka_core::varint::{read_uvarint64, read_varint, read_varlong, write_varlong};
use kafka_core::{
    decode_varint_i32, decode_varint_u64, encode_varint_i32, encode_varint_u64,
    read_varint_bytes, KafkaError, LengthBytes,
};

#[test]
fn test_length_bytes() {
    let data = vec![0b1000_0001, 0b0000_0010];
    let mut generator = LengthBytes::new(&data);
    assert_eq!(generator.next().unwrap().unwrap(), 0b0000_0001);
    assert_eq!(generator.next().unwrap().unwrap(), 0b0000_0010);
    assert!(generator.next().is_none());
}

#[test]
fn test_decode_varint_u64() {
    let data = vec![0b1001_0110, 0b0000_0001];
    let length = decode_varint_u64(data).unwrap();
    assert_eq!(length, 150);

    let data = vec![0b0000_0110];
    let length = decode_varint_u64(data).unwrap();
    assert_eq!(length, 6);
}

#[test]
fn test_encode_varint_u64() {
    let length = 150;
    let encoded = encode_varint_u64(length);
    assert_eq!(encoded, vec![0b1001_0110, 0b0000_0001]);

    let length = 257;
    let encoded = encode_varint_u64(length);
    assert_eq!(encoded, vec![0b1000_0001, 0b0000_0010]);

    let length = 6;
    let encoded = encode_varint_u64(length);
    assert_eq!(encoded, vec![0b0000_0110]);
}

#[test]
fn test_encode_varint_i32() {
    let v: i32 = 29;
    let encoded = encode_varint_i32(v);
    assert_eq!(encoded, vec![0b0011_1010]);

    let v: i32 = -1;
    let encoded = encode_varint_i32(v);
    assert_eq!(encoded, vec![0b0000_0001]);

    let v: i32 = -150;
    let encoded = encode_varint_i32(v);
    assert_eq!(encoded, vec![0b1010_1011, 0b0000_0010]);
}

#[test]
fn test_decode_varint_i32() {
    let data = vec![0b0011_1010];
    let decoded = decode_varint_i32(data).unwrap();
    assert_eq!(decoded, 29);

    let data = vec![0b0000_0001];
    let decoded = decode_varint_i32(data).unwrap();
    assert_eq!(decoded, -1);

    let data = vec![0b1010_1011, 0b0000_0010];
    let decoded = decode_varint_i32(data).unwrap();
    assert_eq!(decoded, -150);
}

#[test]
fn zero_encodes_to_one_zero_byte() {
    assert_eq!(encode_varint_u64(0), vec![0x00]);
}

#[test]
fn uvarint_round_trip_up_to_u64_max() {
    for n in [0u64, 1, 127, 128, 16_383, 16_384, (1u64 << 56) - 1, u64::MAX] {
        let mut bytes = encode_varint_u64(n);
        assert!(bytes.len() <= 10);
        bytes.push(0xAB);
        assert_eq!(read_uvarint64(&bytes, 0), Ok((n, bytes.len() - 1)));
    }
    assert_eq!(encode_varint_u64((1u64 << 56) - 1).len(), 8);
    assert_eq!(encode_varint_u64(u64::MAX).len(), 10);
}

#[test]
fn zigzag_round_trip_and_sign_bit() {
    for v in [0i32, 1, -1, 2, -2, 29, -150, i32::MAX, i32::MIN] {
        let bytes = encode_varint_i32(v);
        assert!(bytes.len() <= 5);
        assert_eq!(decode_varint_i32(bytes.clone()).unwrap(), v);
        assert_eq!(bytes[0] & 1, if v >= 0 { 0 } else { 1 });
    }
    assert_eq!(encode_varint_i32(i32::MIN), vec![0xFF, 0xFF, 0xFF, 0xFF, 0x0F]);
}

#[test]
fn varlong_round_trip() {
    for v in [0i64, -1, 1_726_045_943_832, i64::MIN, i64::MAX] {
        let mut out = Vec::new();
        write_varlong(v, &mut out);
        assert_eq!(read_varlong(&out, 0), Ok((v, out.len())));
    }
}

#[test]
fn varint_without_terminator_is_malformed() {
    let eleven = vec![0x80u8; 11];
    assert_eq!(decode_varint_u64(eleven), Err(KafkaError::MalformedVarint));
    let overflowing = vec![0xFF, 0xFF, 0xFF, 0xFF, 0xFF, 0xFF, 0xFF, 0xFF, 0xFF, 0x02];
    assert_eq!(decode_varint_u64(overflowing), Err(KafkaError::MalformedVarint));
    let largest = vec![0xFF, 0xFF, 0xFF, 0xFF, 0xFF, 0xFF, 0xFF, 0xFF, 0xFF, 0x01];
    assert_eq!(decode_varint_u64(largest), Ok(u64::MAX));
    let six_for_i32 = vec![0x80, 0x80, 0x80, 0x80, 0x80, 0x00];
    assert_eq!(read_varint(&six_for_i32, 0), Err(KafkaError::MalformedVarint));
}

#[test]
fn varint_cut_short_is_truncated() {
    assert_eq!(decode_varint_u64(vec![0x96]), Err(KafkaError::Truncated));
    assert_eq!(decode_varint_u64(vec![]), Err(KafkaError::Truncated));
    let mut generator = LengthBytes::new(&[0x81]);
    assert_eq!(generator.next(), Some(Ok(0x01)));
    assert_eq!(generator.next(), Some(Err(KafkaError::Truncated)));
    assert_eq!(generator.next(), None);
}

#[test]
fn varint_bytes_are_read_with_continuation_bits_cleared() {
    let data = vec![0x96, 0x01, 0xFF];
    assert_eq!(read_varint_bytes(&data, 0), Ok((vec![0x16, 0x01], 2)));
    assert_eq!(read_varint_bytes(&data, 2), Err(KafkaError::Truncated));
}

#[test]
fn varint_bytes_stop_after_ten() {
    let mut eleven_then_end = vec![0x80u8; 11];
    eleven_then_end.push(0x00);
    assert_eq!(read_varint_bytes(&eleven_then_end, 0), Err(KafkaError::MalformedVarint));

    let mut ten = vec![0xFFu8; 9];
    ten.push(0x01);
    assert_eq!(read_varint_bytes(&ten, 0), Ok((vec![0x7F, 0x7F, 0x7F, 0x7F, 0x7F, 0x7F, 0x7F, 0x7F, 0x7F, 0x01], 10)));

    let eleven = vec![0x80u8; 11];
    let mut generator = LengthBytes::new(&eleven);
    for _ in 0..10 {
        assert_eq!(generator.next(), Some(Ok(0x00)));
    }
    assert_eq!(generator.next(), Some(Err(KafkaError::MalformedVarint)));
    assert_eq!(generator.next(), None);
}

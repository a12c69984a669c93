use kafka_core::array::{read_seq, seq_size, write_seq};
use kafka_core::codec::{
    bytes_size, nullable_bytes_size, read_bool, read_bytes, read_i32, read_nullable_bytes,
    write_bool, write_bytes, write_i32, write_nullable_bytes,
};
use kafka_core::{Codec, Encode, KafkaError, KafkaString, LenKind, Tag, TaggedFields, Uuid};

fn strings(items: &[&str]) -> Vec<KafkaString> {
    items.iter().map(|s| KafkaString::new(s.as_bytes().to_vec())).collect()
}

fn first_second_third() -> Vec<u8> {
    vec![
        0x00, 0x05, b'f', b'i', b'r', b's', b't', // "first"
        0x00, 0x06, b's', b'e', b'c', b'o', b'n', b'd', // "second"
        0x00, 0x05, b't', b'h', b'i', b'r', b'd', // "third"
    ]
}

#[test]
fn test_string_deserialization() {
    let data: Vec<u8> = vec![0x00, 0x05, b'H', b'e', b'l', b'l', b'o'];
    let (result, _) = read_bytes(LenKind::I16, &data, 0).unwrap();
    assert_eq!(result, b"Hello".to_vec());
}

#[test]
fn test_kafka_header_deserialization() {
    let header: Vec<u8> = vec![0x00, 0x00, 0x00, 0x07];
    let (collation_id, _) = read_i32(&header, 0).unwrap();
    assert_eq!(collation_id, 7);
}

#[test]
fn test_deserializer() {
    let data: Vec<u8> = vec![
        0, 0, 0, 42, // a: i32 = 42
        1, // b: bool = true
        0, 5, // c: String length = 5
        b'H', b'e', b'l', b'l', b'o', // c: String = "Hello"
    ];
    let (a, p) = read_i32(&data, 0).unwrap();
    let (b, p) = read_bool(&data, p).unwrap();
    let (c, _) = read_bytes(LenKind::I16, &data, p).unwrap();
    assert_eq!((a, b, c), (42, true, b"Hello".to_vec()));

    let data: Vec<u8> = vec![
        0, 0, 0, 10, // a: i32 = 10
        0, // b: bool = false
        0, 5, // c: String length = 5
        b'W', b'o', b'r', b'l', b'd', // c: String = "World"
    ];
    let (a, p) = read_i32(&data, 0).unwrap();
    let (b, p) = read_bool(&data, p).unwrap();
    let (c, _) = read_bytes(LenKind::I16, &data, p).unwrap();
    assert_eq!((a, b, c), (10, false, b"World".to_vec()));
}

#[test]
fn test_serializer() {
    let mut buffer = Vec::new();
    write_i32(42, &mut buffer);
    write_bytes(LenKind::I16, b"Hello", &mut buffer);
    write_bool(true, &mut buffer);
    let expected: Vec<u8> = vec![
        0, 0, 0, 42, // i32
        0, 5, // length of string
        72, 101, 108, 108, 111, // "Hello"
        1, // bool
    ];
    assert_eq!(buffer, expected);
}

#[test]
fn test_compact_string_serialization() {
    let mut buf: Vec<u8> = Vec::new();
    write_bytes(LenKind::Uvarint, b"hello", &mut buf);
    assert_eq!(buf, vec![6, b'h', b'e', b'l', b'l', b'o']);
}

#[test]
fn test_compact_string_deserialization() {
    let data = vec![6, b'h', b'e', b'l', b'l', b'o'];
    let (v, _) = read_bytes(LenKind::Uvarint, &data, 0).unwrap();
    assert_eq!(v, b"hello".to_vec());
}

#[test]
fn test_compact_string_byte_size() {
    assert_eq!(bytes_size(LenKind::Uvarint, b"hello"), 6);
}

#[test]
fn test_nullable_string_serialization() {
    let mut buf: Vec<u8> = Vec::new();
    write_nullable_bytes(LenKind::I16, &None, &mut buf);
    assert_eq!(buf, vec![0xFF, 0xFF]);

    let mut buf: Vec<u8> = Vec::new();
    write_nullable_bytes(LenKind::I16, &Some(b"hi".to_vec()), &mut buf);
    assert_eq!(buf, vec![0x00, 0x02, b'h', b'i']);
}

#[test]
fn test_nullable_string_deserialization() {
    let data = vec![0xFF, 0xFF];
    let (v, _) = read_nullable_bytes(LenKind::I16, &data, 0).unwrap();
    assert_eq!(v, None);

    let data = vec![0x00, 0x02, b'h', b'i'];
    let (v, _) = read_nullable_bytes(LenKind::I16, &data, 0).unwrap();
    assert_eq!(v, Some(b"hi".to_vec()));
}

#[test]
fn test_nullable_string_byte_size() {
    assert_eq!(nullable_bytes_size(LenKind::I16, &None), 2);
    assert_eq!(nullable_bytes_size(LenKind::I16, &Some(b"hi".to_vec())), 4);
}

#[test]
fn test_compact_nullable_string_serialization() {
    let mut buf: Vec<u8> = Vec::new();
    write_nullable_bytes(LenKind::Uvarint, &None, &mut buf);
    assert_eq!(buf, vec![0]);

    let mut buf: Vec<u8> = Vec::new();
    write_nullable_bytes(LenKind::Uvarint, &Some(b"hi".to_vec()), &mut buf);
    assert_eq!(buf, vec![3, b'h', b'i']);
}

#[test]
fn test_compact_nullable_string_deserialization() {
    let data = vec![0];
    let (v, _) = read_nullable_bytes(LenKind::Uvarint, &data, 0).unwrap();
    assert_eq!(v, None);

    let data = vec![3, b'h', b'i'];
    let (v, _) = read_nullable_bytes(LenKind::Uvarint, &data, 0).unwrap();
    assert_eq!(v, Some(b"hi".to_vec()));
}

#[test]
fn test_compact_nullable_string_byte_size() {
    assert_eq!(nullable_bytes_size(LenKind::Uvarint, &None), 1);
    assert_eq!(nullable_bytes_size(LenKind::Uvarint, &Some(b"hi".to_vec())), 3);
}

#[test]
fn test_bytes_serialization() {
    let mut buf: Vec<u8> = Vec::new();
    write_bytes(LenKind::I32, &[1, 2, 3], &mut buf);
    assert_eq!(buf, vec![0, 0, 0, 3, 1, 2, 3]);
}

#[test]
fn test_bytes_deserialization() {
    let data = vec![0, 0, 0, 3, 1, 2, 3];
    let (v, _) = read_bytes(LenKind::I32, &data, 0).unwrap();
    assert_eq!(v, vec![1, 2, 3]);
}

#[test]
fn test_bytes_byte_size() {
    assert_eq!(bytes_size(LenKind::I32, &[1, 2, 3]), 7);
}

#[test]
fn test_compact_bytes_serialization() {
    let mut buf: Vec<u8> = Vec::new();
    write_bytes(LenKind::Uvarint, &[1, 2, 3], &mut buf);
    assert_eq!(buf, vec![4, 1, 2, 3]);
}

#[test]
fn test_compact_bytes_deserialization() {
    let data = vec![4, 1, 2, 3];
    let (v, _) = read_bytes(LenKind::Uvarint, &data, 0).unwrap();
    assert_eq!(v, vec![1, 2, 3]);
}

#[test]
fn test_compact_bytes_byte_size() {
    assert_eq!(bytes_size(LenKind::Uvarint, &[1, 2, 3]), 4);
}

#[test]
fn test_nullable_bytes_serialization() {
    let mut buf: Vec<u8> = Vec::new();
    write_nullable_bytes(LenKind::I32, &None, &mut buf);
    assert_eq!(buf, vec![0xFF, 0xFF, 0xFF, 0xFF]);

    let mut buf: Vec<u8> = Vec::new();
    write_nullable_bytes(LenKind::I32, &Some(vec![1, 2, 3]), &mut buf);
    assert_eq!(buf, vec![0, 0, 0, 3, 1, 2, 3]);
}

#[test]
fn test_nullable_bytes_deserialization() {
    let data = vec![0xFF, 0xFF, 0xFF, 0xFF];
    let (v, _) = read_nullable_bytes(LenKind::I32, &data, 0).unwrap();
    assert_eq!(v, None);

    let data = vec![0, 0, 0, 3, 1, 2, 3];
    let (v, _) = read_nullable_bytes(LenKind::I32, &data, 0).unwrap();
    assert_eq!(v, Some(vec![1, 2, 3]));
}

#[test]
fn test_nullable_bytes_byte_size() {
    assert_eq!(nullable_bytes_size(LenKind::I32, &None), 4);
    assert_eq!(nullable_bytes_size(LenKind::I32, &Some(vec![1, 2, 3])), 7);
}

#[test]
fn test_compact_nullable_bytes_serialization() {
    let mut buf: Vec<u8> = Vec::new();
    write_nullable_bytes(LenKind::Uvarint, &None, &mut buf);
    assert_eq!(buf, vec![0]);

    let mut buf: Vec<u8> = Vec::new();
    write_nullable_bytes(LenKind::Uvarint, &Some(vec![1, 2, 3]), &mut buf);
    assert_eq!(buf, vec![4, 1, 2, 3]);
}

#[test]
fn test_compact_nullable_bytes_deserialization() {
    let data = vec![0];
    let (v, _) = read_nullable_bytes(LenKind::Uvarint, &data, 0).unwrap();
    assert_eq!(v, None);

    let data = vec![4, 1, 2, 3];
    let (v, _) = read_nullable_bytes(LenKind::Uvarint, &data, 0).unwrap();
    assert_eq!(v, Some(vec![1, 2, 3]));
}

#[test]
fn test_compact_nullable_bytes_byte_size() {
    assert_eq!(nullable_bytes_size(LenKind::Uvarint, &None), 1);
    assert_eq!(nullable_bytes_size(LenKind::Uvarint, &Some(vec![1, 2, 3])), 4);
}

#[test]
fn test_array_serialization() {
    let mut buf: Vec<u8> = Vec::new();
    write_seq(LenKind::I32, &Some(strings(&["first", "second", "third"])), &mut buf);
    let mut expected = vec![0x00, 0x00, 0x00, 0x03];
    expected.extend(first_second_third());
    assert_eq!(buf, expected);

    let mut buf: Vec<u8> = Vec::new();
    write_seq::<KafkaString>(LenKind::I32, &None, &mut buf);
    assert_eq!(buf, vec![0xFF, 0xFF, 0xFF, 0xFF]);
}

#[test]
fn test_array_deserialization() {
    let mut data = vec![0x00, 0x00, 0x00, 0x03];
    data.extend(first_second_third());
    let (v, _) = read_seq::<KafkaString>(LenKind::I32, &data, 0).unwrap();
    assert_eq!(v, Some(strings(&["first", "second", "third"])));

    let data = vec![0xFF, 0xFF, 0xFF, 0xFF];
    let (v, _) = read_seq::<KafkaString>(LenKind::I32, &data, 0).unwrap();
    assert_eq!(v, None);
}

#[test]
fn test_array_byte_size() {
    let v = Some(strings(&["first", "second", "third"]));
    assert_eq!(seq_size(LenKind::I32, &v), 4 + 7 + 8 + 7);
    assert_eq!(seq_size::<KafkaString>(LenKind::I32, &None), 4);
}

#[test]
fn test_compact_array_serialization() {
    let mut buf: Vec<u8> = Vec::new();
    write_seq(LenKind::Uvarint, &Some(strings(&["first", "second", "third"])), &mut buf);
    let mut expected = vec![0x04];
    expected.extend(first_second_third());
    assert_eq!(buf, expected);

    let mut buf: Vec<u8> = Vec::new();
    write_seq::<KafkaString>(LenKind::Uvarint, &None, &mut buf);
    assert_eq!(buf, vec![0]);
}

#[test]
fn test_compact_array_deserialization() {
    let mut data = vec![0x04];
    data.extend(first_second_third());
    let (v, _) = read_seq::<KafkaString>(LenKind::Uvarint, &data, 0).unwrap();
    assert_eq!(v, Some(strings(&["first", "second", "third"])));

    let data = vec![0];
    let (v, _) = read_seq::<KafkaString>(LenKind::Uvarint, &data, 0).unwrap();
    assert_eq!(v, None);
}

#[test]
fn test_compact_array_byte_size() {
    let v = Some(strings(&["first", "second", "third"]));
    assert_eq!(seq_size(LenKind::Uvarint, &v), 1 + 7 + 8 + 7);
    assert_eq!(seq_size::<KafkaString>(LenKind::Uvarint, &None), 1);
}

#[test]
fn test_kafka_array_serialization() {
    let mut buffer = Vec::new();
    write_seq(LenKind::I32, &Some(strings(&["first", "second", "third"])), &mut buffer);
    let mut expected_bytes = vec![0x00, 0x00, 0x00, 0x03];
    expected_bytes.extend(first_second_third());
    assert_eq!(buffer, expected_bytes);

    let mut buffer_none = Vec::new();
    write_seq::<KafkaString>(LenKind::I32, &None, &mut buffer_none);
    assert_eq!(buffer_none, vec![0xFF, 0xFF, 0xFF, 0xFF]);
}

#[test]
fn test_kafka_array_deserialization() {
    let mut data = vec![0x00, 0x00, 0x00, 0x03];
    data.extend(first_second_third());
    let (result, _) = read_seq::<KafkaString>(LenKind::I32, &data, 0).unwrap();
    assert_eq!(result, Some(strings(&["first", "second", "third"])));

    let data_none: Vec<u8> = vec![0xFF, 0xFF, 0xFF, 0xFF];
    let (result_none, _) = read_seq::<KafkaString>(LenKind::I32, &data_none, 0).unwrap();
    assert_eq!(result_none, None);
}

#[test]
fn test_kafka_compact_array_serialization() {
    let mut buffer = Vec::new();
    write_seq(LenKind::Uvarint, &Some(strings(&["first", "second", "third"])), &mut buffer);
    let mut expected_bytes = vec![0x04];
    expected_bytes.extend(first_second_third());
    assert_eq!(buffer, expected_bytes);

    let mut buffer_none = Vec::new();
    write_seq::<KafkaString>(LenKind::Uvarint, &None, &mut buffer_none);
    assert_eq!(buffer_none, vec![0x00]);
}

#[test]
fn test_kafka_compact_array_deserialization() {
    let mut data = vec![0x04];
    data.extend(first_second_third());
    let (result, _) = read_seq::<KafkaString>(LenKind::Uvarint, &data, 0).unwrap();
    assert_eq!(result, Some(strings(&["first", "second", "third"])));

    let data_none: Vec<u8> = vec![0x00];
    let (result_none, _) = read_seq::<KafkaString>(LenKind::Uvarint, &data_none, 0).unwrap();
    assert_eq!(result_none, None);
}

#[test]
fn test_kafka_bytes_serialization() {
    let mut buf = Vec::new();
    write_bytes(LenKind::I32, b"Hello", &mut buf);
    assert_eq!(buf, vec![0x00, 0x00, 0x00, 0x05, b'H', b'e', b'l', b'l', b'o']);
}

#[test]
fn test_kafka_bytes_deserialization() {
    let data: Vec<u8> = vec![0x00, 0x00, 0x00, 0x05, b'H', b'e', b'l', b'l', b'o'];
    let (result, _) = read_bytes(LenKind::I32, &data, 0).unwrap();
    assert_eq!(result, b"Hello".to_vec());
}

#[test]
fn test_kafka_compact_bytes_serialization() {
    let mut buf = Vec::new();
    write_bytes(LenKind::Uvarint, b"World", &mut buf);
    assert_eq!(buf, vec![0x06, b'W', b'o', b'r', b'l', b'd']);
}

#[test]
fn test_kafka_compact_bytes_deserialization() {
    let data: Vec<u8> = vec![0x06, b'W', b'o', b'r', b'l', b'd'];
    let (result, _) = read_bytes(LenKind::Uvarint, &data, 0).unwrap();
    assert_eq!(result, b"World".to_vec());
}

#[test]
fn test_kafka_nullable_bytes_serialization() {
    let mut buf = Vec::new();
    write_nullable_bytes(LenKind::I32, &Some(b"Nullable".to_vec()), &mut buf);
    assert_eq!(
        buf,
        vec![0x00, 0x00, 0x00, 0x08, b'N', b'u', b'l', b'l', b'a', b'b', b'l', b'e']
    );

    let mut buf_none = Vec::new();
    write_nullable_bytes(LenKind::I32, &None, &mut buf_none);
    assert_eq!(buf_none, vec![0xFF, 0xFF, 0xFF, 0xFF]);
}

#[test]
fn test_kafka_nullable_bytes_deserialization() {
    let data: Vec<u8> = vec![
        0x00, 0x00, 0x00, 0x08, b'N', b'u', b'l', b'l', b'a', b'b', b'l', b'e',
    ];
    let (result, _) = read_nullable_bytes(LenKind::I32, &data, 0).unwrap();
    assert_eq!(result, Some(b"Nullable".to_vec()));

    let data_none: Vec<u8> = vec![0xFF, 0xFF, 0xFF, 0xFF];
    let (result_none, _) = read_nullable_bytes(LenKind::I32, &data_none, 0).unwrap();
    assert_eq!(result_none, None);
}

#[test]
fn test_kafka_compact_nullable_bytes_serialization() {
    let mut buf = Vec::new();
    write_nullable_bytes(LenKind::Uvarint, &Some(b"Compact".to_vec()), &mut buf);
    assert_eq!(buf, vec![0x08, b'C', b'o', b'm', b'p', b'a', b'c', b't']);

    let mut buf_none = Vec::new();
    write_nullable_bytes(LenKind::Uvarint, &None, &mut buf_none);
    assert_eq!(buf_none, vec![0x00]);
}

#[test]
fn test_kafka_compact_nullable_bytes_deserialization() {
    let data: Vec<u8> = vec![0x08, b'C', b'o', b'm', b'p', b'a', b'c', b't'];
    let (result, _) = read_nullable_bytes(LenKind::Uvarint, &data, 0).unwrap();
    assert_eq!(result, Some(b"Compact".to_vec()));

    let data_none: Vec<u8> = vec![0x00];
    let (result_none, _) = read_nullable_bytes(LenKind::Uvarint, &data_none, 0).unwrap();
    assert_eq!(result_none, None);
}

#[test]
fn test_kafka_compact_str_serialization() {
    let mut buffer: Vec<u8> = Vec::new();
    write_bytes(LenKind::Uvarint, b"hello", &mut buffer);
    assert_eq!(buffer, vec![6u8, b'h', b'e', b'l', b'l', b'o']);
}

#[test]
fn test_kafka_compact_str_deserialization() {
    let data: Vec<u8> = vec![6u8, b'h', b'e', b'l', b'l', b'o'];
    let (result, _) = read_bytes(LenKind::Uvarint, &data, 0).unwrap();
    assert_eq!(result, b"hello".to_vec());
}

#[test]
fn test_kafka_nullable_str_serialization() {
    let mut buffer: Vec<u8> = Vec::new();
    write_nullable_bytes(LenKind::I16, &Some(b"world".to_vec()), &mut buffer);
    assert_eq!(buffer, vec![0u8, 5u8, b'w', b'o', b'r', b'l', b'd']);

    let mut buffer_null: Vec<u8> = Vec::new();
    write_nullable_bytes(LenKind::I16, &None, &mut buffer_null);
    assert_eq!(buffer_null, vec![255u8, 255u8]);
}

#[test]
fn test_kafka_nullable_str_deserialization() {
    let data: Vec<u8> = vec![0u8, 5u8, b'w', b'o', b'r', b'l', b'd'];
    let (result, _) = read_nullable_bytes(LenKind::I16, &data, 0).unwrap();
    assert_eq!(result, Some(b"world".to_vec()));

    let data_null: Vec<u8> = vec![255u8, 255u8];
    let (result_null, _) = read_nullable_bytes(LenKind::I16, &data_null, 0).unwrap();
    assert_eq!(result_null, None);
}

#[test]
fn test_kafka_compact_nullable_str_serialization() {
    let mut buffer: Vec<u8> = Vec::new();
    write_nullable_bytes(LenKind::Uvarint, &Some(b"kafka".to_vec()), &mut buffer);
    assert_eq!(buffer, vec![6u8, b'k', b'a', b'f', b'k', b'a']);

    let mut buffer_null: Vec<u8> = Vec::new();
    write_nullable_bytes(LenKind::Uvarint, &None, &mut buffer_null);
    assert_eq!(buffer_null, vec![0u8]);
}

#[test]
fn test_kafka_compact_nullable_str_deserialization() {
    let data: Vec<u8> = vec![6u8, b'k', b'a', b'f', b'k', b'a'];
    let (result, _) = read_nullable_bytes(LenKind::Uvarint, &data, 0).unwrap();
    assert_eq!(result, Some(b"kafka".to_vec()));

    let data_null: Vec<u8> = vec![0u8];
    let (result_null, _) = read_nullable_bytes(LenKind::Uvarint, &data_null, 0).unwrap();
    assert_eq!(result_null, None);
}

#[test]
fn test_len_prefix_serialization() {
    let mut buf: Vec<u8> = Vec::new();
    write_bytes(LenKind::I16, b"hello", &mut buf);
    assert_eq!(buf, vec![0x00, 0x05, b'h', b'e', b'l', b'l', b'o']);

    let mut buf: Vec<u8> = Vec::new();
    write_bytes(LenKind::I32, b"world", &mut buf);
    assert_eq!(buf, vec![0x00, 0x00, 0x00, 0x05, b'w', b'o', b'r', b'l', b'd']);

    let mut buf: Vec<u8> = Vec::new();
    write_bytes(LenKind::Varint, b"varint", &mut buf);
    assert_eq!(buf, vec![0x0C, b'v', b'a', b'r', b'i', b'n', b't']);

    let mut buf: Vec<u8> = Vec::new();
    write_bytes(LenKind::Uvarint, b"uvarint", &mut buf);
    assert_eq!(buf, vec![0x08, b'u', b'v', b'a', b'r', b'i', b'n', b't']);

    let mut buf: Vec<u8> = Vec::new();
    write_nullable_bytes(LenKind::I32, &Some(b"optional".to_vec()), &mut buf);
    assert_eq!(
        buf,
        vec![0x00, 0x00, 0x00, 0x08, b'o', b'p', b't', b'i', b'o', b'n', b'a', b'l']
    );

    let mut buf: Vec<u8> = Vec::new();
    write_nullable_bytes(LenKind::I32, &None, &mut buf);
    assert_eq!(buf, vec![0xFF, 0xFF, 0xFF, 0xFF]);

    let mut buf: Vec<u8> = Vec::new();
    write_seq(LenKind::Uvarint, &Some(strings(&["one", "two", "three"])), &mut buf);
    assert_eq!(
        buf,
        vec![
            0x04, // length prefix (3 items + 1)
            0x00, 0x03, b'o', b'n', b'e', // "one"
            0x00, 0x03, b't', b'w', b'o', // "two"
            0x00, 0x05, b't', b'h', b'r', b'e', b'e' // "three"
        ]
    );

    let mut buf: Vec<u8> = Vec::new();
    write_seq::<KafkaString>(LenKind::Uvarint, &None, &mut buf);
    assert_eq!(buf, vec![0x00]);
}

#[test]
fn test_len_prefix_deserialization() {
    let buf = vec![0x00, 0x05, b'h', b'e', b'l', b'l', b'o'];
    assert_eq!(read_bytes(LenKind::I16, &buf, 0).unwrap().0, b"hello".to_vec());

    let buf = vec![0x00, 0x00, 0x00, 0x05, b'w', b'o', b'r', b'l', b'd'];
    assert_eq!(read_bytes(LenKind::I32, &buf, 0).unwrap().0, b"world".to_vec());

    let buf = vec![0x0C, b'v', b'a', b'r', b'i', b'n', b't'];
    assert_eq!(read_bytes(LenKind::Varint, &buf, 0).unwrap().0, b"varint".to_vec());

    let buf = vec![0x08, b'u', b'v', b'a', b'r', b'i', b'n', b't'];
    assert_eq!(read_bytes(LenKind::Uvarint, &buf, 0).unwrap().0, b"uvarint".to_vec());

    let buf = vec![
        0x00, 0x00, 0x00, 0x08, b'o', b'p', b't', b'i', b'o', b'n', b'a', b'l',
    ];
    assert_eq!(
        read_nullable_bytes(LenKind::I32, &buf, 0).unwrap().0,
        Some(b"optional".to_vec())
    );

    let buf = vec![0xFF, 0xFF, 0xFF, 0xFF];
    assert_eq!(read_nullable_bytes(LenKind::I32, &buf, 0).unwrap().0, None);

    let buf = vec![
        0x04, // length prefix (3 items + 1)
        0x00, 0x03, b'o', b'n', b'e', // "one"
        0x00, 0x03, b't', b'w', b'o', // "two"
        0x00, 0x05, b't', b'h', b'r', b'e', b'e', // "three"
    ];
    assert_eq!(
        read_seq::<KafkaString>(LenKind::Uvarint, &buf, 0).unwrap().0,
        Some(strings(&["one", "two", "three"]))
    );

    let buf = vec![0x00];
    assert_eq!(read_seq::<KafkaString>(LenKind::Uvarint, &buf, 0).unwrap().0, None);
}

#[test]
fn null_lengths_are_the_documented_sentinels() {
    let kinds = [
        (LenKind::I16, vec![0xFF, 0xFF]),
        (LenKind::I32, vec![0xFF, 0xFF, 0xFF, 0xFF]),
        (LenKind::Varint, vec![0x01]),
        (LenKind::Uvarint, vec![0x00]),
    ];
    for (k, sentinel) in kinds {
        let mut buf = Vec::new();
        write_nullable_bytes(k, &None, &mut buf);
        assert_eq!(buf, sentinel);
        let mut buf = Vec::new();
        write_seq::<KafkaString>(k, &None, &mut buf);
        assert_eq!(buf, sentinel);
    }
}

#[test]
fn round_trip_and_sizes_in_every_convention() {
    let long = vec![7u8; 300];
    for k in [LenKind::I16, LenKind::I32, LenKind::Varint, LenKind::Uvarint] {
        for b in [Vec::new(), b"x".to_vec(), long.clone()] {
            let mut buf = Vec::new();
            write_bytes(k, &b, &mut buf);
            assert_eq!(buf.len(), bytes_size(k, &b));
            buf.push(0xEE);
            assert_eq!(read_bytes(k, &buf, 0), Ok((b.clone(), buf.len() - 1)));
        }
    }
}

#[test]
fn non_nullable_null_is_a_protocol_violation() {
    assert_eq!(read_bytes(LenKind::Uvarint, &[0x00], 0), Err(KafkaError::ProtocolViolation));
    assert_eq!(read_bytes(LenKind::I16, &[0xFF, 0xFF], 0), Err(KafkaError::ProtocolViolation));
}

#[test]
fn short_input_is_truncated() {
    assert_eq!(read_bytes(LenKind::Uvarint, &[0x06, b'h'], 0), Err(KafkaError::Truncated));
    assert_eq!(read_i32(&[0, 0, 0], 0), Err(KafkaError::Truncated));
    assert_eq!(
        read_seq::<KafkaString>(LenKind::I32, &[0, 0, 0, 2, 0, 1, b'a'], 0),
        Err(KafkaError::Truncated)
    );
}

#[test]
fn uuid_is_sixteen_raw_bytes() {
    let id = Uuid::new(0x0011_2233_4455_6677_8899_AABB_CCDD_EEFF);
    let mut buf = Vec::new();
    id.encode(&mut buf);
    assert_eq!(
        buf,
        vec![
            0x00, 0x11, 0x22, 0x33, 0x44, 0x55, 0x66, 0x77, 0x88, 0x99, 0xAA, 0xBB, 0xCC, 0xDD,
            0xEE, 0xFF
        ]
    );
    assert_eq!(id.byte_size(), 16);
}

#[test]
fn tagged_fields_round_trip_verbatim() {
    let tags = TaggedFields::new(vec![Tag::new(3, vec![1, 2]), Tag::new(200, vec![])]);
    let mut buf = Vec::new();
    tags.encode(&mut buf);
    assert_eq!(buf, vec![0x02, 0x03, 0x02, 1, 2, 0xC8, 0x01, 0x00]);
    assert_eq!(tags.byte_size(), buf.len());
    assert_eq!(TaggedFields::decode(&buf, 0), Ok((tags, buf.len())));
    let mut empty = Vec::new();
    TaggedFields::empty().encode(&mut empty);
    assert_eq!(empty, vec![0x00]);
}

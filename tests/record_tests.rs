use kafka_core::records::{
    read_value_object, write_value_object, FeatureLevel, Record, RecordBatch, RecordVariant,
    Value, RECORD_TYPE_FEATURE_LEVEL,
};
use kafka_core::{read_batches, read_metadata_records, Codec, Encode, KafkaError, TaggedFields};

fn feature_level_value() -> Value {
    Value {
        frame_version: 1,
        record_type: RECORD_TYPE_FEATURE_LEVEL,
        version: 0,
        payload: RecordVariant::FeatureLevel(FeatureLevel {
            name: b"metadata.version".to_vec(),
            level: 20,
        }),
        tagged_fields: TaggedFields::empty(),
    }
}

fn feature_level_record() -> Record {
    Record {
        length: 29,
        attributes: 0,
        timestamp_delta: 0,
        offset_delta: 0,
        key: None,
        value: feature_level_value(),
        headers: None,
    }
}

fn record_bytes() -> Vec<u8> {
    vec![
        0x3A, // # length: Varint = 29
        0x00, // # attributes: u8 = 0
        0x00, // # timestamp_delta: VarLong = 0
        0x00, // # offset_delta: Varint = 0
        0x01, // # key length: Varint = -1 (null)
        0x2E, // # value length: Varint = 23
        0x01, // ## frame version: u8 = 1
        0x0C, // ## type: u8 = 12
        0x00, // ## version: u8 = 0
        0x11, // ## name length: Uvarint = 17
        0x6D, 0x65, 0x74, 0x61, 0x64, 0x61, 0x74, 0x61, 0x2E, 0x76, 0x65, 0x72, 0x73, 0x69, 0x6F,
        0x6E, // ## name: "metadata.version"
        0x00, 0x14, // ## feature level: i16 = 20
        0x00, // ## tagged fields length: Uvarint = 0
        0x00, // # headers length: Varint = 0
    ]
}

fn batch_bytes() -> Vec<u8> {
    let mut data: Vec<u8> = vec![
        0x00, 0x00, 0x00, 0x00, 0x00, 0x00, 0x00, 0x00, // base_offset: i64 = 0
        0x00, 0x00, 0x00, 0x4F, // batch_length: i32 = 79
        0x00, 0x00, 0x00, 0x01, // partition_leader_epoch: i32 = 1
        0x02, // magic: u8 = 2
        0xB0, 0x69, 0x45, 0x7C, // crc: u32 = 0xB069457C
        0x00, 0x00, // attributes: i16 = 0
        0x00, 0x00, 0x00, 0x00, // last_offset_delta: i32 = 0
        0x00, 0x00, 0x01, 0x91, 0xE0, 0x5A, 0xF8, 0x18, // first_timestamp
        0x00, 0x00, 0x01, 0x91, 0xE0, 0x5A, 0xF8, 0x18, // max_timestamp
        0xFF, 0xFF, 0xFF, 0xFF, 0xFF, 0xFF, 0xFF, 0xFF, // producer_id: i64 = -1
        0xFF, 0xFF, // producer_epoch: i16 = -1
        0xFF, 0xFF, 0xFF, 0xFF, // base_sequence: i32 = -1
        0x00, 0x00, 0x00, 0x01, // record count: i32 = 1
    ];
    data.extend(record_bytes());
    data
}

fn feature_level_batch() -> RecordBatch {
    RecordBatch {
        base_offset: 0,
        batch_length: 79,
        partition_leader_epoch: 1,
        magic: 2,
        crc: 0xB069457C,
        attributes: 0,
        last_offset_delta: 0,
        first_timestamp: 1726045943832,
        max_timestamp: 1726045943832,
        producer_id: -1,
        producer_epoch: -1,
        base_sequence: -1,
        records: Some(vec![feature_level_record()]),
    }
}

#[test]
fn test_record_deserialization() {
    let data = record_bytes();
    let (record, end) = Record::decode(&data, 0).unwrap();
    assert_eq!(record, feature_level_record());
    assert_eq!(end, data.len());
}

#[test]
fn test_record_batch_deserialization() {
    let data = batch_bytes();
    let record_batch = read_batches(&data).unwrap();
    assert_eq!(record_batch, vec![feature_level_batch()]);
}

#[test]
fn test_value_serialization() {
    let v = feature_level_value();
    let mut buf = Vec::new();
    v.encode(&mut buf);
    let value_bytes: Vec<u8> = vec![
        0x01, // frame_version
        0x0C, // type
        0x00, // version
        0x11, // name length of FeatureLevel (16 + 1 for compact encoding)
        0x6D, 0x65, 0x74, 0x61, 0x64, 0x61, 0x74, 0x61, 0x2E, 0x76, 0x65, 0x72, 0x73, 0x69, 0x6F,
        0x6E, // "metadata.version"
        0x00, 0x14, // level
        0x00, // tagged_fields
    ];
    assert_eq!(buf, value_bytes);

    let mut buf = Vec::new();
    write_value_object(&v, &mut buf);
    let mut expected = vec![0x2E]; // length of Value (23 in varint)
    expected.extend(value_bytes);
    assert_eq!(buf, expected);
}

#[test]
fn test_value_deserialization() {
    let data = vec![
        0x01, 0x0C, 0x00, 0x11, 0x6D, 0x65, 0x74, 0x61, 0x64, 0x61, 0x74, 0x61, 0x2E, 0x76, 0x65,
        0x72, 0x73, 0x69, 0x6F, 0x6E, 0x00, 0x14, 0x00,
    ];
    let (v, _) = Value::decode(&data, 0).unwrap();
    assert_eq!(v, feature_level_value());

    let mut data_with_length = vec![0x2E];
    data_with_length.extend(data);
    let (v, end) = read_value_object(&data_with_length, 0).unwrap();
    assert_eq!(v, feature_level_value());
    assert_eq!(end, 24);
}

#[test]
fn record_batch_re_encodes_to_the_same_bytes() {
    let data = batch_bytes();
    let batches = read_batches(&data).unwrap();
    let mut out = Vec::new();
    batches[0].encode(&mut out);
    assert_eq!(out, data);
    assert_eq!(batches[0].byte_size(), data.len());
}

#[test]
fn metadata_records_are_the_payloads_in_order() {
    let mut log = batch_bytes();
    log.extend(batch_bytes());
    let payloads = read_metadata_records(&log).unwrap();
    assert_eq!(payloads.len(), 2);
    assert_eq!(payloads[0], feature_level_value().payload);
    assert_eq!(read_metadata_records(&[]).unwrap(), Vec::new());
}

#[test]
fn log_ending_inside_a_batch_is_truncated() {
    let data = batch_bytes();
    assert_eq!(read_batches(&data[..data.len() - 1]), Err(KafkaError::Truncated));
    assert_eq!(read_batches(&data[..10]), Err(KafkaError::Truncated));
}

#[test]
fn unknown_record_type_is_rejected() {
    let mut data = record_bytes();
    data[7] = 0x09;
    assert_eq!(Record::decode(&data, 0), Err(KafkaError::InvalidEnum { value: 9 }));
}

#[test]
fn record_is_read_up_to_its_declared_length() {
    // The declared length covers one trailing byte that no field reads.
    let mut data = record_bytes();
    data[0] = 0x3C; // 30
    data.push(0x77);
    data.push(0x55);
    let (record, end) = Record::decode(&data, 0).unwrap();
    assert_eq!(end, data.len() - 1);
    assert_eq!(record.length, 30);
}

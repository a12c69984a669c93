use kafka_core::varint::write_varint;
use kafka_core::describe_topic_partitions::{DescribeTopicPartitionsRequest, RequestTopic};
use kafka_core::fetch::{FetchRequest, FetchRequestPartition, FetchRequestTopic};
use kafka_core::records::{FeatureLevel, Partition, Record, RecordBatch, Topic, Value};
use kafka_core::{
    handle, needs_metadata, route_request, unsupported_response, Encode, KafkaError,
    RecordVariant, RequestHeaderV1, RequestHeaderV2, TaggedFields, Uuid,
};

fn frame_of(message: &kafka_core::Message) -> Vec<u8> {
    let mut out = Vec::new();
    message.send(&mut out).unwrap();
    out
}

fn v2_header(api_key: i16, api_version: i16, correlation_id: i32) -> Vec<u8> {
    let header = RequestHeaderV2 {
        api_key,
        api_version,
        correlation_id,
        client_id: Some(b"kafka-cli".to_vec()),
        tagged_fields: TaggedFields::empty(),
    };
    let mut out = Vec::new();
    header.encode(&mut out);
    out
}

fn record_of(payload: RecordVariant) -> Record {
    let value = Value {
        frame_version: 1,
        record_type: payload.record_type(),
        version: 0,
        payload,
        tagged_fields: TaggedFields::empty(),
    };
    let value_size = value.byte_size();
    let mut value_length = Vec::new();
    write_varint(value_size as i32, &mut value_length);
    // attributes, timestamp delta, offset delta, null key, value, null headers
    let length = (1 + 1 + 1 + 1 + value_length.len() + value_size + 1) as i32;
    Record {
        length,
        attributes: 0,
        timestamp_delta: 0,
        offset_delta: 0,
        key: None,
        value,
        headers: None,
    }
}

fn log_of(payloads: Vec<RecordVariant>) -> Vec<u8> {
    let batch = RecordBatch {
        base_offset: 0,
        batch_length: 0,
        partition_leader_epoch: 1,
        magic: 2,
        crc: 0,
        attributes: 0,
        last_offset_delta: 0,
        first_timestamp: 0,
        max_timestamp: 0,
        producer_id: -1,
        producer_epoch: -1,
        base_sequence: -1,
        records: Some(payloads.into_iter().map(record_of).collect()),
    };
    let mut out = Vec::new();
    batch.encode(&mut out);
    out
}

fn topic(name: &str, id: u128) -> RecordVariant {
    RecordVariant::Topic(Topic { name: name.as_bytes().to_vec(), topic_id: Uuid::new(id) })
}

fn partition(id: u128, index: i32, leader: i32, leader_epoch: i32) -> RecordVariant {
    RecordVariant::Partition(Partition {
        partition_id: index,
        topic_id: Uuid::new(id),
        replicas: Some(vec![1, 2]),
        isr: Some(vec![1, 2]),
        removing_replicas: Some(vec![]),
        adding_replicas: Some(vec![]),
        leader,
        leader_epoch,
        partition_epoch: 0,
        directories: Some(vec![Uuid::new(7)]),
    })
}

fn feature_level() -> RecordVariant {
    RecordVariant::FeatureLevel(FeatureLevel { name: b"metadata.version".to_vec(), level: 20 })
}

fn describe_request(correlation_id: i32, names: &[&str]) -> Vec<u8> {
    let mut bytes = v2_header(75, 0, correlation_id);
    let body = DescribeTopicPartitionsRequest {
        topics: Some(
            names
                .iter()
                .map(|n| RequestTopic {
                    name: n.as_bytes().to_vec(),
                    tagged_fields: TaggedFields::empty(),
                })
                .collect(),
        ),
        tagged_fields: TaggedFields::empty(),
    };
    body.encode(&mut bytes);
    bytes
}

fn fetch_request(correlation_id: i32, topics: Vec<FetchRequestTopic>) -> Vec<u8> {
    let mut bytes = v2_header(1, 16, correlation_id);
    let body = FetchRequest {
        max_wait_ms: 500,
        min_bytes: 1,
        max_bytes: 1024,
        isolation_level: 0,
        session_id: 0,
        session_epoch: -1,
        topics: Some(topics),
        forgotten_topics: Some(vec![]),
        rack_id: vec![],
        tagged_fields: TaggedFields::empty(),
    };
    body.encode(&mut bytes);
    bytes
}

fn size_prefixed(content: Vec<u8>) -> Vec<u8> {
    let mut out = (content.len() as i32).to_be_bytes().to_vec();
    out.extend(content);
    out
}

fn answered_topic(error: i16, name: &str, id: u128, partitions: Vec<Vec<u8>>) -> Vec<u8> {
    let mut out = error.to_be_bytes().to_vec();
    out.push(name.len() as u8 + 1);
    out.extend(name.as_bytes());
    out.extend(id.to_be_bytes());
    out.push(0); // is_internal
    out.push(partitions.len() as u8 + 1);
    for p in partitions {
        out.extend(p);
    }
    out.extend([0, 0, 0, 0]); // topic_authorized_operations
    out.push(0); // tagged fields
    out
}

fn answered_partition(index: i32, leader: i32, leader_epoch: i32) -> Vec<u8> {
    let mut out = vec![0, 0];
    out.extend(index.to_be_bytes());
    out.extend(leader.to_be_bytes());
    out.extend(leader_epoch.to_be_bytes());
    out.extend([3, 0, 0, 0, 1, 0, 0, 0, 2]); // replicas [1, 2]
    out.extend([3, 0, 0, 0, 1, 0, 0, 0, 2]); // isr [1, 2]
    out.extend([0, 0, 0]); // eligible, last known, offline: null
    out.push(0); // tagged fields
    out
}

fn describe_response(correlation_id: i32, topics: Vec<Vec<u8>>) -> Vec<u8> {
    let mut content = correlation_id.to_be_bytes().to_vec();
    content.push(0); // header tagged fields
    content.extend([0, 0, 0, 0]); // throttle
    content.push(topics.len() as u8 + 1);
    for t in topics {
        content.extend(t);
    }
    content.push(0xFF); // next cursor: null
    content.push(0); // tagged fields
    size_prefixed(content)
}

#[test]
fn api_versions_unknown_version_is_answered_with_unsupported_version() {
    // api_key=18, api_version=5, correlation_id=7, client_id="", no tagged fields
    let request = vec![0x00, 0x12, 0x00, 0x05, 0x00, 0x00, 0x00, 0x07, 0x00, 0x00, 0x00];
    let response = handle(&request, &[]).unwrap();
    let expected = size_prefixed(vec![
        0, 0, 0, 7, // correlation id, header v0
        0, 35, // UNSUPPORTED_VERSION
        1, // empty compact array
        0, 0, 0, 0, // throttle
        0, // tagged fields
    ]);
    assert_eq!(frame_of(&response), expected);
}

#[test]
fn api_versions_v4_lists_the_supported_apis() {
    let request = v2_header(18, 4, 42);
    let response = handle(&request, &[]).unwrap();
    let expected = size_prefixed(vec![
        0, 0, 0, 42, // correlation id, header v0
        0, 0, // no error
        3, // two entries
        0, 18, 0, 0, 0, 4, 0, // ApiVersions 0..=4
        0, 75, 0, 0, 0, 0, 0, // DescribeTopicPartitions 0..=0
        0, 0, 0, 0, // throttle
        0, // tagged fields
    ]);
    assert_eq!(frame_of(&response), expected);
}

#[test]
fn api_versions_v0_uses_a_plain_array() {
    let header = RequestHeaderV1 { api_key: 18, api_version: 0, correlation_id: 3, client_id: None };
    let mut request = Vec::new();
    header.encode(&mut request);
    let response = handle(&request, &[]).unwrap();
    let expected = size_prefixed(vec![
        0, 0, 0, 3, 0, 0, 0, 0, 0, 2, 0, 18, 0, 0, 0, 4, 0, 75, 0, 0, 0, 0,
    ]);
    assert_eq!(frame_of(&response), expected);
}

#[test]
fn describe_unknown_topic() {
    let log = log_of(vec![feature_level(), topic("bar", 0xB)]);
    let response = handle(&describe_request(11, &["foo"]), &log).unwrap();
    let expected = describe_response(11, vec![answered_topic(3, "foo", 0, vec![])]);
    assert_eq!(frame_of(&response), expected);
}

#[test]
fn describe_known_topic_with_two_partitions() {
    let u = 0x1234_5678_9ABC_DEF0_0FED_CBA9_8765_4321u128;
    let log = log_of(vec![
        feature_level(),
        topic("bar", u),
        partition(u, 0, 1, 5),
        partition(0x99, 0, 4, 4),
        partition(u, 1, 2, 6),
    ]);
    let response = handle(&describe_request(12, &["bar"]), &log).unwrap();
    let expected = describe_response(
        12,
        vec![answered_topic(
            0,
            "bar",
            u,
            vec![answered_partition(0, 1, 5), answered_partition(1, 2, 6)],
        )],
    );
    assert_eq!(frame_of(&response), expected);
}

#[test]
fn describe_sorts_topics_by_name() {
    let log = log_of(vec![topic("alpha", 0xA), topic("zeta", 0xF)]);
    let response = handle(&describe_request(13, &["zeta", "alpha"]), &log).unwrap();
    let expected = describe_response(
        13,
        vec![answered_topic(0, "alpha", 0xA, vec![]), answered_topic(0, "zeta", 0xF, vec![])],
    );
    assert_eq!(frame_of(&response), expected);
}

#[test]
fn describe_with_a_broken_log_fails() {
    let request = describe_request(14, &["foo"]);
    assert_eq!(handle(&request, &[0, 0, 0]), Err(KafkaError::Truncated));
}

#[test]
fn fetch_with_no_topics_does_not_need_the_log() {
    let request = fetch_request(21, vec![]);
    assert!(!needs_metadata(&route_request(&request).unwrap()));
    // The log is unreadable, and is not read.
    let response = handle(&request, &[1, 2, 3]).unwrap();
    let expected = size_prefixed(vec![
        0, 0, 0, 21, 0, // header v1
        0, 0, 0, 0, // throttle
        0, 0, // no error
        0, 0, 0, 0, // session id
        1, // no responses
        0, // tagged fields
    ]);
    assert_eq!(frame_of(&response), expected);
}

fn fetch_partition_request(index: i32) -> FetchRequestPartition {
    FetchRequestPartition {
        partition_index: index,
        current_leader_epoch: 0,
        fetch_offset: 0,
        last_fetched_epoch: 0,
        log_start_offset: 0,
        partition_max_bytes: 1024,
        tagged_fields: TaggedFields::empty(),
    }
}

fn fetch_expected(correlation_id: i32, id: u128, error: i16, preferred: i32, records: u8) -> Vec<u8> {
    let mut content = correlation_id.to_be_bytes().to_vec();
    content.push(0);
    content.extend([0, 0, 0, 0, 0, 0, 0, 0, 0, 0]); // throttle, error, session id
    content.push(2); // one topic
    content.extend(id.to_be_bytes());
    content.push(2); // one partition
    content.extend([0, 0, 0, 0]); // partition index 0
    content.extend(error.to_be_bytes());
    content.extend([0u8; 24]); // high watermark, last stable offset, log start offset
    content.push(0); // aborted transactions: null
    content.extend(preferred.to_be_bytes());
    content.push(records);
    content.push(0); // partition tagged fields
    content.push(0); // topic tagged fields
    content.push(0); // tagged fields
    size_prefixed(content)
}

#[test]
fn fetch_unknown_topic_id() {
    let u = 0xABCDu128;
    let request = fetch_request(
        22,
        vec![FetchRequestTopic {
            id: Uuid::new(u),
            partitions: Some(vec![fetch_partition_request(0)]),
            tagged_fields: TaggedFields::empty(),
        }],
    );
    let log = log_of(vec![feature_level(), topic("bar", 0x1)]);
    let response = handle(&request, &log).unwrap();
    assert_eq!(frame_of(&response), fetch_expected(22, u, 100, 0, 0));
}

#[test]
fn fetch_known_partition_gets_empty_records() {
    let u = 0x51u128;
    let request = fetch_request(
        23,
        vec![FetchRequestTopic {
            id: Uuid::new(u),
            partitions: Some(vec![fetch_partition_request(0)]),
            tagged_fields: TaggedFields::empty(),
        }],
    );
    let log = log_of(vec![topic("bar", u), partition(u, 0, 1, 1)]);
    let response = handle(&request, &log).unwrap();
    assert_eq!(frame_of(&response), fetch_expected(23, u, 0, -1, 1));
}

#[test]
fn unknown_api_key_is_answered_with_unsupported_version() {
    let request = v2_header(99, 0, 31);
    let err = route_request(&request).unwrap_err();
    assert_eq!(err, KafkaError::UnsupportedApiKey { api_key: 99 });
    let response = unsupported_response(&request, err).unwrap();
    assert_eq!(frame_of(&response), vec![0, 0, 0, 6, 0, 0, 0, 31, 0, 35]);
}

#[test]
fn unsupported_version_of_a_served_api() {
    let request = v2_header(75, 3, 32);
    assert_eq!(
        route_request(&request),
        Err(KafkaError::UnsupportedVersion { api_key: 75, api_version: 3 })
    );
    let request = v2_header(1, 12, 33);
    let err = route_request(&request).unwrap_err();
    assert_eq!(err, KafkaError::UnsupportedVersion { api_key: 1, api_version: 12 });
    assert!(unsupported_response(&request, err).is_some());
}

#[test]
fn request_too_short_for_its_header() {
    assert_eq!(route_request(&[0, 18]), Err(KafkaError::Truncated));
    assert_eq!(route_request(&[0, 18, 0, 4, 0, 0]), Err(KafkaError::Truncated));
    assert!(unsupported_response(&[0, 18], KafkaError::Truncated).is_none());
}

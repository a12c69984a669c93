//! The core of a server for a subset of the Apache Kafka wire protocol: the
//! binary codec, the metadata-log decoder, request routing and the
//! ApiVersions, DescribeTopicPartitions and Fetch handlers.
pub mod api_versions;
pub mod array;
pub mod codec;
pub mod describe_topic_partitions;
pub mod error;
pub mod error_code;
pub mod fetch;
pub mod header;
pub mod laws;
pub mod message;
pub mod primitives;
pub mod records;
pub mod router;
pub mod tagged;
pub mod varint;

pub use codec::{Codec, Encode, KafkaString, LenKind};
pub use error::KafkaError;
pub use error_code::ErrorCode;
pub use header::{RequestHeader, RequestHeaderV1, RequestHeaderV2, ResponseHeader};
pub use message::{frame_size, read_frame, Message, ResponseBody};
pub use primitives::Uuid;
pub use records::{read_batches, read_metadata_records, RecordVariant};
pub use router::{handle, needs_metadata, respond, route_request, unsupported_response, Request};
pub use tagged::{Tag, TaggedFields};
pub use varint::{
    decode_varint_i32, decode_varint_u64, encode_varint_i32, encode_varint_u64,
    read_varint_bytes, LengthBytes,
};

//! Request routing: reads a request frame's header and body, answers it, and
//! turns an unsupported API into an error-coded response.
use vstd::prelude::*;

use crate::api_versions::{
    api_versions_body, make_api_versions_body, API_KEY_API_VERSIONS,
    API_KEY_DESCRIBE_TOPIC_PARTITIONS, API_KEY_FETCH,
};
use crate::array::seq_view;
use crate::codec::{parse_i16, parse_i32, read_i16, read_i32, Codec, Encode};
use crate::describe_topic_partitions::{
    describe, describe_body, DescribeTopicPartitionsRequest, DescribeTopicPartitionsRequestModel,
};
use crate::error::KafkaError;
use crate::error_code::ErrorCode;
use crate::fetch::{fetch, fetch_body, fetch_is_empty, or_empty, FetchRequest, FetchRequestModel};
use crate::header::{
    header_correlation_id, parse_request_header, RequestHeader, RequestHeaderModel,
    ResponseHeader, ResponseHeaderModel,
};
use crate::message::{Message, MessageModel, ResponseBody, ResponseBodyModel};
use crate::records::{
    all_payloads, parse_batches, read_metadata_records, RecordVariant, RecordVariantModel,
};

verus! {

/// A request, read and checked against the APIs this server answers.
#[derive(Debug, Clone, PartialEq, Eq)]
pub enum Request {
    ApiVersions { header: RequestHeader, api_version: i16 },
    DescribeTopicPartitions { header: RequestHeader, body: DescribeTopicPartitionsRequest },
    Fetch { header: RequestHeader, body: FetchRequest },
}

/// The model of a [`Request`].
pub enum RequestModel {
    ApiVersions { header: RequestHeaderModel, api_version: i16 },
    DescribeTopicPartitions {
        header: RequestHeaderModel,
        body: DescribeTopicPartitionsRequestModel,
    },
    Fetch { header: RequestHeaderModel, body: FetchRequestModel },
}

impl View for Request {
    type V = RequestModel;

    open spec fn view(&self) -> RequestModel {
        match self {
            Request::ApiVersions { header, api_version } => RequestModel::ApiVersions {
                header: header@,
                api_version: *api_version,
            },
            Request::DescribeTopicPartitions { header, body } =>
                RequestModel::DescribeTopicPartitions { header: header@, body: body@ },
            Request::Fetch { header, body } => RequestModel::Fetch {
                header: header@,
                body: body@,
            },
        }
    }
}

/// Reads a request (a frame's bytes, without the size): its API key and
/// version decide the header's shape and the body's type. ApiVersions takes
/// every version (0 to 2 with the older header); DescribeTopicPartitions
/// takes version 0 and Fetch version 16.
pub open spec fn parse_request(s: Seq<u8>) -> Result<RequestModel, KafkaError> {
    if s.len() < 4 {
        Err(KafkaError::Truncated)
    } else {
        let key = parse_i16(s, 0)->Ok_0.0;
        let version = parse_i16(s, 2)->Ok_0.0;
        if key == API_KEY_API_VERSIONS {
            match parse_request_header(s, 0, !(0 <= version <= 2)) {
                Ok((h, _)) => Ok(RequestModel::ApiVersions { header: h, api_version: version }),
                Err(e) => Err(e),
            }
        } else if key == API_KEY_DESCRIBE_TOPIC_PARTITIONS {
            if version != 0 {
                Err(KafkaError::UnsupportedVersion { api_key: key, api_version: version })
            } else {
                match parse_request_header(s, 0, true) {
                    Ok((h, j)) => match DescribeTopicPartitionsRequest::parse(s, j) {
                        Ok((b, _)) => Ok(RequestModel::DescribeTopicPartitions { header: h, body: b }),
                        Err(e) => Err(e),
                    },
                    Err(e) => Err(e),
                }
            }
        } else if key == API_KEY_FETCH {
            if version != 16 {
                Err(KafkaError::UnsupportedVersion { api_key: key, api_version: version })
            } else {
                match parse_request_header(s, 0, true) {
                    Ok((h, j)) => match FetchRequest::parse(s, j) {
                        Ok((b, _)) => Ok(RequestModel::Fetch { header: h, body: b }),
                        Err(e) => Err(e),
                    },
                    Err(e) => Err(e),
                }
            }
        } else {
            Err(KafkaError::UnsupportedApiKey { api_key: key })
        }
    }
}

/// Whether answering needs the cluster metadata: DescribeTopicPartitions
/// does, and so does a Fetch that names a topic.
pub open spec fn needs_metadata_spec(r: RequestModel) -> bool {
    match r {
        RequestModel::ApiVersions { .. } => false,
        RequestModel::DescribeTopicPartitions { .. } => true,
        RequestModel::Fetch { body, .. } => or_empty(body.topics).len() > 0,
    }
}

/// The response to a request, given the metadata records. ApiVersions is
/// answered with the older header shape even for flexible versions.
pub open spec fn respond_spec(r: RequestModel, rs: Seq<RecordVariantModel>) -> MessageModel {
    match r {
        RequestModel::ApiVersions { header, api_version } => MessageModel {
            header: ResponseHeaderModel::V0 { correlation_id: header_correlation_id(header) },
            body: Some(ResponseBodyModel::ApiVersions(api_versions_body(api_version))),
        },
        RequestModel::DescribeTopicPartitions { header, body } => MessageModel {
            header: ResponseHeaderModel::V1 {
                correlation_id: header_correlation_id(header),
                tagged_fields: Seq::empty(),
            },
            body: Some(ResponseBodyModel::DescribeTopicPartitions(describe_body(rs, body))),
        },
        RequestModel::Fetch { header, body } => MessageModel {
            header: ResponseHeaderModel::V1 {
                correlation_id: header_correlation_id(header),
                tagged_fields: Seq::empty(),
            },
            body: Some(ResponseBodyModel::Fetch(fetch_body(rs, body))),
        },
    }
}

/// What handling a request frame gives, with `log` the metadata log's bytes.
pub open spec fn handle_spec(s: Seq<u8>, log: Seq<u8>) -> Result<MessageModel, KafkaError> {
    match parse_request(s) {
        Err(e) => Err(e),
        Ok(r) => if needs_metadata_spec(r) {
            match parse_batches(log, 0) {
                Ok(bs) => Ok(respond_spec(r, all_payloads(bs))),
                Err(e) => Err(e),
            }
        } else {
            Ok(respond_spec(r, Seq::empty()))
        },
    }
}

/// Reads a request frame's bytes into a typed request.
pub fn route_request(bytes: &[u8]) -> (r: Result<Request, KafkaError>)
    ensures
        match r {
            Ok(req) => parse_request(bytes@) == Ok::<RequestModel, KafkaError>(req@),
            Err(e) => parse_request(bytes@) == Err::<RequestModel, KafkaError>(e),
        },
{
    if bytes.len() < 4 {
        return Err(KafkaError::Truncated);
    }
    let (api_key, _) = match read_i16(bytes, 0) {
        Ok(x) => x,
        Err(e) => return Err(e),
    };
    let (api_version, _) = match read_i16(bytes, 2) {
        Ok(x) => x,
        Err(e) => return Err(e),
    };
    if api_key == API_KEY_API_VERSIONS {
        let flexible = !(0 <= api_version && api_version <= 2);
        match RequestHeader::from_reader(bytes, 0, flexible) {
            Ok((header, _)) => Ok(Request::ApiVersions { header, api_version }),
            Err(e) => Err(e),
        }
    } else if api_key == API_KEY_DESCRIBE_TOPIC_PARTITIONS {
        if api_version != 0 {
            return Err(KafkaError::UnsupportedVersion { api_key, api_version });
        }
        let (header, p) = match RequestHeader::from_reader(bytes, 0, true) {
            Ok(x) => x,
            Err(e) => return Err(e),
        };
        match DescribeTopicPartitionsRequest::decode(bytes, p) {
            Ok((body, _)) => Ok(Request::DescribeTopicPartitions { header, body }),
            Err(e) => Err(e),
        }
    } else if api_key == API_KEY_FETCH {
        if api_version != 16 {
            return Err(KafkaError::UnsupportedVersion { api_key, api_version });
        }
        let (header, p) = match RequestHeader::from_reader(bytes, 0, true) {
            Ok(x) => x,
            Err(e) => return Err(e),
        };
        match FetchRequest::decode(bytes, p) {
            Ok((body, _)) => Ok(Request::Fetch { header, body }),
            Err(e) => Err(e),
        }
    } else {
        Err(KafkaError::UnsupportedApiKey { api_key })
    }
}

/// Whether answering `req` needs the cluster metadata.
pub fn needs_metadata(req: &Request) -> (r: bool)
    ensures
        r == needs_metadata_spec(req@),
{
    match req {
        Request::ApiVersions { .. } => false,
        Request::DescribeTopicPartitions { .. } => true,
        Request::Fetch { body, .. } => !fetch_is_empty(body),
    }
}

/// The response to `req`, given the metadata records.
pub fn respond(req: &Request, records: &Vec<RecordVariant>) -> (r: Message)
    ensures
        r@ == respond_spec(req@, seq_view(records@)),
        Message::writable(r@),
{
    match req {
        Request::ApiVersions { header, api_version } => {
            let body = make_api_versions_body(*api_version);
            Message::new(
                ResponseHeader::new_v0(header.collaration_id()),
                Some(ResponseBody::ApiVersions(body)),
            )
        },
        Request::DescribeTopicPartitions { header, body } => {
            let answer = describe(records, body);
            Message::new(
                ResponseHeader::new_v1(header.collaration_id()),
                Some(ResponseBody::DescribeTopicPartitions(answer)),
            )
        },
        Request::Fetch { header, body } => {
            let answer = fetch(records, body);
            Message::new(
                ResponseHeader::new_v1(header.collaration_id()),
                Some(ResponseBody::Fetch(answer)),
            )
        },
    }
}

/// Handles one request frame: reads it, reads the metadata log `log` if the
/// answer needs it, and builds the response.
pub fn handle(bytes: &[u8], log: &[u8]) -> (r: Result<Message, KafkaError>)
    ensures
        match r {
            Ok(m) => handle_spec(bytes@, log@) == Ok::<MessageModel, KafkaError>(m@),
            Err(e) => handle_spec(bytes@, log@) == Err::<MessageModel, KafkaError>(e),
        },
{
    let req = match route_request(bytes) {
        Ok(x) => x,
        Err(e) => return Err(e),
    };
    if needs_metadata(&req) {
        match read_metadata_records(log) {
            Ok(records) => Ok(respond(&req, &records)),
            Err(e) => Err(e),
        }
    } else {
        let none: Vec<RecordVariant> = Vec::new();
        let r = respond(&req, &none);
        assert(seq_view(none@) =~= Seq::<RecordVariantModel>::empty());
        Ok(r)
    }
}

/// The best-effort answer to a request that names an API or a version that is
/// not served: a bare `UnsupportedVersion` code under the request's
/// correlation id, if its header holds one. Any other error gets no answer.
pub fn unsupported_response(bytes: &[u8], err: KafkaError) -> (r: Option<Message>)
    ensures
        match r {
            Some(m) => {
                &&& (err is UnsupportedApiKey || err is UnsupportedVersion)
                &&& parse_i32(bytes@, 4) is Ok
                &&& m@ == (MessageModel {
                    header: ResponseHeaderModel::V0 {
                        correlation_id: parse_i32(bytes@, 4)->Ok_0.0,
                    },
                    body: Some(ResponseBodyModel::Error(ErrorCode::UnsupportedVersion)),
                })
            },
            None => !(err is UnsupportedApiKey || err is UnsupportedVersion) || parse_i32(
                bytes@,
                4,
            ) is Err,
        },
{
    match err {
        KafkaError::UnsupportedApiKey { .. } | KafkaError::UnsupportedVersion { .. } => {
            match read_i32(bytes, 4) {
                Ok((correlation_id, _)) => Some(
                    Message::new(
                        ResponseHeader::new_v0(correlation_id),
                        Some(ResponseBody::Error(ErrorCode::UnsupportedVersion)),
                    ),
                ),
                Err(_) => None,
            }
        },
        _ => None,
    }
}

} // verus!

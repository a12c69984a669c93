//! The ApiVersions API: which APIs this server answers, and in which versions.
use vstd::prelude::*;

use crate::array::{opt_seq_view, seq_size, seq_wire, seq_writable, write_seq};
use crate::codec::{wire_i16, wire_i32, write_i16, write_i32, Encode, LenKind};
use crate::error_code::{error_code_value, ErrorCode};
use crate::primitives::lemma_concat_assoc;
use crate::tagged::TaggedFields;

verus! {

/// The API key of Fetch.
pub const API_KEY_FETCH: i16 = 1;

/// The API key of ApiVersions.
pub const API_KEY_API_VERSIONS: i16 = 18;

/// The API key of DescribeTopicPartitions.
pub const API_KEY_DESCRIBE_TOPIC_PARTITIONS: i16 = 75;

/// One supported API and its version range, in the non-flexible shape.
#[derive(Debug, Clone, PartialEq, Eq)]
pub struct ApiVersionV1 {
    pub api_key: i16,
    pub min_version: i16,
    pub max_version: i16,
}

/// The model of a [`ApiVersionV1`].
pub struct ApiVersionV1Model {
    pub api_key: i16,
    pub min_version: i16,
    pub max_version: i16,
}

impl View for ApiVersionV1 {
    type V = ApiVersionV1Model;

    open spec fn view(&self) -> ApiVersionV1Model {
        ApiVersionV1Model {
            api_key: self.api_key,
            min_version: self.min_version,
            max_version: self.max_version,
        }
    }
}

impl Encode for ApiVersionV1 {
    open spec fn writable(v: ApiVersionV1Model) -> bool {
        true
    }

    open spec fn wire(v: ApiVersionV1Model) -> Seq<u8> {
        wire_i16(v.api_key)
            + wire_i16(v.min_version)
            + wire_i16(v.max_version)
    }

    fn byte_size(&self) -> (r: usize) {
        2 + 2 + 2
    }

    fn encode(&self, out: &mut Vec<u8>) {
        let ghost o = old(out)@;
        let ghost v = self@;
        write_i16(self.api_key, out);
        let ghost w = wire_i16(v.api_key);
        write_i16(self.min_version, out);
        proof {
            lemma_concat_assoc(o, w, wire_i16(v.min_version));
            w = w + wire_i16(v.min_version);
        }
        write_i16(self.max_version, out);
        proof {
            lemma_concat_assoc(o, w, wire_i16(v.max_version));
        }
    }
}

/// One supported API and its version range, in the flexible shape.
#[derive(Debug, Clone, PartialEq, Eq)]
pub struct ApiVersionV2 {
    pub api_key: i16,
    pub min_version: i16,
    pub max_version: i16,
    pub tagged_fields: TaggedFields,
}

/// The model of a [`ApiVersionV2`].
pub struct ApiVersionV2Model {
    pub api_key: i16,
    pub min_version: i16,
    pub max_version: i16,
    pub tagged_fields: Seq<(u32, Seq<u8>)>,
}

impl View for ApiVersionV2 {
    type V = ApiVersionV2Model;

    open spec fn view(&self) -> ApiVersionV2Model {
        ApiVersionV2Model {
            api_key: self.api_key,
            min_version: self.min_version,
            max_version: self.max_version,
            tagged_fields: self.tagged_fields@,
        }
    }
}

impl Encode for ApiVersionV2 {
    open spec fn writable(v: ApiVersionV2Model) -> bool {
        TaggedFields::writable(v.tagged_fields)
    }

    open spec fn wire(v: ApiVersionV2Model) -> Seq<u8> {
        wire_i16(v.api_key)
            + wire_i16(v.min_version)
            + wire_i16(v.max_version)
            + TaggedFields::wire(v.tagged_fields)
    }

    fn byte_size(&self) -> (r: usize) {
        2 + 2 + 2 + self.tagged_fields.byte_size()
    }

    fn encode(&self, out: &mut Vec<u8>) {
        let ghost o = old(out)@;
        let ghost v = self@;
        write_i16(self.api_key, out);
        let ghost w = wire_i16(v.api_key);
        write_i16(self.min_version, out);
        proof {
            lemma_concat_assoc(o, w, wire_i16(v.min_version));
            w = w + wire_i16(v.min_version);
        }
        write_i16(self.max_version, out);
        proof {
            lemma_concat_assoc(o, w, wire_i16(v.max_version));
            w = w + wire_i16(v.max_version);
        }
        self.tagged_fields.encode(out);
        proof {
            lemma_concat_assoc(o, w, TaggedFields::wire(v.tagged_fields));
        }
    }
}

/// The body of an ApiVersions response, in the shape of its version.
#[derive(Debug, Clone, PartialEq, Eq)]
pub enum ApiVersionsResponseBody {
    /// Version 0.
    V0 { error_code: ErrorCode, api_versions: Option<Vec<ApiVersionV1>> },
    /// Versions 1 and 2.
    V1 { error_code: ErrorCode, api_versions: Option<Vec<ApiVersionV1>>, throttle_time_ms: i32 },
    /// Versions 3 and up: compact array, tagged fields.
    V3 {
        error_code: ErrorCode,
        api_versions: Option<Vec<ApiVersionV2>>,
        throttle_time_ms: i32,
        tagged_fields: TaggedFields,
    },
}

/// The model of an [`ApiVersionsResponseBody`].
pub enum ApiVersionsResponseBodyModel {
    V0 { error_code: ErrorCode, api_versions: Option<Seq<ApiVersionV1Model>> },
    V1 {
        error_code: ErrorCode,
        api_versions: Option<Seq<ApiVersionV1Model>>,
        throttle_time_ms: i32,
    },
    V3 {
        error_code: ErrorCode,
        api_versions: Option<Seq<ApiVersionV2Model>>,
        throttle_time_ms: i32,
        tagged_fields: Seq<(u32, Seq<u8>)>,
    },
}

impl View for ApiVersionsResponseBody {
    type V = ApiVersionsResponseBodyModel;

    open spec fn view(&self) -> ApiVersionsResponseBodyModel {
        match self {
            ApiVersionsResponseBody::V0 { error_code, api_versions } =>
                ApiVersionsResponseBodyModel::V0 {
                error_code: *error_code,
                api_versions: opt_seq_view(api_versions),
            },
            ApiVersionsResponseBody::V1 { error_code, api_versions, throttle_time_ms } =>
                ApiVersionsResponseBodyModel::V1 {
                error_code: *error_code,
                api_versions: opt_seq_view(api_versions),
                throttle_time_ms: *throttle_time_ms,
            },
            ApiVersionsResponseBody::V3 {
                error_code,
                api_versions,
                throttle_time_ms,
                tagged_fields,
            } => ApiVersionsResponseBodyModel::V3 {
                error_code: *error_code,
                api_versions: opt_seq_view(api_versions),
                throttle_time_ms: *throttle_time_ms,
                tagged_fields: tagged_fields@,
            },
        }
    }
}

impl Encode for ApiVersionsResponseBody {
    open spec fn writable(v: ApiVersionsResponseBodyModel) -> bool {
        match v {
            ApiVersionsResponseBodyModel::V0 { api_versions, .. } => seq_writable::<ApiVersionV1>(
                LenKind::I32,
                api_versions,
            ),
            ApiVersionsResponseBodyModel::V1 { api_versions, .. } => seq_writable::<ApiVersionV1>(
                LenKind::I32,
                api_versions,
            ),
            ApiVersionsResponseBodyModel::V3 { api_versions, tagged_fields, .. } => seq_writable::<
                ApiVersionV2,
            >(LenKind::Uvarint, api_versions) && TaggedFields::writable(tagged_fields),
        }
    }

    open spec fn wire(v: ApiVersionsResponseBodyModel) -> Seq<u8> {
        match v {
            ApiVersionsResponseBodyModel::V0 { error_code, api_versions } => wire_i16(
                error_code_value(error_code),
            ) + seq_wire::<ApiVersionV1>(LenKind::I32, api_versions),
            ApiVersionsResponseBodyModel::V1 { error_code, api_versions, throttle_time_ms } =>
                wire_i16(error_code_value(error_code)) + seq_wire::<ApiVersionV1>(
                LenKind::I32,
                api_versions,
            ) + wire_i32(throttle_time_ms),
            ApiVersionsResponseBodyModel::V3 {
                error_code,
                api_versions,
                throttle_time_ms,
                tagged_fields,
            } => wire_i16(error_code_value(error_code)) + seq_wire::<ApiVersionV2>(
                LenKind::Uvarint,
                api_versions,
            ) + wire_i32(throttle_time_ms) + TaggedFields::wire(tagged_fields),
        }
    }

    fn byte_size(&self) -> (r: usize) {
        match self {
            ApiVersionsResponseBody::V0 { api_versions, .. } => 2 + seq_size(
                LenKind::I32,
                api_versions,
            ),
            ApiVersionsResponseBody::V1 { api_versions, .. } => 2 + seq_size(
                LenKind::I32,
                api_versions,
            ) + 4,
            ApiVersionsResponseBody::V3 { api_versions, tagged_fields, .. } => 2 + seq_size(
                LenKind::Uvarint,
                api_versions,
            ) + 4 + tagged_fields.byte_size(),
        }
    }

    fn encode(&self, out: &mut Vec<u8>) {
        match self {
            ApiVersionsResponseBody::V0 { error_code, api_versions } => {
                write_i16(error_code.code(), out);
                write_seq(LenKind::I32, api_versions, out);
            },
            ApiVersionsResponseBody::V1 { error_code, api_versions, throttle_time_ms } => {
                write_i16(error_code.code(), out);
                write_seq(LenKind::I32, api_versions, out);
                write_i32(*throttle_time_ms, out);
            },
            ApiVersionsResponseBody::V3 {
                error_code,
                api_versions,
                throttle_time_ms,
                tagged_fields,
            } => {
                write_i16(error_code.code(), out);
                write_seq(LenKind::Uvarint, api_versions, out);
                write_i32(*throttle_time_ms, out);
                tagged_fields.encode(out);
            },
        }
        assert(out@ =~= old(out)@ + Self::wire(self@));
    }
}

/// The APIs advertised to versions 0 to 2: ApiVersions 0 to 4 and
/// DescribeTopicPartitions 0.
pub open spec fn supported_v1() -> Seq<ApiVersionV1Model> {
    seq![
        ApiVersionV1Model { api_key: API_KEY_API_VERSIONS, min_version: 0, max_version: 4 },
        ApiVersionV1Model {
            api_key: API_KEY_DESCRIBE_TOPIC_PARTITIONS,
            min_version: 0,
            max_version: 0,
        },
    ]
}

/// The same APIs, in the flexible shape for versions 3 and up.
pub open spec fn supported_v2() -> Seq<ApiVersionV2Model> {
    seq![
        ApiVersionV2Model {
            api_key: API_KEY_API_VERSIONS,
            min_version: 0,
            max_version: 4,
            tagged_fields: Seq::empty(),
        },
        ApiVersionV2Model {
            api_key: API_KEY_DESCRIBE_TOPIC_PARTITIONS,
            min_version: 0,
            max_version: 0,
            tagged_fields: Seq::empty(),
        },
    ]
}

pub fn supported_versions_v1() -> (r: Vec<ApiVersionV1>)
    ensures
        r@.map_values(|x: ApiVersionV1| x@) == supported_v1(),
{
    let r = vec![
        ApiVersionV1 { api_key: API_KEY_API_VERSIONS, min_version: 0, max_version: 4 },
        ApiVersionV1 { api_key: API_KEY_DESCRIBE_TOPIC_PARTITIONS, min_version: 0, max_version: 0 },
    ];
    assert(r@.map_values(|x: ApiVersionV1| x@) =~= supported_v1());
    r
}

pub fn supported_versions_v2() -> (r: Vec<ApiVersionV2>)
    ensures
        r@.map_values(|x: ApiVersionV2| x@) == supported_v2(),
{
    let r = vec![
        ApiVersionV2 {
            api_key: API_KEY_API_VERSIONS,
            min_version: 0,
            max_version: 4,
            tagged_fields: TaggedFields::empty(),
        },
        ApiVersionV2 {
            api_key: API_KEY_DESCRIBE_TOPIC_PARTITIONS,
            min_version: 0,
            max_version: 0,
            tagged_fields: TaggedFields::empty(),
        },
    ];
    assert(r@.map_values(|x: ApiVersionV2| x@) =~= supported_v2());
    r
}

/// The ApiVersions response body for a request of version `v`: the supported
/// APIs for versions 0 to 4, and an empty list with `UnsupportedVersion`
/// for any other version.
pub open spec fn api_versions_body(v: i16) -> ApiVersionsResponseBodyModel {
    if v == 0 {
        ApiVersionsResponseBodyModel::V0 {
            error_code: ErrorCode::NoError,
            api_versions: Some(supported_v1()),
        }
    } else if v == 1 || v == 2 {
        ApiVersionsResponseBodyModel::V1 {
            error_code: ErrorCode::NoError,
            api_versions: Some(supported_v1()),
            throttle_time_ms: 0,
        }
    } else if v == 3 || v == 4 {
        ApiVersionsResponseBodyModel::V3 {
            error_code: ErrorCode::NoError,
            api_versions: Some(supported_v2()),
            throttle_time_ms: 0,
            tagged_fields: Seq::empty(),
        }
    } else {
        ApiVersionsResponseBodyModel::V3 {
            error_code: ErrorCode::UnsupportedVersion,
            api_versions: Some(Seq::empty()),
            throttle_time_ms: 0,
            tagged_fields: Seq::empty(),
        }
    }
}

/// Builds the ApiVersions response body for a request of version `api_version`.
pub fn make_api_versions_body(api_version: i16) -> (r: ApiVersionsResponseBody)
    ensures
        r@ == api_versions_body(api_version),
{
    if api_version == 0 {
        ApiVersionsResponseBody::V0 {
            error_code: ErrorCode::NoError,
            api_versions: Some(supported_versions_v1()),
        }
    } else if api_version == 1 || api_version == 2 {
        ApiVersionsResponseBody::V1 {
            error_code: ErrorCode::NoError,
            api_versions: Some(supported_versions_v1()),
            throttle_time_ms: 0,
        }
    } else if api_version == 3 || api_version == 4 {
        ApiVersionsResponseBody::V3 {
            error_code: ErrorCode::NoError,
            api_versions: Some(supported_versions_v2()),
            throttle_time_ms: 0,
            tagged_fields: TaggedFields::empty(),
        }
    } else {
        let empty: Vec<ApiVersionV2> = Vec::new();
        let r = ApiVersionsResponseBody::V3 {
            error_code: ErrorCode::UnsupportedVersion,
            api_versions: Some(empty),
            throttle_time_ms: 0,
            tagged_fields: TaggedFields::empty(),
        };
        assert(opt_seq_view(&Some(empty)) =~= Some(Seq::<ApiVersionV2Model>::empty()));
        r
    }
}

} // verus!

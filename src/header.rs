//! Request and response headers.
use vstd::prelude::*;

use crate::codec::{
    len_fits, len_writable, lemma_i16_round_trip, lemma_i32_round_trip,
    lemma_nullable_bytes_round_trip, nullable_bytes_size, nullable_bytes_wire, opt_bytes_view,
    parse_i16, parse_i32, parse_nullable_bytes, parsed_as, read_i16, read_i32,
    read_nullable_bytes, wire_i16, wire_i32, write_i16, write_i32, write_nullable_bytes, Codec,
    Encode, LenKind,
};
use crate::error::KafkaError;
use crate::primitives::{lemma_concat_assoc, lemma_holds_split};
use crate::tagged::TaggedFields;

verus! {

/// The header of a request to a non-flexible API version.
#[derive(Debug, Clone, PartialEq, Eq)]
pub struct RequestHeaderV1 {
    pub api_key: i16,
    pub api_version: i16,
    pub correlation_id: i32,
    pub client_id: Option<Vec<u8>>,
}

/// The model of a [`RequestHeaderV1`].
pub struct RequestHeaderV1Model {
    pub api_key: i16,
    pub api_version: i16,
    pub correlation_id: i32,
    pub client_id: Option<Seq<u8>>,
}

impl View for RequestHeaderV1 {
    type V = RequestHeaderV1Model;

    open spec fn view(&self) -> RequestHeaderV1Model {
        RequestHeaderV1Model {
            api_key: self.api_key,
            api_version: self.api_version,
            correlation_id: self.correlation_id,
            client_id: opt_bytes_view(&self.client_id),
        }
    }
}

impl Encode for RequestHeaderV1 {
    open spec fn writable(v: RequestHeaderV1Model) -> bool {
        (v.client_id matches Some(b) ==> len_writable(LenKind::I16, b.len()))
    }

    open spec fn wire(v: RequestHeaderV1Model) -> Seq<u8> {
        wire_i16(v.api_key)
            + wire_i16(v.api_version)
            + wire_i32(v.correlation_id)
            + nullable_bytes_wire(LenKind::I16, v.client_id)
    }

    fn byte_size(&self) -> (r: usize) {
        2 + 2 + 4 + nullable_bytes_size(LenKind::I16, &self.client_id)
    }

    fn encode(&self, out: &mut Vec<u8>) {
        let ghost o = old(out)@;
        let ghost v = self@;
        write_i16(self.api_key, out);
        let ghost w = wire_i16(v.api_key);
        write_i16(self.api_version, out);
        proof {
            lemma_concat_assoc(o, w, wire_i16(v.api_version));
            w = w + wire_i16(v.api_version);
        }
        write_i32(self.correlation_id, out);
        proof {
            lemma_concat_assoc(o, w, wire_i32(v.correlation_id));
            w = w + wire_i32(v.correlation_id);
        }
        write_nullable_bytes(LenKind::I16, &self.client_id, out);
        proof {
            lemma_concat_assoc(o, w, nullable_bytes_wire(LenKind::I16, v.client_id));
        }
    }
}

impl Codec for RequestHeaderV1 {
    open spec fn valid(v: RequestHeaderV1Model) -> bool {
        (v.client_id matches Some(b) ==> len_fits(LenKind::I16, b.len()))
    }

    open spec fn parse(s: Seq<u8>, i: int) -> Result<(RequestHeaderV1Model, int), KafkaError> {
        match parse_i16(s, i) {
            Err(e) => Err(e),
            Ok((api_key, i)) => match parse_i16(s, i) {
                Err(e) => Err(e),
                Ok((api_version, i)) => match parse_i32(s, i) {
                    Err(e) => Err(e),
                    Ok((correlation_id, i)) => match parse_nullable_bytes(LenKind::I16, s, i) {
                        Err(e) => Err(e),
                        Ok((client_id, i)) => Ok(
                            (
                                RequestHeaderV1Model {
                                    api_key,
                                    api_version,
                                    correlation_id,
                                    client_id,
                                },
                                i,
                            ),
                        ),
                    },
                },
            },
        }
    }

    proof fn lemma_round_trip(v: RequestHeaderV1Model, s: Seq<u8>, i: int) {
        let w0 = wire_i16(v.api_key);
        let w1 = wire_i16(v.api_version);
        let w2 = wire_i32(v.correlation_id);
        let w3 = nullable_bytes_wire(LenKind::I16, v.client_id);
        lemma_holds_split(s, i, w0 + w1 + w2, w3);
        lemma_holds_split(s, i, w0 + w1, w2);
        lemma_holds_split(s, i, w0, w1);
        let p0 = i;
        let p1 = p0 + w0.len();
        let p2 = p1 + w1.len();
        let p3 = p2 + w2.len();
        lemma_i16_round_trip(v.api_key, s, p0);
        lemma_i16_round_trip(v.api_version, s, p1);
        lemma_i32_round_trip(v.correlation_id, s, p2);
        lemma_nullable_bytes_round_trip(LenKind::I16, v.client_id, s, p3);
    }

    fn decode(buf: &[u8], pos: usize) -> (r: Result<(RequestHeaderV1, usize), KafkaError>) {
        let p = pos;
        let (api_key, p) = match read_i16(buf, p) {
            Ok(x) => x,
            Err(e) => return Err(e),
        };
        let (api_version, p) = match read_i16(buf, p) {
            Ok(x) => x,
            Err(e) => return Err(e),
        };
        let (correlation_id, p) = match read_i32(buf, p) {
            Ok(x) => x,
            Err(e) => return Err(e),
        };
        let (client_id, p) = match read_nullable_bytes(LenKind::I16, buf, p) {
            Ok(x) => x,
            Err(e) => return Err(e),
        };
        Ok((RequestHeaderV1 { api_key, api_version, correlation_id, client_id }, p))
    }
}

/// The header of a request to a flexible API version.
#[derive(Debug, Clone, PartialEq, Eq)]
pub struct RequestHeaderV2 {
    pub api_key: i16,
    pub api_version: i16,
    pub correlation_id: i32,
    pub client_id: Option<Vec<u8>>,
    pub tagged_fields: TaggedFields,
}

/// The model of a [`RequestHeaderV2`].
pub struct RequestHeaderV2Model {
    pub api_key: i16,
    pub api_version: i16,
    pub correlation_id: i32,
    pub client_id: Option<Seq<u8>>,
    pub tagged_fields: Seq<(u32, Seq<u8>)>,
}

impl View for RequestHeaderV2 {
    type V = RequestHeaderV2Model;

    open spec fn view(&self) -> RequestHeaderV2Model {
        RequestHeaderV2Model {
            api_key: self.api_key,
            api_version: self.api_version,
            correlation_id: self.correlation_id,
            client_id: opt_bytes_view(&self.client_id),
            tagged_fields: self.tagged_fields@,
        }
    }
}

impl Encode for RequestHeaderV2 {
    open spec fn writable(v: RequestHeaderV2Model) -> bool {
        (v.client_id matches Some(b) ==> len_writable(LenKind::I16, b.len()))
        && TaggedFields::writable(v.tagged_fields)
    }

    open spec fn wire(v: RequestHeaderV2Model) -> Seq<u8> {
        wire_i16(v.api_key)
            + wire_i16(v.api_version)
            + wire_i32(v.correlation_id)
            + nullable_bytes_wire(LenKind::I16, v.client_id)
            + TaggedFields::wire(v.tagged_fields)
    }

    fn byte_size(&self) -> (r: usize) {
        2 + 2 + 4 + nullable_bytes_size(LenKind::I16, &self.client_id)
            + self.tagged_fields.byte_size()
    }

    fn encode(&self, out: &mut Vec<u8>) {
        let ghost o = old(out)@;
        let ghost v = self@;
        write_i16(self.api_key, out);
        let ghost w = wire_i16(v.api_key);
        write_i16(self.api_version, out);
        proof {
            lemma_concat_assoc(o, w, wire_i16(v.api_version));
            w = w + wire_i16(v.api_version);
        }
        write_i32(self.correlation_id, out);
        proof {
            lemma_concat_assoc(o, w, wire_i32(v.correlation_id));
            w = w + wire_i32(v.correlation_id);
        }
        write_nullable_bytes(LenKind::I16, &self.client_id, out);
        proof {
            lemma_concat_assoc(o, w, nullable_bytes_wire(LenKind::I16, v.client_id));
            w = w + nullable_bytes_wire(LenKind::I16, v.client_id);
        }
        self.tagged_fields.encode(out);
        proof {
            lemma_concat_assoc(o, w, TaggedFields::wire(v.tagged_fields));
        }
    }
}

impl Codec for RequestHeaderV2 {
    open spec fn valid(v: RequestHeaderV2Model) -> bool {
        (v.client_id matches Some(b) ==> len_fits(LenKind::I16, b.len()))
        && TaggedFields::valid(v.tagged_fields)
    }

    open spec fn parse(s: Seq<u8>, i: int) -> Result<(RequestHeaderV2Model, int), KafkaError> {
        match parse_i16(s, i) {
            Err(e) => Err(e),
            Ok((api_key, i)) => match parse_i16(s, i) {
                Err(e) => Err(e),
                Ok((api_version, i)) => match parse_i32(s, i) {
                    Err(e) => Err(e),
                    Ok((correlation_id, i)) => match parse_nullable_bytes(LenKind::I16, s, i) {
                        Err(e) => Err(e),
                        Ok((client_id, i)) => match TaggedFields::parse(s, i) {
                            Err(e) => Err(e),
                            Ok((tagged_fields, i)) => Ok(
                                (
                                    RequestHeaderV2Model {
                                        api_key,
                                        api_version,
                                        correlation_id,
                                        client_id,
                                        tagged_fields,
                                    },
                                    i,
                                ),
                            ),
                        },
                    },
                },
            },
        }
    }

    proof fn lemma_round_trip(v: RequestHeaderV2Model, s: Seq<u8>, i: int) {
        let w0 = wire_i16(v.api_key);
        let w1 = wire_i16(v.api_version);
        let w2 = wire_i32(v.correlation_id);
        let w3 = nullable_bytes_wire(LenKind::I16, v.client_id);
        let w4 = TaggedFields::wire(v.tagged_fields);
        lemma_holds_split(s, i, w0 + w1 + w2 + w3, w4);
        lemma_holds_split(s, i, w0 + w1 + w2, w3);
        lemma_holds_split(s, i, w0 + w1, w2);
        lemma_holds_split(s, i, w0, w1);
        let p0 = i;
        let p1 = p0 + w0.len();
        let p2 = p1 + w1.len();
        let p3 = p2 + w2.len();
        let p4 = p3 + w3.len();
        lemma_i16_round_trip(v.api_key, s, p0);
        lemma_i16_round_trip(v.api_version, s, p1);
        lemma_i32_round_trip(v.correlation_id, s, p2);
        lemma_nullable_bytes_round_trip(LenKind::I16, v.client_id, s, p3);
        TaggedFields::lemma_round_trip(v.tagged_fields, s, p4);
    }

    fn decode(buf: &[u8], pos: usize) -> (r: Result<(RequestHeaderV2, usize), KafkaError>) {
        let p = pos;
        let (api_key, p) = match read_i16(buf, p) {
            Ok(x) => x,
            Err(e) => return Err(e),
        };
        let (api_version, p) = match read_i16(buf, p) {
            Ok(x) => x,
            Err(e) => return Err(e),
        };
        let (correlation_id, p) = match read_i32(buf, p) {
            Ok(x) => x,
            Err(e) => return Err(e),
        };
        let (client_id, p) = match read_nullable_bytes(LenKind::I16, buf, p) {
            Ok(x) => x,
            Err(e) => return Err(e),
        };
        let (tagged_fields, p) = match TaggedFields::decode(buf, p) {
            Ok(x) => x,
            Err(e) => return Err(e),
        };
        Ok((RequestHeaderV2 { api_key, api_version, correlation_id, client_id, tagged_fields }, p))
    }
}

/// A request header, in the shape its API version calls for.
#[derive(Debug, Clone, PartialEq, Eq)]
pub enum RequestHeader {
    V1(RequestHeaderV1),
    V2(RequestHeaderV2),
}

/// The model of a [`RequestHeader`].
pub enum RequestHeaderModel {
    V1(RequestHeaderV1Model),
    V2(RequestHeaderV2Model),
}

impl View for RequestHeader {
    type V = RequestHeaderModel;

    open spec fn view(&self) -> RequestHeaderModel {
        match self {
            RequestHeader::V1(h) => RequestHeaderModel::V1(h@),
            RequestHeader::V2(h) => RequestHeaderModel::V2(h@),
        }
    }
}

/// Reads a request header at `i`; `flexible` selects the shape with tagged fields.
pub open spec fn parse_request_header(s: Seq<u8>, i: int, flexible: bool) -> Result<
    (RequestHeaderModel, int),
    KafkaError,
> {
    if flexible {
        match RequestHeaderV2::parse(s, i) {
            Ok((h, j)) => Ok((RequestHeaderModel::V2(h), j)),
            Err(e) => Err(e),
        }
    } else {
        match RequestHeaderV1::parse(s, i) {
            Ok((h, j)) => Ok((RequestHeaderModel::V1(h), j)),
            Err(e) => Err(e),
        }
    }
}

/// The correlation id of a request header.
pub open spec fn header_correlation_id(h: RequestHeaderModel) -> i32 {
    match h {
        RequestHeaderModel::V1(h) => h.correlation_id,
        RequestHeaderModel::V2(h) => h.correlation_id,
    }
}

impl RequestHeader {
    /// Reads a request header at `pos`; `flexible` selects the shape with
    /// tagged fields.
    pub fn from_reader(buf: &[u8], pos: usize, flexible: bool) -> (r: Result<
        (RequestHeader, usize),
        KafkaError,
    >)
        ensures
            parsed_as(r, parse_request_header(buf@, pos as int, flexible)),
    {
        if flexible {
            match RequestHeaderV2::decode(buf, pos) {
                Ok((h, p)) => Ok((RequestHeader::V2(h), p)),
                Err(e) => Err(e),
            }
        } else {
            match RequestHeaderV1::decode(buf, pos) {
                Ok((h, p)) => Ok((RequestHeader::V1(h), p)),
                Err(e) => Err(e),
            }
        }
    }

    pub fn api_key(&self) -> (r: i16)
        ensures
            r == match self@ {
                RequestHeaderModel::V1(h) => h.api_key,
                RequestHeaderModel::V2(h) => h.api_key,
            },
    {
        match self {
            RequestHeader::V1(h) => h.api_key,
            RequestHeader::V2(h) => h.api_key,
        }
    }

    pub fn api_version(&self) -> (r: i16)
        ensures
            r == match self@ {
                RequestHeaderModel::V1(h) => h.api_version,
                RequestHeaderModel::V2(h) => h.api_version,
            },
    {
        match self {
            RequestHeader::V1(h) => h.api_version,
            RequestHeader::V2(h) => h.api_version,
        }
    }

    /// The correlation id, which the response repeats.
    pub fn collaration_id(&self) -> (r: i32)
        ensures
            r == header_correlation_id(self@),
    {
        match self {
            RequestHeader::V1(h) => h.correlation_id,
            RequestHeader::V2(h) => h.correlation_id,
        }
    }

    pub fn client_id(&self) -> (r: &Option<Vec<u8>>)
        ensures
            opt_bytes_view(r) == match self@ {
                RequestHeaderModel::V1(h) => h.client_id,
                RequestHeaderModel::V2(h) => h.client_id,
            },
    {
        match self {
            RequestHeader::V1(h) => &h.client_id,
            RequestHeader::V2(h) => &h.client_id,
        }
    }
}

/// A response header: `V1` adds tagged fields, for flexible API versions.
#[derive(Debug, Clone, PartialEq, Eq)]
pub enum ResponseHeader {
    V0 { correlation_id: i32 },
    V1 { correlation_id: i32, tagged_fields: TaggedFields },
}

/// The model of a [`ResponseHeader`].
pub enum ResponseHeaderModel {
    V0 { correlation_id: i32 },
    V1 { correlation_id: i32, tagged_fields: Seq<(u32, Seq<u8>)> },
}

impl View for ResponseHeader {
    type V = ResponseHeaderModel;

    open spec fn view(&self) -> ResponseHeaderModel {
        match self {
            ResponseHeader::V0 { correlation_id } => ResponseHeaderModel::V0 {
                correlation_id: *correlation_id,
            },
            ResponseHeader::V1 { correlation_id, tagged_fields } => ResponseHeaderModel::V1 {
                correlation_id: *correlation_id,
                tagged_fields: tagged_fields@,
            },
        }
    }
}

impl ResponseHeader {
    pub fn new_v0(correlation_id: i32) -> (r: ResponseHeader)
        ensures
            r@ == (ResponseHeaderModel::V0 { correlation_id }),
    {
        ResponseHeader::V0 { correlation_id }
    }

    /// A flexible header with an empty tagged-fields block.
    pub fn new_v1(correlation_id: i32) -> (r: ResponseHeader)
        ensures
            r@ == (ResponseHeaderModel::V1 {
                correlation_id,
                tagged_fields: Seq::<(u32, Seq<u8>)>::empty(),
            }),
    {
        ResponseHeader::V1 { correlation_id, tagged_fields: TaggedFields::empty() }
    }

    pub fn correlation_id(&self) -> (r: i32)
        ensures
            r == match self@ {
                ResponseHeaderModel::V0 { correlation_id } => correlation_id,
                ResponseHeaderModel::V1 { correlation_id, .. } => correlation_id,
            },
    {
        match self {
            ResponseHeader::V0 { correlation_id } => *correlation_id,
            ResponseHeader::V1 { correlation_id, .. } => *correlation_id,
        }
    }
}

impl Encode for ResponseHeader {
    open spec fn writable(v: ResponseHeaderModel) -> bool {
        match v {
            ResponseHeaderModel::V0 { .. } => true,
            ResponseHeaderModel::V1 { tagged_fields, .. } => TaggedFields::writable(tagged_fields),
        }
    }

    open spec fn wire(v: ResponseHeaderModel) -> Seq<u8> {
        match v {
            ResponseHeaderModel::V0 { correlation_id } => wire_i32(correlation_id),
            ResponseHeaderModel::V1 { correlation_id, tagged_fields } => wire_i32(correlation_id)
                + TaggedFields::wire(tagged_fields),
        }
    }

    fn byte_size(&self) -> (r: usize) {
        match self {
            ResponseHeader::V0 { .. } => 4,
            ResponseHeader::V1 { tagged_fields, .. } => 4 + tagged_fields.byte_size(),
        }
    }

    fn encode(&self, out: &mut Vec<u8>) {
        match self {
            ResponseHeader::V0 { correlation_id } => write_i32(*correlation_id, out),
            ResponseHeader::V1 { correlation_id, tagged_fields } => {
                write_i32(*correlation_id, out);
                tagged_fields.encode(out);
                assert(out@ =~= old(out)@ + Self::wire(self@));
            },
        }
    }
}

} // verus!

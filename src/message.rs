//! Response messages and frames: a frame is a big-endian `i32` size, then that
//! many bytes of header and body.
use vstd::prelude::*;

use crate::api_versions::{ApiVersionsResponseBody, ApiVersionsResponseBodyModel};
use crate::codec::{
    lemma_i32_round_trip, parse_i32, parse_run, parsed_as, read_i32, read_run, wire_i16, wire_i32,
    write_i16, write_i32, write_raw, Encode,
};
use crate::describe_topic_partitions::{
    DescribeTopicPartitionsResponseBody, DescribeTopicPartitionsResponseBodyModel,
};
use crate::error::KafkaError;
use crate::error_code::{error_code_value, ErrorCode};
use crate::fetch::{FetchResponseBody, FetchResponseBodyModel};
use crate::header::{ResponseHeader, ResponseHeaderModel};
use crate::primitives::{holds_at, lemma_holds_index, lemma_holds_split};

verus! {

/// The body of a response.
#[derive(Debug, Clone, PartialEq, Eq)]
pub enum ResponseBody {
    ApiVersions(ApiVersionsResponseBody),
    DescribeTopicPartitions(DescribeTopicPartitionsResponseBody),
    Fetch(FetchResponseBody),
    /// A bare error code, for a request that names an API or version that is
    /// not served.
    Error(ErrorCode),
}

/// The model of a [`ResponseBody`].
pub enum ResponseBodyModel {
    ApiVersions(ApiVersionsResponseBodyModel),
    DescribeTopicPartitions(DescribeTopicPartitionsResponseBodyModel),
    Fetch(FetchResponseBodyModel),
    Error(ErrorCode),
}

impl View for ResponseBody {
    type V = ResponseBodyModel;

    open spec fn view(&self) -> ResponseBodyModel {
        match self {
            ResponseBody::ApiVersions(b) => ResponseBodyModel::ApiVersions(b@),
            ResponseBody::DescribeTopicPartitions(b) => ResponseBodyModel::DescribeTopicPartitions(
                b@,
            ),
            ResponseBody::Fetch(b) => ResponseBodyModel::Fetch(b@),
            ResponseBody::Error(e) => ResponseBodyModel::Error(*e),
        }
    }
}

impl Encode for ResponseBody {
    open spec fn writable(v: ResponseBodyModel) -> bool {
        match v {
            ResponseBodyModel::ApiVersions(b) => ApiVersionsResponseBody::writable(b),
            ResponseBodyModel::DescribeTopicPartitions(b) =>
                DescribeTopicPartitionsResponseBody::writable(b),
            ResponseBodyModel::Fetch(b) => FetchResponseBody::writable(b),
            ResponseBodyModel::Error(_) => true,
        }
    }

    open spec fn wire(v: ResponseBodyModel) -> Seq<u8> {
        match v {
            ResponseBodyModel::ApiVersions(b) => ApiVersionsResponseBody::wire(b),
            ResponseBodyModel::DescribeTopicPartitions(b) =>
                DescribeTopicPartitionsResponseBody::wire(b),
            ResponseBodyModel::Fetch(b) => FetchResponseBody::wire(b),
            ResponseBodyModel::Error(e) => wire_i16(error_code_value(e)),
        }
    }

    fn byte_size(&self) -> (r: usize) {
        match self {
            ResponseBody::ApiVersions(b) => b.byte_size(),
            ResponseBody::DescribeTopicPartitions(b) => b.byte_size(),
            ResponseBody::Fetch(b) => b.byte_size(),
            ResponseBody::Error(_) => 2,
        }
    }

    fn encode(&self, out: &mut Vec<u8>) {
        match self {
            ResponseBody::ApiVersions(b) => b.encode(out),
            ResponseBody::DescribeTopicPartitions(b) => b.encode(out),
            ResponseBody::Fetch(b) => b.encode(out),
            ResponseBody::Error(e) => write_i16(e.code(), out),
        }
    }
}

/// A response: a header and, but for the bare header, a body.
#[derive(Debug, Clone, PartialEq, Eq)]
pub struct Message {
    header: ResponseHeader,
    body: Option<ResponseBody>,
}

/// The model of a [`Message`].
pub struct MessageModel {
    pub header: ResponseHeaderModel,
    pub body: Option<ResponseBodyModel>,
}

impl View for Message {
    type V = MessageModel;

    closed spec fn view(&self) -> MessageModel {
        MessageModel {
            header: self.header@,
            body: match self.body {
                Some(b) => Some(b@),
                None => None,
            },
        }
    }
}

impl Message {
    pub fn new(header: ResponseHeader, body: Option<ResponseBody>) -> (r: Message)
        ensures
            r@ == (MessageModel {
                header: header@,
                body: match body {
                    Some(b) => Some(b@),
                    None => None,
                },
            }),
    {
        let r = Message { header, body };
        r
    }

    pub fn header(&self) -> (r: &ResponseHeader)
        ensures
            r@ == self@.header,
    {
        &self.header
    }

    pub fn body(&self) -> (r: &Option<ResponseBody>)
        ensures
            match r {
                Some(b) => self@.body == Some(b@),
                None => self@.body is None,
            },
    {
        &self.body
    }

    /// The correlation id the response carries.
    pub fn correlation_id(&self) -> (r: i32)
        ensures
            r == match self@.header {
                ResponseHeaderModel::V0 { correlation_id } => correlation_id,
                ResponseHeaderModel::V1 { correlation_id, .. } => correlation_id,
            },
    {
        self.header.correlation_id()
    }

    /// Writes the frame of this response to `out`: the size of header and body
    /// as a big-endian `i32`, then header and body. A response too large for
    /// that size cannot be written, which is an I/O error, and `out` is left as
    /// it was.
    pub fn send(&self, out: &mut Vec<u8>) -> (r: Result<(), KafkaError>)
        requires
            Message::writable(self@),
        ensures
            match r {
                Ok(()) => Message::wire(self@).len() <= i32::MAX && final(out)@ == old(out)@
                    + frame_wire(self@),
                Err(e) => e == KafkaError::Io && Message::wire(self@).len() > i32::MAX
                    && final(out)@ == old(out)@,
            },
    {
        let mut content: Vec<u8> = Vec::new();
        self.encode(&mut content);
        assert(content@ =~= Message::wire(self@));
        if content.len() > i32::MAX as usize {
            return Err(KafkaError::Io);
        }
        write_i32(content.len() as i32, out);
        write_raw(content.as_slice(), out);
        assert(out@ =~= old(out)@ + frame_wire(self@));
        Ok(())
    }
}

impl Encode for Message {
    open spec fn writable(v: MessageModel) -> bool {
        ResponseHeader::writable(v.header) && (v.body matches Some(b) ==> ResponseBody::writable(b))
    }

    /// Header and body, without the size in front.
    open spec fn wire(v: MessageModel) -> Seq<u8> {
        ResponseHeader::wire(v.header) + match v.body {
            Some(b) => ResponseBody::wire(b),
            None => Seq::empty(),
        }
    }

    fn byte_size(&self) -> (r: usize) {
        self.header.byte_size() + match &self.body {
            Some(b) => b.byte_size(),
            None => 0,
        }
    }

    fn encode(&self, out: &mut Vec<u8>) {
        self.header.encode(out);
        match &self.body {
            Some(b) => b.encode(out),
            None => {},
        }
        assert(out@ =~= old(out)@ + Self::wire(self@));
    }
}

/// The frame of a response: its size as a big-endian `i32`, then its bytes.
pub open spec fn frame_wire(m: MessageModel) -> Seq<u8> {
    wire_i32(Message::wire(m).len() as i32) + Message::wire(m)
}

/// Reads a frame at `i`: a big-endian `i32` size, then that many bytes.
pub open spec fn parse_frame(s: Seq<u8>, i: int) -> Result<(Seq<u8>, int), KafkaError> {
    match parse_i32(s, i) {
        Err(e) => Err(e),
        Ok((n, j)) => if n < 0 {
            Err(KafkaError::NegativeFrameSize)
        } else {
            parse_run(s, j, n as nat)
        },
    }
}

/// Reads the frame at `pos` and gives its bytes and the position after it.
pub fn read_frame(buf: &[u8], pos: usize) -> (r: Result<(Vec<u8>, usize), KafkaError>)
    ensures
        parsed_as(r, parse_frame(buf@, pos as int)),
        holds_at(buf@, pos as int, seq![0u8, 0u8, 0u8, 0u8]) ==> (r matches Ok((v, end)) && v@.len()
            == 0 && end == pos + 4),
{
    proof {
        if holds_at(buf@, pos as int, seq![0u8, 0u8, 0u8, 0u8]) {
            lemma_empty_frame_at(buf@, pos as int);
        }
    }
    let (n, p) = match read_i32(buf, pos) {
        Ok(x) => x,
        Err(e) => return Err(e),
    };
    if n < 0 {
        return Err(KafkaError::NegativeFrameSize);
    }
    read_run(buf, p, n as u64)
}

/// The size announced by the four bytes at the start of a frame.
pub fn frame_size(prefix: &[u8]) -> (r: Result<usize, KafkaError>)
    ensures
        match parse_i32(prefix@, 0) {
            Ok((n, _)) => if n < 0 {
                r == Err::<usize, KafkaError>(KafkaError::NegativeFrameSize)
            } else {
                r == Ok::<usize, KafkaError>(n as usize)
            },
            Err(e) => r == Err::<usize, KafkaError>(e),
        },
{
    match read_i32(prefix, 0) {
        Ok((n, _)) => if n < 0 {
            Err(KafkaError::NegativeFrameSize)
        } else {
            Ok(n as usize)
        },
        Err(e) => Err(e),
    }
}

/// The size at the front of a written response equals the number of bytes of
/// header and body that follow it, and reading the frame back gives exactly
/// those bytes.
pub proof fn lemma_frame_size_prefix(m: MessageModel)
    requires
        Message::wire(m).len() <= i32::MAX,
    ensures
        parse_i32(frame_wire(m), 0) == Ok::<(i32, int), KafkaError>(
            (Message::wire(m).len() as i32, 4),
        ),
        frame_wire(m).len() == 4 + Message::wire(m).len(),
        parse_frame(frame_wire(m), 0) == Ok::<(Seq<u8>, int), KafkaError>(
            (Message::wire(m), frame_wire(m).len() as int),
        ),
{
    let f = frame_wire(m);
    let c = Message::wire(m);
    assert(holds_at(f, 0, f)) by {
        assert(f.subrange(0, f.len() as int) =~= f);
    }
    lemma_holds_split(f, 0, wire_i32(c.len() as i32), c);
    lemma_i32_round_trip(c.len() as i32, f, 0);
}

/// A frame whose size is zero is read as no bytes at all, wherever it stands.
pub proof fn lemma_empty_frame_at(s: Seq<u8>, i: int)
    requires
        holds_at(s, i, seq![0u8, 0u8, 0u8, 0u8]),
    ensures
        parse_frame(s, i) == Ok::<(Seq<u8>, int), KafkaError>((Seq::<u8>::empty(), i + 4)),
{
    lemma_holds_index(s, i, seq![0u8, 0u8, 0u8, 0u8]);
    assert(s[i] == 0 && s[i + 1] == 0 && s[i + 2] == 0 && s[i + 3] == 0);
    assert(((0u8 as u32) << 24) | ((0u8 as u32) << 16) | ((0u8 as u32) << 8) | (0u8 as u32) == 0)
        by (bit_vector);
    assert(s.subrange(i + 4, i + 4) =~= Seq::<u8>::empty());
}

/// A frame whose size is zero is read as no bytes at all, whatever follows it.
pub proof fn lemma_empty_frame(rest: Seq<u8>)
    ensures
        parse_frame(seq![0u8, 0u8, 0u8, 0u8] + rest, 0) == Ok::<(Seq<u8>, int), KafkaError>(
            (Seq::<u8>::empty(), 4),
        ),
{
    let s = seq![0u8, 0u8, 0u8, 0u8] + rest;
    assert(s.subrange(0, 4) =~= seq![0u8, 0u8, 0u8, 0u8]);
    lemma_empty_frame_at(s, 0);
}

} // verus!

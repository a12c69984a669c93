//! The DescribeTopicPartitions API: for each requested topic name, the topic's
//! UUID and its partitions, as the cluster metadata records them.
use vstd::prelude::*;

use crate::array::{
    lemma_seq_round_trip, opt_seq_view, parse_seq, read_seq, seq_size, seq_valid, seq_view,
    seq_wire, seq_writable, write_seq,
};
use crate::codec::{
    bytes_size, bytes_wire, len_fits, len_writable, lemma_bytes_round_trip, nullable_bytes_size,
    nullable_bytes_wire, opt_bytes_view, parse_bytes, read_bytes, wire_bool, wire_i16,
    wire_i32, write_bool, write_bytes, write_i16, write_i32, write_nullable_bytes,
    write_raw, Codec, Encode, LenKind,
};
use crate::error::KafkaError;
use crate::error_code::{error_code_value, ErrorCode};
use crate::primitives::{lemma_concat_assoc, lemma_holds_split, Uuid};
use crate::records::{PartitionModel, RecordVariant, RecordVariantModel};
use crate::tagged::TaggedFields;

verus! {

/// A topic named in a DescribeTopicPartitions request.
#[derive(Debug, Clone, PartialEq, Eq)]
pub struct RequestTopic {
    pub name: Vec<u8>,
    pub tagged_fields: TaggedFields,
}

/// The model of a [`RequestTopic`].
pub struct RequestTopicModel {
    pub name: Seq<u8>,
    pub tagged_fields: Seq<(u32, Seq<u8>)>,
}

impl View for RequestTopic {
    type V = RequestTopicModel;

    open spec fn view(&self) -> RequestTopicModel {
        RequestTopicModel {
            name: self.name@,
            tagged_fields: self.tagged_fields@,
        }
    }
}

impl Encode for RequestTopic {
    open spec fn writable(v: RequestTopicModel) -> bool {
        len_writable(LenKind::Uvarint, v.name.len())
        && TaggedFields::writable(v.tagged_fields)
    }

    open spec fn wire(v: RequestTopicModel) -> Seq<u8> {
        bytes_wire(LenKind::Uvarint, v.name)
            + TaggedFields::wire(v.tagged_fields)
    }

    fn byte_size(&self) -> (r: usize) {
        bytes_size(LenKind::Uvarint, self.name.as_slice()) + self.tagged_fields.byte_size()
    }

    fn encode(&self, out: &mut Vec<u8>) {
        let ghost o = old(out)@;
        let ghost v = self@;
        write_bytes(LenKind::Uvarint, self.name.as_slice(), out);
        let ghost w = bytes_wire(LenKind::Uvarint, v.name);
        self.tagged_fields.encode(out);
        proof {
            lemma_concat_assoc(o, w, TaggedFields::wire(v.tagged_fields));
        }
    }
}

impl Codec for RequestTopic {
    open spec fn valid(v: RequestTopicModel) -> bool {
        len_fits(LenKind::Uvarint, v.name.len())
        && TaggedFields::valid(v.tagged_fields)
    }

    open spec fn parse(s: Seq<u8>, i: int) -> Result<(RequestTopicModel, int), KafkaError> {
        match parse_bytes(LenKind::Uvarint, s, i) {
            Err(e) => Err(e),
            Ok((name, i)) => match TaggedFields::parse(s, i) {
                Err(e) => Err(e),
                Ok((tagged_fields, i)) => Ok(
                    (RequestTopicModel { name, tagged_fields }, i),
                ),
            },
        }
    }

    proof fn lemma_round_trip(v: RequestTopicModel, s: Seq<u8>, i: int) {
        let w0 = bytes_wire(LenKind::Uvarint, v.name);
        let w1 = TaggedFields::wire(v.tagged_fields);
        lemma_holds_split(s, i, w0, w1);
        let p0 = i;
        let p1 = p0 + w0.len();
        lemma_bytes_round_trip(LenKind::Uvarint, v.name, s, p0);
        TaggedFields::lemma_round_trip(v.tagged_fields, s, p1);
    }

    fn decode(buf: &[u8], pos: usize) -> (r: Result<(RequestTopic, usize), KafkaError>) {
        let p = pos;
        let (name, p) = match read_bytes(LenKind::Uvarint, buf, p) {
            Ok(x) => x,
            Err(e) => return Err(e),
        };
        let (tagged_fields, p) = match TaggedFields::decode(buf, p) {
            Ok(x) => x,
            Err(e) => return Err(e),
        };
        Ok((RequestTopic { name, tagged_fields }, p))
    }
}

/// The body of a DescribeTopicPartitions request. Its trailing bytes are read as tagged fields only.
#[derive(Debug, Clone, PartialEq, Eq)]
pub struct DescribeTopicPartitionsRequest {
    pub topics: Option<Vec<RequestTopic>>,
    pub tagged_fields: TaggedFields,
}

/// The model of a [`DescribeTopicPartitionsRequest`].
pub struct DescribeTopicPartitionsRequestModel {
    pub topics: Option<Seq<RequestTopicModel>>,
    pub tagged_fields: Seq<(u32, Seq<u8>)>,
}

impl View for DescribeTopicPartitionsRequest {
    type V = DescribeTopicPartitionsRequestModel;

    open spec fn view(&self) -> DescribeTopicPartitionsRequestModel {
        DescribeTopicPartitionsRequestModel {
            topics: opt_seq_view(&self.topics),
            tagged_fields: self.tagged_fields@,
        }
    }
}

impl Encode for DescribeTopicPartitionsRequest {
    open spec fn writable(v: DescribeTopicPartitionsRequestModel) -> bool {
        seq_writable::<RequestTopic>(LenKind::Uvarint, v.topics)
        && TaggedFields::writable(v.tagged_fields)
    }

    open spec fn wire(v: DescribeTopicPartitionsRequestModel) -> Seq<u8> {
        seq_wire::<RequestTopic>(LenKind::Uvarint, v.topics)
            + TaggedFields::wire(v.tagged_fields)
    }

    fn byte_size(&self) -> (r: usize) {
        seq_size(LenKind::Uvarint, &self.topics) + self.tagged_fields.byte_size()
    }

    fn encode(&self, out: &mut Vec<u8>) {
        let ghost o = old(out)@;
        let ghost v = self@;
        write_seq(LenKind::Uvarint, &self.topics, out);
        let ghost w = seq_wire::<RequestTopic>(LenKind::Uvarint, v.topics);
        self.tagged_fields.encode(out);
        proof {
            lemma_concat_assoc(o, w, TaggedFields::wire(v.tagged_fields));
        }
    }
}

impl Codec for DescribeTopicPartitionsRequest {
    open spec fn valid(v: DescribeTopicPartitionsRequestModel) -> bool {
        seq_valid::<RequestTopic>(LenKind::Uvarint, v.topics)
        && TaggedFields::valid(v.tagged_fields)
    }

    open spec fn parse(s: Seq<u8>, i: int) -> Result<(DescribeTopicPartitionsRequestModel, int), KafkaError> {
        match parse_seq::<RequestTopic>(LenKind::Uvarint, s, i) {
            Err(e) => Err(e),
            Ok((topics, i)) => match TaggedFields::parse(s, i) {
                Err(e) => Err(e),
                Ok((tagged_fields, i)) => Ok(
                    (DescribeTopicPartitionsRequestModel { topics, tagged_fields }, i),
                ),
            },
        }
    }

    proof fn lemma_round_trip(v: DescribeTopicPartitionsRequestModel, s: Seq<u8>, i: int) {
        let w0 = seq_wire::<RequestTopic>(LenKind::Uvarint, v.topics);
        let w1 = TaggedFields::wire(v.tagged_fields);
        lemma_holds_split(s, i, w0, w1);
        let p0 = i;
        let p1 = p0 + w0.len();
        lemma_seq_round_trip::<RequestTopic>(LenKind::Uvarint, v.topics, s, p0);
        TaggedFields::lemma_round_trip(v.tagged_fields, s, p1);
    }

    fn decode(buf: &[u8], pos: usize) -> (r: Result<(DescribeTopicPartitionsRequest, usize), KafkaError>) {
        let p = pos;
        let (topics, p) = match read_seq::<RequestTopic>(LenKind::Uvarint, buf, p) {
            Ok(x) => x,
            Err(e) => return Err(e),
        };
        let (tagged_fields, p) = match TaggedFields::decode(buf, p) {
            Ok(x) => x,
            Err(e) => return Err(e),
        };
        Ok((DescribeTopicPartitionsRequest { topics, tagged_fields }, p))
    }
}

/// Where a paged DescribeTopicPartitions answer would go on.
#[derive(Debug, Clone, PartialEq, Eq)]
pub struct Cursor {
    pub topic_name: Vec<u8>,
    pub partition_index: i32,
    pub tagged_fields: TaggedFields,
}

/// The model of a [`Cursor`].
pub struct CursorModel {
    pub topic_name: Seq<u8>,
    pub partition_index: i32,
    pub tagged_fields: Seq<(u32, Seq<u8>)>,
}

impl View for Cursor {
    type V = CursorModel;

    open spec fn view(&self) -> CursorModel {
        CursorModel {
            topic_name: self.topic_name@,
            partition_index: self.partition_index,
            tagged_fields: self.tagged_fields@,
        }
    }
}

impl Encode for Cursor {
    open spec fn writable(v: CursorModel) -> bool {
        len_writable(LenKind::Uvarint, v.topic_name.len())
        && TaggedFields::writable(v.tagged_fields)
    }

    open spec fn wire(v: CursorModel) -> Seq<u8> {
        bytes_wire(LenKind::Uvarint, v.topic_name)
            + wire_i32(v.partition_index)
            + TaggedFields::wire(v.tagged_fields)
    }

    fn byte_size(&self) -> (r: usize) {
        bytes_size(LenKind::Uvarint, self.topic_name.as_slice()) + 4
            + self.tagged_fields.byte_size()
    }

    fn encode(&self, out: &mut Vec<u8>) {
        let ghost o = old(out)@;
        let ghost v = self@;
        write_bytes(LenKind::Uvarint, self.topic_name.as_slice(), out);
        let ghost w = bytes_wire(LenKind::Uvarint, v.topic_name);
        write_i32(self.partition_index, out);
        proof {
            lemma_concat_assoc(o, w, wire_i32(v.partition_index));
            w = w + wire_i32(v.partition_index);
        }
        self.tagged_fields.encode(out);
        proof {
            lemma_concat_assoc(o, w, TaggedFields::wire(v.tagged_fields));
        }
    }
}

/// One partition in a DescribeTopicPartitions answer.
#[derive(Debug, Clone, PartialEq, Eq)]
pub struct ResponsePartition {
    pub error_code: ErrorCode,
    pub partition_index: i32,
    pub leader_id: i32,
    pub leader_epoch: i32,
    pub replica_nodes: Option<Vec<i32>>,
    pub isr_nodes: Option<Vec<i32>>,
    pub eligible_leader_replicas: Option<Vec<i32>>,
    pub last_known_elr: Option<Vec<i32>>,
    pub offline_replicas: Option<Vec<i32>>,
    pub tagged_fields: TaggedFields,
}

/// The model of a [`ResponsePartition`].
pub struct ResponsePartitionModel {
    pub error_code: ErrorCode,
    pub partition_index: i32,
    pub leader_id: i32,
    pub leader_epoch: i32,
    pub replica_nodes: Option<Seq<i32>>,
    pub isr_nodes: Option<Seq<i32>>,
    pub eligible_leader_replicas: Option<Seq<i32>>,
    pub last_known_elr: Option<Seq<i32>>,
    pub offline_replicas: Option<Seq<i32>>,
    pub tagged_fields: Seq<(u32, Seq<u8>)>,
}

impl View for ResponsePartition {
    type V = ResponsePartitionModel;

    open spec fn view(&self) -> ResponsePartitionModel {
        ResponsePartitionModel {
            error_code: self.error_code,
            partition_index: self.partition_index,
            leader_id: self.leader_id,
            leader_epoch: self.leader_epoch,
            replica_nodes: opt_seq_view(&self.replica_nodes),
            isr_nodes: opt_seq_view(&self.isr_nodes),
            eligible_leader_replicas: opt_seq_view(&self.eligible_leader_replicas),
            last_known_elr: opt_seq_view(&self.last_known_elr),
            offline_replicas: opt_seq_view(&self.offline_replicas),
            tagged_fields: self.tagged_fields@,
        }
    }
}

impl Encode for ResponsePartition {
    open spec fn writable(v: ResponsePartitionModel) -> bool {
        seq_writable::<i32>(LenKind::Uvarint, v.replica_nodes)
        && seq_writable::<i32>(LenKind::Uvarint, v.isr_nodes)
        && seq_writable::<i32>(LenKind::Uvarint, v.eligible_leader_replicas)
        && seq_writable::<i32>(LenKind::Uvarint, v.last_known_elr)
        && seq_writable::<i32>(LenKind::Uvarint, v.offline_replicas)
        && TaggedFields::writable(v.tagged_fields)
    }

    open spec fn wire(v: ResponsePartitionModel) -> Seq<u8> {
        wire_i16(error_code_value(v.error_code))
            + wire_i32(v.partition_index)
            + wire_i32(v.leader_id)
            + wire_i32(v.leader_epoch)
            + seq_wire::<i32>(LenKind::Uvarint, v.replica_nodes)
            + seq_wire::<i32>(LenKind::Uvarint, v.isr_nodes)
            + seq_wire::<i32>(LenKind::Uvarint, v.eligible_leader_replicas)
            + seq_wire::<i32>(LenKind::Uvarint, v.last_known_elr)
            + seq_wire::<i32>(LenKind::Uvarint, v.offline_replicas)
            + TaggedFields::wire(v.tagged_fields)
    }

    fn byte_size(&self) -> (r: usize) {
        2 + 4 + 4 + 4 + seq_size(LenKind::Uvarint, &self.replica_nodes)
            + seq_size(LenKind::Uvarint, &self.isr_nodes)
            + seq_size(LenKind::Uvarint, &self.eligible_leader_replicas)
            + seq_size(LenKind::Uvarint, &self.last_known_elr)
            + seq_size(LenKind::Uvarint, &self.offline_replicas)
            + self.tagged_fields.byte_size()
    }

    fn encode(&self, out: &mut Vec<u8>) {
        let ghost o = old(out)@;
        let ghost v = self@;
        write_i16(self.error_code.code(), out);
        let ghost w = wire_i16(error_code_value(v.error_code));
        write_i32(self.partition_index, out);
        proof {
            lemma_concat_assoc(o, w, wire_i32(v.partition_index));
            w = w + wire_i32(v.partition_index);
        }
        write_i32(self.leader_id, out);
        proof {
            lemma_concat_assoc(o, w, wire_i32(v.leader_id));
            w = w + wire_i32(v.leader_id);
        }
        write_i32(self.leader_epoch, out);
        proof {
            lemma_concat_assoc(o, w, wire_i32(v.leader_epoch));
            w = w + wire_i32(v.leader_epoch);
        }
        write_seq(LenKind::Uvarint, &self.replica_nodes, out);
        proof {
            lemma_concat_assoc(o, w, seq_wire::<i32>(LenKind::Uvarint, v.replica_nodes));
            w = w + seq_wire::<i32>(LenKind::Uvarint, v.replica_nodes);
        }
        write_seq(LenKind::Uvarint, &self.isr_nodes, out);
        proof {
            lemma_concat_assoc(o, w, seq_wire::<i32>(LenKind::Uvarint, v.isr_nodes));
            w = w + seq_wire::<i32>(LenKind::Uvarint, v.isr_nodes);
        }
        write_seq(LenKind::Uvarint, &self.eligible_leader_replicas, out);
        proof {
            lemma_concat_assoc(o, w, seq_wire::<i32>(LenKind::Uvarint, v.eligible_leader_replicas));
            w = w + seq_wire::<i32>(LenKind::Uvarint, v.eligible_leader_replicas);
        }
        write_seq(LenKind::Uvarint, &self.last_known_elr, out);
        proof {
            lemma_concat_assoc(o, w, seq_wire::<i32>(LenKind::Uvarint, v.last_known_elr));
            w = w + seq_wire::<i32>(LenKind::Uvarint, v.last_known_elr);
        }
        write_seq(LenKind::Uvarint, &self.offline_replicas, out);
        proof {
            lemma_concat_assoc(o, w, seq_wire::<i32>(LenKind::Uvarint, v.offline_replicas));
            w = w + seq_wire::<i32>(LenKind::Uvarint, v.offline_replicas);
        }
        self.tagged_fields.encode(out);
        proof {
            lemma_concat_assoc(o, w, TaggedFields::wire(v.tagged_fields));
        }
    }
}

/// One topic in a DescribeTopicPartitions answer.
#[derive(Debug, Clone, PartialEq, Eq)]
pub struct ResponseTopic {
    pub error_code: ErrorCode,
    pub name: Option<Vec<u8>>,
    pub topic_id: Uuid,
    pub is_internal: bool,
    pub partitions: Option<Vec<ResponsePartition>>,
    pub topic_authorized_operations: i32,
    pub tagged_fields: TaggedFields,
}

/// The model of a [`ResponseTopic`].
pub struct ResponseTopicModel {
    pub error_code: ErrorCode,
    pub name: Option<Seq<u8>>,
    pub topic_id: Uuid,
    pub is_internal: bool,
    pub partitions: Option<Seq<ResponsePartitionModel>>,
    pub topic_authorized_operations: i32,
    pub tagged_fields: Seq<(u32, Seq<u8>)>,
}

impl View for ResponseTopic {
    type V = ResponseTopicModel;

    open spec fn view(&self) -> ResponseTopicModel {
        ResponseTopicModel {
            error_code: self.error_code,
            name: opt_bytes_view(&self.name),
            topic_id: self.topic_id,
            is_internal: self.is_internal,
            partitions: opt_seq_view(&self.partitions),
            topic_authorized_operations: self.topic_authorized_operations,
            tagged_fields: self.tagged_fields@,
        }
    }
}

impl Encode for ResponseTopic {
    open spec fn writable(v: ResponseTopicModel) -> bool {
        (v.name matches Some(b) ==> len_writable(LenKind::Uvarint, b.len()))
        && seq_writable::<ResponsePartition>(LenKind::Uvarint, v.partitions)
        && TaggedFields::writable(v.tagged_fields)
    }

    open spec fn wire(v: ResponseTopicModel) -> Seq<u8> {
        wire_i16(error_code_value(v.error_code))
            + nullable_bytes_wire(LenKind::Uvarint, v.name)
            + Uuid::wire(v.topic_id)
            + wire_bool(v.is_internal)
            + seq_wire::<ResponsePartition>(LenKind::Uvarint, v.partitions)
            + wire_i32(v.topic_authorized_operations)
            + TaggedFields::wire(v.tagged_fields)
    }

    fn byte_size(&self) -> (r: usize) {
        2 + nullable_bytes_size(LenKind::Uvarint, &self.name) + 16 + 1
            + seq_size(LenKind::Uvarint, &self.partitions) + 4 + self.tagged_fields.byte_size()
    }

    fn encode(&self, out: &mut Vec<u8>) {
        let ghost o = old(out)@;
        let ghost v = self@;
        write_i16(self.error_code.code(), out);
        let ghost w = wire_i16(error_code_value(v.error_code));
        write_nullable_bytes(LenKind::Uvarint, &self.name, out);
        proof {
            lemma_concat_assoc(o, w, nullable_bytes_wire(LenKind::Uvarint, v.name));
            w = w + nullable_bytes_wire(LenKind::Uvarint, v.name);
        }
        self.topic_id.encode(out);
        proof {
            lemma_concat_assoc(o, w, Uuid::wire(v.topic_id));
            w = w + Uuid::wire(v.topic_id);
        }
        write_bool(self.is_internal, out);
        proof {
            lemma_concat_assoc(o, w, wire_bool(v.is_internal));
            w = w + wire_bool(v.is_internal);
        }
        write_seq(LenKind::Uvarint, &self.partitions, out);
        proof {
            lemma_concat_assoc(o, w, seq_wire::<ResponsePartition>(LenKind::Uvarint, v.partitions));
            w = w + seq_wire::<ResponsePartition>(LenKind::Uvarint, v.partitions);
        }
        write_i32(self.topic_authorized_operations, out);
        proof {
            lemma_concat_assoc(o, w, wire_i32(v.topic_authorized_operations));
            w = w + wire_i32(v.topic_authorized_operations);
        }
        self.tagged_fields.encode(out);
        proof {
            lemma_concat_assoc(o, w, TaggedFields::wire(v.tagged_fields));
        }
    }
}

/// The body of a DescribeTopicPartitions response.
#[derive(Debug, Clone, PartialEq, Eq)]
pub struct DescribeTopicPartitionsResponseBody {
    pub throttle_time_ms: i32,
    pub topics: Option<Vec<ResponseTopic>>,
    /// `None` is written as the single byte `0xFF`.
    pub next_cursor: Option<Cursor>,
    pub tagged_fields: TaggedFields,
}

/// The model of a [`DescribeTopicPartitionsResponseBody`].
pub struct DescribeTopicPartitionsResponseBodyModel {
    pub throttle_time_ms: i32,
    pub topics: Option<Seq<ResponseTopicModel>>,
    pub next_cursor: Option<CursorModel>,
    pub tagged_fields: Seq<(u32, Seq<u8>)>,
}

impl View for DescribeTopicPartitionsResponseBody {
    type V = DescribeTopicPartitionsResponseBodyModel;

    open spec fn view(&self) -> DescribeTopicPartitionsResponseBodyModel {
        DescribeTopicPartitionsResponseBodyModel {
            throttle_time_ms: self.throttle_time_ms,
            topics: opt_seq_view(&self.topics),
            next_cursor: match self.next_cursor {
                Some(c) => Some(c@),
                None => None,
            },
            tagged_fields: self.tagged_fields@,
        }
    }
}

/// The wire form of the next cursor: the cursor, or `-1` as one byte.
pub open spec fn cursor_wire(c: Option<CursorModel>) -> Seq<u8> {
    match c {
        Some(c) => Cursor::wire(c),
        None => seq![0xFFu8],
    }
}

impl Encode for DescribeTopicPartitionsResponseBody {
    open spec fn writable(v: DescribeTopicPartitionsResponseBodyModel) -> bool {
        &&& seq_writable::<ResponseTopic>(LenKind::Uvarint, v.topics)
        &&& (v.next_cursor matches Some(c) ==> Cursor::writable(c))
        &&& TaggedFields::writable(v.tagged_fields)
    }

    open spec fn wire(v: DescribeTopicPartitionsResponseBodyModel) -> Seq<u8> {
        wire_i32(v.throttle_time_ms) + seq_wire::<ResponseTopic>(LenKind::Uvarint, v.topics)
            + cursor_wire(v.next_cursor) + TaggedFields::wire(v.tagged_fields)
    }

    fn byte_size(&self) -> (r: usize) {
        let cursor_size = match &self.next_cursor {
            Some(c) => c.byte_size(),
            None => 1,
        };
        4 + seq_size(LenKind::Uvarint, &self.topics) + cursor_size + self.tagged_fields.byte_size()
    }

    fn encode(&self, out: &mut Vec<u8>) {
        write_i32(self.throttle_time_ms, out);
        write_seq(LenKind::Uvarint, &self.topics, out);
        match &self.next_cursor {
            Some(c) => c.encode(out),
            None => out.push(0xFFu8),
        }
        self.tagged_fields.encode(out);
        assert(out@ =~= old(out)@ + Self::wire(self@));
    }
}

/// Whether `a` comes before `b` byte by byte (a proper prefix comes first).
pub open spec fn bytes_lt(a: Seq<u8>, b: Seq<u8>) -> bool
    decreases a.len(),
{
    if a.len() == 0 {
        b.len() > 0
    } else if b.len() == 0 {
        false
    } else if a[0] != b[0] {
        a[0] < b[0]
    } else {
        bytes_lt(a.skip(1), b.skip(1))
    }
}

/// The order of topic names: null first, then byte by byte.
pub open spec fn name_lt(a: Option<Seq<u8>>, b: Option<Seq<u8>>) -> bool {
    match (a, b) {
        (None, Some(_)) => true,
        (Some(x), Some(y)) => bytes_lt(x, y),
        _ => false,
    }
}

/// Inserts `x` after every element whose name does not come after its own.
pub open spec fn insert_by_name(x: ResponseTopicModel, s: Seq<ResponseTopicModel>) -> Seq<
    ResponseTopicModel,
>
    decreases s.len(),
{
    if s.len() == 0 {
        seq![x]
    } else if name_lt(x.name, s[0].name) {
        seq![x] + s
    } else {
        seq![s[0]] + insert_by_name(x, s.skip(1))
    }
}

/// `s` sorted by name; topics with equal names keep their order.
pub open spec fn sort_by_name(s: Seq<ResponseTopicModel>) -> Seq<ResponseTopicModel>
    decreases s.len(),
{
    if s.len() == 0 {
        Seq::empty()
    } else {
        insert_by_name(s.last(), sort_by_name(s.drop_last()))
    }
}

/// The first topic record named `name`.
pub open spec fn find_topic(rs: Seq<RecordVariantModel>, name: Seq<u8>) -> Option<(Seq<u8>, Uuid)>
    decreases rs.len(),
{
    if rs.len() == 0 {
        None
    } else {
        match rs[0] {
            RecordVariantModel::Topic(t) => if t.0 == name {
                Some(t)
            } else {
                find_topic(rs.skip(1), name)
            },
            _ => find_topic(rs.skip(1), name),
        }
    }
}

/// How a partition record is answered.
pub open spec fn partition_entry(p: PartitionModel) -> ResponsePartitionModel {
    ResponsePartitionModel {
        error_code: ErrorCode::NoError,
        partition_index: p.partition_id,
        leader_id: p.leader,
        leader_epoch: p.leader_epoch,
        replica_nodes: p.replicas,
        isr_nodes: p.isr,
        eligible_leader_replicas: None,
        last_known_elr: None,
        offline_replicas: None,
        tagged_fields: Seq::empty(),
    }
}

/// The entries of the partition records of topic `id`, in log order.
pub open spec fn partitions_of(rs: Seq<RecordVariantModel>, id: Uuid) -> Seq<ResponsePartitionModel>
    decreases rs.len(),
{
    if rs.len() == 0 {
        Seq::empty()
    } else {
        partitions_of(rs.drop_last(), id) + match rs.last() {
            RecordVariantModel::Partition(p) => if p.topic_id == id {
                seq![partition_entry(p)]
            } else {
                Seq::empty()
            },
            _ => Seq::empty(),
        }
    }
}

/// The answer for one requested topic name: the topic and its partitions if a
/// topic record has that name, else `UnknownTopicOrPartition` with the zero UUID.
pub open spec fn describe_topic(rs: Seq<RecordVariantModel>, name: Seq<u8>) -> ResponseTopicModel {
    match find_topic(rs, name) {
        Some(t) => ResponseTopicModel {
            error_code: ErrorCode::NoError,
            name: Some(name),
            topic_id: t.1,
            is_internal: false,
            partitions: Some(partitions_of(rs, t.1)),
            topic_authorized_operations: 0,
            tagged_fields: Seq::empty(),
        },
        None => ResponseTopicModel {
            error_code: ErrorCode::UnknownTopicOrPartition,
            name: Some(name),
            topic_id: Uuid { value: 0 },
            is_internal: false,
            partitions: Some(Seq::empty()),
            topic_authorized_operations: 0,
            tagged_fields: Seq::empty(),
        },
    }
}

/// The answers for the requested topics, sorted by name.
pub open spec fn describe_topics(rs: Seq<RecordVariantModel>, req: Seq<RequestTopicModel>) -> Seq<
    ResponseTopicModel,
> {
    sort_by_name(req.map_values(|t: RequestTopicModel| describe_topic(rs, t.name)))
}

/// The response body for a DescribeTopicPartitions request.
pub open spec fn describe_body(
    rs: Seq<RecordVariantModel>,
    req: DescribeTopicPartitionsRequestModel,
) -> DescribeTopicPartitionsResponseBodyModel {
    DescribeTopicPartitionsResponseBodyModel {
        throttle_time_ms: 0,
        topics: Some(
            describe_topics(
                rs,
                match req.topics {
                    Some(ts) => ts,
                    None => Seq::empty(),
                },
            ),
        ),
        next_cursor: None,
        tagged_fields: Seq::empty(),
    }
}

/// A copy of `b`.
pub fn copy_bytes(b: &Vec<u8>) -> (r: Vec<u8>)
    ensures
        r@ == b@,
{
    let mut r: Vec<u8> = Vec::new();
    write_raw(b.as_slice(), &mut r);
    assert(r@ =~= b@);
    r
}

/// A copy of an optional list of integers.
pub fn copy_ints(o: &Option<Vec<i32>>) -> (r: Option<Vec<i32>>)
    ensures
        opt_seq_view(&r) == opt_seq_view(o),
{
    match o {
        None => None,
        Some(v) => {
            let mut r: Vec<i32> = Vec::new();
            let mut i: usize = 0;
            while i < v.len()
                invariant
                    i <= v.len(),
                    r@ == v@.take(i as int),
                decreases v.len() - i,
            {
                r.push(v[i]);
                i = i + 1;
                assert(r@ =~= v@.take(i as int));
            }
            assert(r@ =~= v@);
            Some(r)
        },
    }
}

/// Whether `a` and `b` hold the same bytes.
pub fn bytes_equal(a: &Vec<u8>, b: &Vec<u8>) -> (r: bool)
    ensures
        r == (a@ == b@),
{
    if a.len() != b.len() {
        return false;
    }
    let mut i: usize = 0;
    while i < a.len()
        invariant
            i <= a.len() == b.len(),
            a@.take(i as int) == b@.take(i as int),
        decreases a.len() - i,
    {
        if a[i] != b[i] {
            assert(a@[i as int] != b@[i as int]);
            return false;
        }
        assert(a@.take(i + 1) =~= a@.take(i as int).push(a@[i as int]));
        assert(b@.take(i + 1) =~= b@.take(i as int).push(b@[i as int]));
        i = i + 1;
    }
    assert(a@ =~= a@.take(i as int));
    assert(b@ =~= b@.take(i as int));
    true
}

/// Whether `a` comes before `b` byte by byte.
pub fn bytes_less(a: &Vec<u8>, b: &Vec<u8>) -> (r: bool)
    ensures
        r == bytes_lt(a@, b@),
{
    let mut i: usize = 0;
    assert(a@.skip(0) =~= a@ && b@.skip(0) =~= b@);
    while i < a.len() && i < b.len()
        invariant
            i <= a.len(),
            i <= b.len(),
            bytes_lt(a@, b@) == bytes_lt(a@.skip(i as int), b@.skip(i as int)),
        decreases a.len() - i,
    {
        let ghost sa = a@.skip(i as int);
        let ghost sb = b@.skip(i as int);
        assert(sa[0] == a@[i as int] && sb[0] == b@[i as int]);
        if a[i] != b[i] {
            return a[i] < b[i];
        }
        assert(sa.skip(1) =~= a@.skip(i + 1));
        assert(sb.skip(1) =~= b@.skip(i + 1));
        i = i + 1;
    }
    i < b.len()
}

/// Whether name `a` comes before name `b`.
pub fn name_less(a: &Option<Vec<u8>>, b: &Option<Vec<u8>>) -> (r: bool)
    ensures
        r == name_lt(opt_bytes_view(a), opt_bytes_view(b)),
{
    match (a, b) {
        (None, Some(_)) => true,
        (Some(x), Some(y)) => bytes_less(x, y),
        _ => false,
    }
}

/// Inserts `x` into `sorted` as [`insert_by_name`] says.
fn insert_topic(sorted: &mut Vec<ResponseTopic>, x: ResponseTopic)
    ensures
        seq_view(final(sorted)@) == insert_by_name(x@, seq_view(old(sorted)@)),
{
    let ghost s = seq_view(sorted@);
    let mut j: usize = 0;
    assert(s.skip(0) =~= s);
    assert(s.take(0) + insert_by_name(x@, s) =~= insert_by_name(x@, s));
    while j < sorted.len() && !name_less(&x.name, &sorted[j].name)
        invariant
            j <= sorted.len(),
            s == seq_view(sorted@),
            insert_by_name(x@, s) == s.take(j as int) + insert_by_name(x@, s.skip(j as int)),
        decreases sorted.len() - j,
    {
        proof {
            let t = s.skip(j as int);
            assert(t[0] == s[j as int]);
            assert(t.skip(1) =~= s.skip(j + 1));
            assert(s.take(j + 1) =~= s.take(j as int) + seq![s[j as int]]);
        }
        j = j + 1;
    }
    proof {
        if j < sorted.len() {
            assert(s.skip(j as int)[0] == s[j as int]);
        } else {
            assert(s.skip(j as int) =~= Seq::<ResponseTopicModel>::empty());
        }
    }
    let ghost xv = x@;
    sorted.insert(j, x);
    assert(seq_view(sorted@) =~= s.take(j as int) + (seq![xv] + s.skip(j as int)));
}

/// The answer entry for one partition record.
fn make_partition(p: &crate::records::Partition) -> (r: ResponsePartition)
    ensures
        r@ == partition_entry(p@),
{
    let r = ResponsePartition {
        error_code: ErrorCode::NoError,
        partition_index: p.partition_id,
        leader_id: p.leader,
        leader_epoch: p.leader_epoch,
        replica_nodes: copy_ints(&p.replicas),
        isr_nodes: copy_ints(&p.isr),
        eligible_leader_replicas: None,
        last_known_elr: None,
        offline_replicas: None,
        tagged_fields: TaggedFields::empty(),
    };
    r
}

/// The answer for the topic named by `topic`, from the metadata records.
pub fn make_response(records: &Vec<RecordVariant>, topic: &RequestTopic) -> (r: ResponseTopic)
    ensures
        r@ == describe_topic(seq_view(records@), topic.name@),
{
    let ghost rs = seq_view(records@);
    let mut i: usize = 0;
    let mut found: Option<Uuid> = None;
    assert(rs.skip(0) =~= rs);
    while found.is_none() && i < records.len()
        invariant
            i <= records.len(),
            rs == seq_view(records@),
            found is None ==> find_topic(rs, topic.name@) == find_topic(
                rs.skip(i as int),
                topic.name@,
            ),
            found matches Some(id) ==> find_topic(rs, topic.name@) == Some((topic.name@, id)),
        decreases records.len() - i + if found is None {
            1int
        } else {
            0int
        },
    {
        let ghost t = rs.skip(i as int);
        assert(t[0] == records@[i as int]@);
        assert(t.skip(1) =~= rs.skip(i + 1));
        let mut matched = false;
        if let RecordVariant::Topic(t) = &records[i] {
            if bytes_equal(&t.name, &topic.name) {
                found = Some(t.topic_id);
                matched = true;
            }
        }
        if !matched {
            i = i + 1;
        }
    }
    match found {
        None => {
            assert(rs.skip(i as int) =~= Seq::<RecordVariantModel>::empty());
            let empty: Vec<ResponsePartition> = Vec::new();
            let r = ResponseTopic {
                error_code: ErrorCode::UnknownTopicOrPartition,
                name: Some(copy_bytes(&topic.name)),
                topic_id: Uuid::nil(),
                is_internal: false,
                partitions: Some(empty),
                topic_authorized_operations: 0,
                tagged_fields: TaggedFields::empty(),
            };
            assert(r@.partitions =~= Some(Seq::<ResponsePartitionModel>::empty()));
            r
        },
        Some(id) => {
            let mut parts: Vec<ResponsePartition> = Vec::new();
            let mut k: usize = 0;
            assert(seq_view(parts@) =~= partitions_of(rs.take(0), id));
            while k < records.len()
                invariant
                    k <= records.len(),
                    rs == seq_view(records@),
                    seq_view(parts@) == partitions_of(rs.take(k as int), id),
                decreases records.len() - k,
            {
                proof {
                    assert(rs.take(k + 1).drop_last() =~= rs.take(k as int));
                    assert(rs.take(k + 1).last() == records@[k as int]@);
                }
                let ghost before = seq_view(parts@);
                if let RecordVariant::Partition(p) = &records[k] {
                    if p.topic_id == id {
                        parts.push(make_partition(p));
                        assert(seq_view(parts@) =~= before + seq![partition_entry(p@)]);
                    } else {
                        assert(seq_view(parts@) =~= before + Seq::<ResponsePartitionModel>::empty());
                    }
                } else {
                    assert(seq_view(parts@) =~= before + Seq::<ResponsePartitionModel>::empty());
                }
                k = k + 1;
            }
            assert(rs.take(k as int) =~= rs);
            ResponseTopic {
                error_code: ErrorCode::NoError,
                name: Some(copy_bytes(&topic.name)),
                topic_id: id,
                is_internal: false,
                partitions: Some(parts),
                topic_authorized_operations: 0,
                tagged_fields: TaggedFields::empty(),
            }
        },
    }
}

/// The answers for the requested topics, sorted by name.
pub fn describe(records: &Vec<RecordVariant>, request: &DescribeTopicPartitionsRequest) -> (r:
    DescribeTopicPartitionsResponseBody)
    ensures
        r@ == describe_body(seq_view(records@), request@),
{
    let ghost rs = seq_view(records@);
    let mut sorted: Vec<ResponseTopic> = Vec::new();
    match &request.topics {
        None => {
            assert(Seq::<RequestTopicModel>::empty().map_values(
                |t: RequestTopicModel| describe_topic(rs, t.name),
            ) =~= Seq::<ResponseTopicModel>::empty());
            assert(seq_view(sorted@) =~= Seq::<ResponseTopicModel>::empty());
        },
        Some(topics) => {
            let ghost req = seq_view(topics@);
            let mut i: usize = 0;
            assert(req.take(0).map_values(|t: RequestTopicModel| describe_topic(rs, t.name))
                =~= Seq::<ResponseTopicModel>::empty());
            while i < topics.len()
                invariant
                    i <= topics.len(),
                    req == seq_view(topics@),
                    rs == seq_view(records@),
                    seq_view(sorted@) == sort_by_name(
                        req.take(i as int).map_values(
                            |t: RequestTopicModel| describe_topic(rs, t.name),
                        ),
                    ),
                decreases topics.len() - i,
            {
                let answer = make_response(records, &topics[i]);
                proof {
                    let m = req.take(i + 1).map_values(
                        |t: RequestTopicModel| describe_topic(rs, t.name),
                    );
                    assert(m.drop_last() =~= req.take(i as int).map_values(
                        |t: RequestTopicModel| describe_topic(rs, t.name),
                    ));
                    assert(m.last() == answer@);
                }
                insert_topic(&mut sorted, answer);
                i = i + 1;
            }
            assert(req.take(i as int) =~= req);
            assert(seq_view(sorted@) == describe_topics(rs, req));
        },
    }
    let r = DescribeTopicPartitionsResponseBody {
        throttle_time_ms: 0,
        topics: Some(sorted),
        next_cursor: None,
        tagged_fields: TaggedFields::empty(),
    };
    r
}

/// Whether no topic's name comes before the name of a topic ahead of it.
pub open spec fn sorted_by_name(s: Seq<ResponseTopicModel>) -> bool {
    forall|i: int, j: int| 0 <= i < j < s.len() ==> !name_lt(#[trigger] s[j].name, #[trigger] s[i].name)
}

proof fn lemma_bytes_lt_irreflexive(a: Seq<u8>)
    ensures
        !bytes_lt(a, a),
    decreases a.len(),
{
    if a.len() > 0 {
        lemma_bytes_lt_irreflexive(a.skip(1));
    }
}

proof fn lemma_bytes_lt_transitive(a: Seq<u8>, b: Seq<u8>, c: Seq<u8>)
    requires
        bytes_lt(a, b),
        bytes_lt(b, c),
    ensures
        bytes_lt(a, c),
    decreases a.len(),
{
    if a.len() > 0 && a[0] == b[0] && b[0] == c[0] {
        lemma_bytes_lt_transitive(a.skip(1), b.skip(1), c.skip(1));
    }
}

proof fn lemma_name_lt_order(a: Option<Seq<u8>>, b: Option<Seq<u8>>, c: Option<Seq<u8>>)
    ensures
        !name_lt(a, a),
        name_lt(a, b) && name_lt(b, c) ==> name_lt(a, c),
{
    if let Some(x) = a {
        lemma_bytes_lt_irreflexive(x);
        if name_lt(a, b) && name_lt(b, c) {
            lemma_bytes_lt_transitive(x, b->Some_0, c->Some_0);
        }
    }
}

/// Where [`insert_by_name`] puts its element.
pub open spec fn insert_position(x: ResponseTopicModel, s: Seq<ResponseTopicModel>) -> int
    decreases s.len(),
{
    if s.len() == 0 || name_lt(x.name, s[0].name) {
        0
    } else {
        1 + insert_position(x, s.skip(1))
    }
}

proof fn lemma_insert_position(x: ResponseTopicModel, s: Seq<ResponseTopicModel>)
    ensures
        0 <= insert_position(x, s) <= s.len(),
        insert_by_name(x, s) == s.insert(insert_position(x, s), x),
        forall|m: int| 0 <= m < insert_position(x, s) ==> !name_lt(x.name, #[trigger] s[m].name),
        insert_position(x, s) < s.len() ==> name_lt(x.name, s[insert_position(x, s)].name),
    decreases s.len(),
{
    if s.len() == 0 || name_lt(x.name, s[0].name) {
        assert(seq![x] + s =~= s.insert(0, x));
    } else {
        let rest = s.skip(1);
        lemma_insert_position(x, rest);
        let k = insert_position(x, rest);
        assert(seq![s[0]] + rest.insert(k, x) =~= s.insert(k + 1, x));
        assert forall|m: int| 0 <= m < k + 1 implies !name_lt(x.name, #[trigger] s[m].name) by {
            if m > 0 {
                assert(s[m] == rest[m - 1]);
            }
        }
        if k < rest.len() {
            assert(s[k + 1] == rest[k]);
        }
    }
}

proof fn lemma_insert_keeps_sorted(x: ResponseTopicModel, s: Seq<ResponseTopicModel>)
    requires
        sorted_by_name(s),
    ensures
        sorted_by_name(insert_by_name(x, s)),
{
    lemma_insert_position(x, s);
    let k = insert_position(x, s);
    let t = s.insert(k, x);
    assert forall|i: int, j: int| 0 <= i < j < t.len() implies !name_lt(
        #[trigger] t[j].name,
        #[trigger] t[i].name,
    ) by {
        if i == k {
            // t[j] is s[j - 1], and x comes before s[k].
            lemma_name_lt_order(t[j].name, x.name, s[k].name);
            lemma_name_lt_order(s[k].name, s[k].name, s[k].name);
            if j - 1 > k {
                assert(!name_lt(s[j - 1].name, s[k].name));
            }
        } else if j == k {
            assert(t[i] == s[i]);
        } else if j < k {
            assert(t[i] == s[i] && t[j] == s[j]);
        } else if i < k {
            assert(t[i] == s[i] && t[j] == s[j - 1]);
        } else {
            assert(t[i] == s[i - 1] && t[j] == s[j - 1]);
        }
    }
}

/// Sorting by name gives a sorted sequence with the same topics.
pub proof fn lemma_sort_by_name(s: Seq<ResponseTopicModel>)
    ensures
        sorted_by_name(sort_by_name(s)),
        sort_by_name(s).to_multiset() == s.to_multiset(),
    decreases s.len(),
{
    broadcast use vstd::seq_lib::to_multiset_insert, vstd::seq_lib::to_multiset_build;

    if s.len() == 0 {
        assert(s =~= Seq::<ResponseTopicModel>::empty());
    } else {
        let front = s.drop_last();
        lemma_sort_by_name(front);
        lemma_insert_keeps_sorted(s.last(), sort_by_name(front));
        lemma_insert_position(s.last(), sort_by_name(front));
        assert(front.push(s.last()) =~= s);
    }
}

/// The topics of a DescribeTopicPartitions answer are sorted by name, and are
/// the answers for the requested names, each once per request.
pub proof fn lemma_describe_topics_sorted(rs: Seq<RecordVariantModel>, req: Seq<RequestTopicModel>)
    ensures
        sorted_by_name(describe_topics(rs, req)),
        describe_topics(rs, req).to_multiset() == req.map_values(
            |t: RequestTopicModel| describe_topic(rs, t.name),
        ).to_multiset(),
{
    lemma_sort_by_name(req.map_values(|t: RequestTopicModel| describe_topic(rs, t.name)));
}

} // verus!

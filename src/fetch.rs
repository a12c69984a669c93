//! The Fetch API (version 16). Records are never served: a known partition is
//! answered with an empty record set, an unknown one with `UnknownTopicId`.
use vstd::prelude::*;

use crate::array::{
    lemma_seq_round_trip, opt_seq_view, parse_seq, read_seq, seq_size, seq_valid, seq_view,
    seq_wire, seq_writable, write_seq,
};
use crate::codec::{
    bytes_size, bytes_wire, len_fits, len_writable, lemma_bytes_round_trip, lemma_i32_round_trip,
    lemma_i64_round_trip, lemma_i8_round_trip, nullable_bytes_size, nullable_bytes_wire,
    opt_bytes_view, parse_bytes, parse_i32, parse_i64, parse_i8, read_bytes, read_i32,
    read_i64, read_i8, wire_i16, wire_i32, wire_i64, wire_i8, write_bytes, write_i16, write_i32,
    write_i64, write_i8, write_nullable_bytes, Codec, Encode, LenKind,
};
use crate::error::KafkaError;
use crate::error_code::{error_code_value, ErrorCode};
use crate::primitives::{lemma_concat_assoc, lemma_holds_split, Uuid};
use crate::records::{RecordVariant, RecordVariantModel};
use crate::tagged::TaggedFields;

verus! {

/// A partition to fetch from.
#[derive(Debug, Clone, PartialEq, Eq)]
pub struct FetchRequestPartition {
    pub partition_index: i32,
    pub current_leader_epoch: i32,
    pub fetch_offset: i64,
    pub last_fetched_epoch: i32,
    pub log_start_offset: i64,
    pub partition_max_bytes: i32,
    pub tagged_fields: TaggedFields,
}

/// The model of a [`FetchRequestPartition`].
pub struct FetchRequestPartitionModel {
    pub partition_index: i32,
    pub current_leader_epoch: i32,
    pub fetch_offset: i64,
    pub last_fetched_epoch: i32,
    pub log_start_offset: i64,
    pub partition_max_bytes: i32,
    pub tagged_fields: Seq<(u32, Seq<u8>)>,
}

impl View for FetchRequestPartition {
    type V = FetchRequestPartitionModel;

    open spec fn view(&self) -> FetchRequestPartitionModel {
        FetchRequestPartitionModel {
            partition_index: self.partition_index,
            current_leader_epoch: self.current_leader_epoch,
            fetch_offset: self.fetch_offset,
            last_fetched_epoch: self.last_fetched_epoch,
            log_start_offset: self.log_start_offset,
            partition_max_bytes: self.partition_max_bytes,
            tagged_fields: self.tagged_fields@,
        }
    }
}

impl Encode for FetchRequestPartition {
    open spec fn writable(v: FetchRequestPartitionModel) -> bool {
        TaggedFields::writable(v.tagged_fields)
    }

    open spec fn wire(v: FetchRequestPartitionModel) -> Seq<u8> {
        wire_i32(v.partition_index)
            + wire_i32(v.current_leader_epoch)
            + wire_i64(v.fetch_offset)
            + wire_i32(v.last_fetched_epoch)
            + wire_i64(v.log_start_offset)
            + wire_i32(v.partition_max_bytes)
            + TaggedFields::wire(v.tagged_fields)
    }

    fn byte_size(&self) -> (r: usize) {
        4 + 4 + 8 + 4 + 8 + 4 + self.tagged_fields.byte_size()
    }

    fn encode(&self, out: &mut Vec<u8>) {
        let ghost o = old(out)@;
        let ghost v = self@;
        write_i32(self.partition_index, out);
        let ghost w = wire_i32(v.partition_index);
        write_i32(self.current_leader_epoch, out);
        proof {
            lemma_concat_assoc(o, w, wire_i32(v.current_leader_epoch));
            w = w + wire_i32(v.current_leader_epoch);
        }
        write_i64(self.fetch_offset, out);
        proof {
            lemma_concat_assoc(o, w, wire_i64(v.fetch_offset));
            w = w + wire_i64(v.fetch_offset);
        }
        write_i32(self.last_fetched_epoch, out);
        proof {
            lemma_concat_assoc(o, w, wire_i32(v.last_fetched_epoch));
            w = w + wire_i32(v.last_fetched_epoch);
        }
        write_i64(self.log_start_offset, out);
        proof {
            lemma_concat_assoc(o, w, wire_i64(v.log_start_offset));
            w = w + wire_i64(v.log_start_offset);
        }
        write_i32(self.partition_max_bytes, out);
        proof {
            lemma_concat_assoc(o, w, wire_i32(v.partition_max_bytes));
            w = w + wire_i32(v.partition_max_bytes);
        }
        self.tagged_fields.encode(out);
        proof {
            lemma_concat_assoc(o, w, TaggedFields::wire(v.tagged_fields));
        }
    }
}

impl Codec for FetchRequestPartition {
    open spec fn valid(v: FetchRequestPartitionModel) -> bool {
        TaggedFields::valid(v.tagged_fields)
    }

    open spec fn parse(s: Seq<u8>, i: int) -> Result<(FetchRequestPartitionModel, int), KafkaError> {
        match parse_i32(s, i) {
            Err(e) => Err(e),
            Ok((partition_index, i)) => match parse_i32(s, i) {
                Err(e) => Err(e),
                Ok((current_leader_epoch, i)) => match parse_i64(s, i) {
                    Err(e) => Err(e),
                    Ok((fetch_offset, i)) => match parse_i32(s, i) {
                        Err(e) => Err(e),
                        Ok((last_fetched_epoch, i)) => match parse_i64(s, i) {
                            Err(e) => Err(e),
                            Ok((log_start_offset, i)) => match parse_i32(s, i) {
                                Err(e) => Err(e),
                                Ok((partition_max_bytes, i)) => match TaggedFields::parse(s, i) {
                                    Err(e) => Err(e),
                                    Ok((tagged_fields, i)) => Ok(
                                        (
                                            FetchRequestPartitionModel {
                                                partition_index,
                                                current_leader_epoch,
                                                fetch_offset,
                                                last_fetched_epoch,
                                                log_start_offset,
                                                partition_max_bytes,
                                                tagged_fields,
                                            },
                                            i,
                                        ),
                                    ),
                                },
                            },
                        },
                    },
                },
            },
        }
    }

    proof fn lemma_round_trip(v: FetchRequestPartitionModel, s: Seq<u8>, i: int) {
        let w0 = wire_i32(v.partition_index);
        let w1 = wire_i32(v.current_leader_epoch);
        let w2 = wire_i64(v.fetch_offset);
        let w3 = wire_i32(v.last_fetched_epoch);
        let w4 = wire_i64(v.log_start_offset);
        let w5 = wire_i32(v.partition_max_bytes);
        let w6 = TaggedFields::wire(v.tagged_fields);
        lemma_holds_split(s, i, w0 + w1 + w2 + w3 + w4 + w5, w6);
        lemma_holds_split(s, i, w0 + w1 + w2 + w3 + w4, w5);
        lemma_holds_split(s, i, w0 + w1 + w2 + w3, w4);
        lemma_holds_split(s, i, w0 + w1 + w2, w3);
        lemma_holds_split(s, i, w0 + w1, w2);
        lemma_holds_split(s, i, w0, w1);
        let p0 = i;
        let p1 = p0 + w0.len();
        let p2 = p1 + w1.len();
        let p3 = p2 + w2.len();
        let p4 = p3 + w3.len();
        let p5 = p4 + w4.len();
        let p6 = p5 + w5.len();
        lemma_i32_round_trip(v.partition_index, s, p0);
        lemma_i32_round_trip(v.current_leader_epoch, s, p1);
        lemma_i64_round_trip(v.fetch_offset, s, p2);
        lemma_i32_round_trip(v.last_fetched_epoch, s, p3);
        lemma_i64_round_trip(v.log_start_offset, s, p4);
        lemma_i32_round_trip(v.partition_max_bytes, s, p5);
        TaggedFields::lemma_round_trip(v.tagged_fields, s, p6);
    }

    fn decode(buf: &[u8], pos: usize) -> (r: Result<(FetchRequestPartition, usize), KafkaError>) {
        let p = pos;
        let (partition_index, p) = match read_i32(buf, p) {
            Ok(x) => x,
            Err(e) => return Err(e),
        };
        let (current_leader_epoch, p) = match read_i32(buf, p) {
            Ok(x) => x,
            Err(e) => return Err(e),
        };
        let (fetch_offset, p) = match read_i64(buf, p) {
            Ok(x) => x,
            Err(e) => return Err(e),
        };
        let (last_fetched_epoch, p) = match read_i32(buf, p) {
            Ok(x) => x,
            Err(e) => return Err(e),
        };
        let (log_start_offset, p) = match read_i64(buf, p) {
            Ok(x) => x,
            Err(e) => return Err(e),
        };
        let (partition_max_bytes, p) = match read_i32(buf, p) {
            Ok(x) => x,
            Err(e) => return Err(e),
        };
        let (tagged_fields, p) = match TaggedFields::decode(buf, p) {
            Ok(x) => x,
            Err(e) => return Err(e),
        };
        Ok((
            FetchRequestPartition {
                partition_index,
                current_leader_epoch,
                fetch_offset,
                last_fetched_epoch,
                log_start_offset,
                partition_max_bytes,
                tagged_fields,
            },
            p,
        ))
    }
}

/// A topic to fetch from, by UUID.
#[derive(Debug, Clone, PartialEq, Eq)]
pub struct FetchRequestTopic {
    pub id: Uuid,
    pub partitions: Option<Vec<FetchRequestPartition>>,
    pub tagged_fields: TaggedFields,
}

/// The model of a [`FetchRequestTopic`].
pub struct FetchRequestTopicModel {
    pub id: Uuid,
    pub partitions: Option<Seq<FetchRequestPartitionModel>>,
    pub tagged_fields: Seq<(u32, Seq<u8>)>,
}

impl View for FetchRequestTopic {
    type V = FetchRequestTopicModel;

    open spec fn view(&self) -> FetchRequestTopicModel {
        FetchRequestTopicModel {
            id: self.id,
            partitions: opt_seq_view(&self.partitions),
            tagged_fields: self.tagged_fields@,
        }
    }
}

impl Encode for FetchRequestTopic {
    open spec fn writable(v: FetchRequestTopicModel) -> bool {
        seq_writable::<FetchRequestPartition>(LenKind::Uvarint, v.partitions)
        && TaggedFields::writable(v.tagged_fields)
    }

    open spec fn wire(v: FetchRequestTopicModel) -> Seq<u8> {
        Uuid::wire(v.id)
            + seq_wire::<FetchRequestPartition>(LenKind::Uvarint, v.partitions)
            + TaggedFields::wire(v.tagged_fields)
    }

    fn byte_size(&self) -> (r: usize) {
        16 + seq_size(LenKind::Uvarint, &self.partitions) + self.tagged_fields.byte_size()
    }

    fn encode(&self, out: &mut Vec<u8>) {
        let ghost o = old(out)@;
        let ghost v = self@;
        self.id.encode(out);
        let ghost w = Uuid::wire(v.id);
        write_seq(LenKind::Uvarint, &self.partitions, out);
        proof {
            lemma_concat_assoc(o, w, seq_wire::<FetchRequestPartition>(LenKind::Uvarint, v.partitions));
            w = w + seq_wire::<FetchRequestPartition>(LenKind::Uvarint, v.partitions);
        }
        self.tagged_fields.encode(out);
        proof {
            lemma_concat_assoc(o, w, TaggedFields::wire(v.tagged_fields));
        }
    }
}

impl Codec for FetchRequestTopic {
    open spec fn valid(v: FetchRequestTopicModel) -> bool {
        seq_valid::<FetchRequestPartition>(LenKind::Uvarint, v.partitions)
        && TaggedFields::valid(v.tagged_fields)
    }

    open spec fn parse(s: Seq<u8>, i: int) -> Result<(FetchRequestTopicModel, int), KafkaError> {
        match Uuid::parse(s, i) {
            Err(e) => Err(e),
            Ok((id, i)) => match parse_seq::<FetchRequestPartition>(LenKind::Uvarint, s, i) {
                Err(e) => Err(e),
                Ok((partitions, i)) => match TaggedFields::parse(s, i) {
                    Err(e) => Err(e),
                    Ok((tagged_fields, i)) => Ok(
                        (FetchRequestTopicModel { id, partitions, tagged_fields }, i),
                    ),
                },
            },
        }
    }

    proof fn lemma_round_trip(v: FetchRequestTopicModel, s: Seq<u8>, i: int) {
        let w0 = Uuid::wire(v.id);
        let w1 = seq_wire::<FetchRequestPartition>(LenKind::Uvarint, v.partitions);
        let w2 = TaggedFields::wire(v.tagged_fields);
        lemma_holds_split(s, i, w0 + w1, w2);
        lemma_holds_split(s, i, w0, w1);
        let p0 = i;
        let p1 = p0 + w0.len();
        let p2 = p1 + w1.len();
        Uuid::lemma_round_trip(v.id, s, p0);
        lemma_seq_round_trip::<FetchRequestPartition>(LenKind::Uvarint, v.partitions, s, p1);
        TaggedFields::lemma_round_trip(v.tagged_fields, s, p2);
    }

    fn decode(buf: &[u8], pos: usize) -> (r: Result<(FetchRequestTopic, usize), KafkaError>) {
        let p = pos;
        let (id, p) = match Uuid::decode(buf, p) {
            Ok(x) => x,
            Err(e) => return Err(e),
        };
        let (partitions, p) = match read_seq::<FetchRequestPartition>(LenKind::Uvarint, buf, p) {
            Ok(x) => x,
            Err(e) => return Err(e),
        };
        let (tagged_fields, p) = match TaggedFields::decode(buf, p) {
            Ok(x) => x,
            Err(e) => return Err(e),
        };
        Ok((FetchRequestTopic { id, partitions, tagged_fields }, p))
    }
}

/// A topic the fetch session no longer follows.
#[derive(Debug, Clone, PartialEq, Eq)]
pub struct ForgottenTopic {
    pub id: Uuid,
    pub partitions: Option<Vec<i32>>,
    pub tagged_fields: TaggedFields,
}

/// The model of a [`ForgottenTopic`].
pub struct ForgottenTopicModel {
    pub id: Uuid,
    pub partitions: Option<Seq<i32>>,
    pub tagged_fields: Seq<(u32, Seq<u8>)>,
}

impl View for ForgottenTopic {
    type V = ForgottenTopicModel;

    open spec fn view(&self) -> ForgottenTopicModel {
        ForgottenTopicModel {
            id: self.id,
            partitions: opt_seq_view(&self.partitions),
            tagged_fields: self.tagged_fields@,
        }
    }
}

impl Encode for ForgottenTopic {
    open spec fn writable(v: ForgottenTopicModel) -> bool {
        seq_writable::<i32>(LenKind::Uvarint, v.partitions)
        && TaggedFields::writable(v.tagged_fields)
    }

    open spec fn wire(v: ForgottenTopicModel) -> Seq<u8> {
        Uuid::wire(v.id)
            + seq_wire::<i32>(LenKind::Uvarint, v.partitions)
            + TaggedFields::wire(v.tagged_fields)
    }

    fn byte_size(&self) -> (r: usize) {
        16 + seq_size(LenKind::Uvarint, &self.partitions) + self.tagged_fields.byte_size()
    }

    fn encode(&self, out: &mut Vec<u8>) {
        let ghost o = old(out)@;
        let ghost v = self@;
        self.id.encode(out);
        let ghost w = Uuid::wire(v.id);
        write_seq(LenKind::Uvarint, &self.partitions, out);
        proof {
            lemma_concat_assoc(o, w, seq_wire::<i32>(LenKind::Uvarint, v.partitions));
            w = w + seq_wire::<i32>(LenKind::Uvarint, v.partitions);
        }
        self.tagged_fields.encode(out);
        proof {
            lemma_concat_assoc(o, w, TaggedFields::wire(v.tagged_fields));
        }
    }
}

impl Codec for ForgottenTopic {
    open spec fn valid(v: ForgottenTopicModel) -> bool {
        seq_valid::<i32>(LenKind::Uvarint, v.partitions)
        && TaggedFields::valid(v.tagged_fields)
    }

    open spec fn parse(s: Seq<u8>, i: int) -> Result<(ForgottenTopicModel, int), KafkaError> {
        match Uuid::parse(s, i) {
            Err(e) => Err(e),
            Ok((id, i)) => match parse_seq::<i32>(LenKind::Uvarint, s, i) {
                Err(e) => Err(e),
                Ok((partitions, i)) => match TaggedFields::parse(s, i) {
                    Err(e) => Err(e),
                    Ok((tagged_fields, i)) => Ok(
                        (ForgottenTopicModel { id, partitions, tagged_fields }, i),
                    ),
                },
            },
        }
    }

    proof fn lemma_round_trip(v: ForgottenTopicModel, s: Seq<u8>, i: int) {
        let w0 = Uuid::wire(v.id);
        let w1 = seq_wire::<i32>(LenKind::Uvarint, v.partitions);
        let w2 = TaggedFields::wire(v.tagged_fields);
        lemma_holds_split(s, i, w0 + w1, w2);
        lemma_holds_split(s, i, w0, w1);
        let p0 = i;
        let p1 = p0 + w0.len();
        let p2 = p1 + w1.len();
        Uuid::lemma_round_trip(v.id, s, p0);
        lemma_seq_round_trip::<i32>(LenKind::Uvarint, v.partitions, s, p1);
        TaggedFields::lemma_round_trip(v.tagged_fields, s, p2);
    }

    fn decode(buf: &[u8], pos: usize) -> (r: Result<(ForgottenTopic, usize), KafkaError>) {
        let p = pos;
        let (id, p) = match Uuid::decode(buf, p) {
            Ok(x) => x,
            Err(e) => return Err(e),
        };
        let (partitions, p) = match read_seq::<i32>(LenKind::Uvarint, buf, p) {
            Ok(x) => x,
            Err(e) => return Err(e),
        };
        let (tagged_fields, p) = match TaggedFields::decode(buf, p) {
            Ok(x) => x,
            Err(e) => return Err(e),
        };
        Ok((ForgottenTopic { id, partitions, tagged_fields }, p))
    }
}

/// The body of a Fetch request (version 16).
#[derive(Debug, Clone, PartialEq, Eq)]
pub struct FetchRequest {
    pub max_wait_ms: i32,
    pub min_bytes: i32,
    pub max_bytes: i32,
    pub isolation_level: i8,
    pub session_id: i32,
    pub session_epoch: i32,
    pub topics: Option<Vec<FetchRequestTopic>>,
    pub forgotten_topics: Option<Vec<ForgottenTopic>>,
    pub rack_id: Vec<u8>,
    pub tagged_fields: TaggedFields,
}

/// The model of a [`FetchRequest`].
pub struct FetchRequestModel {
    pub max_wait_ms: i32,
    pub min_bytes: i32,
    pub max_bytes: i32,
    pub isolation_level: i8,
    pub session_id: i32,
    pub session_epoch: i32,
    pub topics: Option<Seq<FetchRequestTopicModel>>,
    pub forgotten_topics: Option<Seq<ForgottenTopicModel>>,
    pub rack_id: Seq<u8>,
    pub tagged_fields: Seq<(u32, Seq<u8>)>,
}

impl View for FetchRequest {
    type V = FetchRequestModel;

    open spec fn view(&self) -> FetchRequestModel {
        FetchRequestModel {
            max_wait_ms: self.max_wait_ms,
            min_bytes: self.min_bytes,
            max_bytes: self.max_bytes,
            isolation_level: self.isolation_level,
            session_id: self.session_id,
            session_epoch: self.session_epoch,
            topics: opt_seq_view(&self.topics),
            forgotten_topics: opt_seq_view(&self.forgotten_topics),
            rack_id: self.rack_id@,
            tagged_fields: self.tagged_fields@,
        }
    }
}

impl Encode for FetchRequest {
    open spec fn writable(v: FetchRequestModel) -> bool {
        seq_writable::<FetchRequestTopic>(LenKind::Uvarint, v.topics)
        && seq_writable::<ForgottenTopic>(LenKind::Uvarint, v.forgotten_topics)
        && len_writable(LenKind::Uvarint, v.rack_id.len())
        && TaggedFields::writable(v.tagged_fields)
    }

    open spec fn wire(v: FetchRequestModel) -> Seq<u8> {
        wire_i32(v.max_wait_ms)
            + wire_i32(v.min_bytes)
            + wire_i32(v.max_bytes)
            + wire_i8(v.isolation_level)
            + wire_i32(v.session_id)
            + wire_i32(v.session_epoch)
            + seq_wire::<FetchRequestTopic>(LenKind::Uvarint, v.topics)
            + seq_wire::<ForgottenTopic>(LenKind::Uvarint, v.forgotten_topics)
            + bytes_wire(LenKind::Uvarint, v.rack_id)
            + TaggedFields::wire(v.tagged_fields)
    }

    fn byte_size(&self) -> (r: usize) {
        4 + 4 + 4 + 1 + 4 + 4 + seq_size(LenKind::Uvarint, &self.topics)
            + seq_size(LenKind::Uvarint, &self.forgotten_topics)
            + bytes_size(LenKind::Uvarint, self.rack_id.as_slice())
            + self.tagged_fields.byte_size()
    }

    fn encode(&self, out: &mut Vec<u8>) {
        let ghost o = old(out)@;
        let ghost v = self@;
        write_i32(self.max_wait_ms, out);
        let ghost w = wire_i32(v.max_wait_ms);
        write_i32(self.min_bytes, out);
        proof {
            lemma_concat_assoc(o, w, wire_i32(v.min_bytes));
            w = w + wire_i32(v.min_bytes);
        }
        write_i32(self.max_bytes, out);
        proof {
            lemma_concat_assoc(o, w, wire_i32(v.max_bytes));
            w = w + wire_i32(v.max_bytes);
        }
        write_i8(self.isolation_level, out);
        proof {
            lemma_concat_assoc(o, w, wire_i8(v.isolation_level));
            w = w + wire_i8(v.isolation_level);
        }
        write_i32(self.session_id, out);
        proof {
            lemma_concat_assoc(o, w, wire_i32(v.session_id));
            w = w + wire_i32(v.session_id);
        }
        write_i32(self.session_epoch, out);
        proof {
            lemma_concat_assoc(o, w, wire_i32(v.session_epoch));
            w = w + wire_i32(v.session_epoch);
        }
        write_seq(LenKind::Uvarint, &self.topics, out);
        proof {
            lemma_concat_assoc(o, w, seq_wire::<FetchRequestTopic>(LenKind::Uvarint, v.topics));
            w = w + seq_wire::<FetchRequestTopic>(LenKind::Uvarint, v.topics);
        }
        write_seq(LenKind::Uvarint, &self.forgotten_topics, out);
        proof {
            lemma_concat_assoc(o, w, seq_wire::<ForgottenTopic>(LenKind::Uvarint, v.forgotten_topics));
            w = w + seq_wire::<ForgottenTopic>(LenKind::Uvarint, v.forgotten_topics);
        }
        write_bytes(LenKind::Uvarint, self.rack_id.as_slice(), out);
        proof {
            lemma_concat_assoc(o, w, bytes_wire(LenKind::Uvarint, v.rack_id));
            w = w + bytes_wire(LenKind::Uvarint, v.rack_id);
        }
        self.tagged_fields.encode(out);
        proof {
            lemma_concat_assoc(o, w, TaggedFields::wire(v.tagged_fields));
        }
    }
}

impl Codec for FetchRequest {
    open spec fn valid(v: FetchRequestModel) -> bool {
        seq_valid::<FetchRequestTopic>(LenKind::Uvarint, v.topics)
        && seq_valid::<ForgottenTopic>(LenKind::Uvarint, v.forgotten_topics)
        && len_fits(LenKind::Uvarint, v.rack_id.len())
        && TaggedFields::valid(v.tagged_fields)
    }

    open spec fn parse(s: Seq<u8>, i: int) -> Result<(FetchRequestModel, int), KafkaError> {
        match parse_i32(s, i) {
            Err(e) => Err(e),
            Ok((max_wait_ms, i)) => match parse_i32(s, i) {
                Err(e) => Err(e),
                Ok((min_bytes, i)) => match parse_i32(s, i) {
                    Err(e) => Err(e),
                    Ok((max_bytes, i)) => match parse_i8(s, i) {
                        Err(e) => Err(e),
                        Ok((isolation_level, i)) => match parse_i32(s, i) {
                            Err(e) => Err(e),
                            Ok((session_id, i)) => match parse_i32(s, i) {
                                Err(e) => Err(e),
                                Ok((session_epoch, i)) => match parse_seq::<FetchRequestTopic>(LenKind::Uvarint, s, i) {
                                    Err(e) => Err(e),
                                    Ok((topics, i)) => match parse_seq::<ForgottenTopic>(LenKind::Uvarint, s, i) {
                                        Err(e) => Err(e),
                                        Ok((forgotten_topics, i)) => match parse_bytes(LenKind::Uvarint, s, i) {
                                            Err(e) => Err(e),
                                            Ok((rack_id, i)) => match TaggedFields::parse(s, i) {
                                                Err(e) => Err(e),
                                                Ok((tagged_fields, i)) => Ok(
                                                    (
                                                        FetchRequestModel {
                                                            max_wait_ms,
                                                            min_bytes,
                                                            max_bytes,
                                                            isolation_level,
                                                            session_id,
                                                            session_epoch,
                                                            topics,
                                                            forgotten_topics,
                                                            rack_id,
                                                            tagged_fields,
                                                        },
                                                        i,
                                                    ),
                                                ),
                                            },
                                        },
                                    },
                                },
                            },
                        },
                    },
                },
            },
        }
    }

    proof fn lemma_round_trip(v: FetchRequestModel, s: Seq<u8>, i: int) {
        let w0 = wire_i32(v.max_wait_ms);
        let w1 = wire_i32(v.min_bytes);
        let w2 = wire_i32(v.max_bytes);
        let w3 = wire_i8(v.isolation_level);
        let w4 = wire_i32(v.session_id);
        let w5 = wire_i32(v.session_epoch);
        let w6 = seq_wire::<FetchRequestTopic>(LenKind::Uvarint, v.topics);
        let w7 = seq_wire::<ForgottenTopic>(LenKind::Uvarint, v.forgotten_topics);
        let w8 = bytes_wire(LenKind::Uvarint, v.rack_id);
        let w9 = TaggedFields::wire(v.tagged_fields);
        lemma_holds_split(s, i, w0 + w1 + w2 + w3 + w4 + w5 + w6 + w7 + w8, w9);
        lemma_holds_split(s, i, w0 + w1 + w2 + w3 + w4 + w5 + w6 + w7, w8);
        lemma_holds_split(s, i, w0 + w1 + w2 + w3 + w4 + w5 + w6, w7);
        lemma_holds_split(s, i, w0 + w1 + w2 + w3 + w4 + w5, w6);
        lemma_holds_split(s, i, w0 + w1 + w2 + w3 + w4, w5);
        lemma_holds_split(s, i, w0 + w1 + w2 + w3, w4);
        lemma_holds_split(s, i, w0 + w1 + w2, w3);
        lemma_holds_split(s, i, w0 + w1, w2);
        lemma_holds_split(s, i, w0, w1);
        let p0 = i;
        let p1 = p0 + w0.len();
        let p2 = p1 + w1.len();
        let p3 = p2 + w2.len();
        let p4 = p3 + w3.len();
        let p5 = p4 + w4.len();
        let p6 = p5 + w5.len();
        let p7 = p6 + w6.len();
        let p8 = p7 + w7.len();
        let p9 = p8 + w8.len();
        lemma_i32_round_trip(v.max_wait_ms, s, p0);
        lemma_i32_round_trip(v.min_bytes, s, p1);
        lemma_i32_round_trip(v.max_bytes, s, p2);
        lemma_i8_round_trip(v.isolation_level, s, p3);
        lemma_i32_round_trip(v.session_id, s, p4);
        lemma_i32_round_trip(v.session_epoch, s, p5);
        lemma_seq_round_trip::<FetchRequestTopic>(LenKind::Uvarint, v.topics, s, p6);
        lemma_seq_round_trip::<ForgottenTopic>(LenKind::Uvarint, v.forgotten_topics, s, p7);
        lemma_bytes_round_trip(LenKind::Uvarint, v.rack_id, s, p8);
        TaggedFields::lemma_round_trip(v.tagged_fields, s, p9);
    }

    fn decode(buf: &[u8], pos: usize) -> (r: Result<(FetchRequest, usize), KafkaError>) {
        let p = pos;
        let (max_wait_ms, p) = match read_i32(buf, p) {
            Ok(x) => x,
            Err(e) => return Err(e),
        };
        let (min_bytes, p) = match read_i32(buf, p) {
            Ok(x) => x,
            Err(e) => return Err(e),
        };
        let (max_bytes, p) = match read_i32(buf, p) {
            Ok(x) => x,
            Err(e) => return Err(e),
        };
        let (isolation_level, p) = match read_i8(buf, p) {
            Ok(x) => x,
            Err(e) => return Err(e),
        };
        let (session_id, p) = match read_i32(buf, p) {
            Ok(x) => x,
            Err(e) => return Err(e),
        };
        let (session_epoch, p) = match read_i32(buf, p) {
            Ok(x) => x,
            Err(e) => return Err(e),
        };
        let (topics, p) = match read_seq::<FetchRequestTopic>(LenKind::Uvarint, buf, p) {
            Ok(x) => x,
            Err(e) => return Err(e),
        };
        let (forgotten_topics, p) = match read_seq::<ForgottenTopic>(LenKind::Uvarint, buf, p) {
            Ok(x) => x,
            Err(e) => return Err(e),
        };
        let (rack_id, p) = match read_bytes(LenKind::Uvarint, buf, p) {
            Ok(x) => x,
            Err(e) => return Err(e),
        };
        let (tagged_fields, p) = match TaggedFields::decode(buf, p) {
            Ok(x) => x,
            Err(e) => return Err(e),
        };
        Ok((
            FetchRequest {
                max_wait_ms,
                min_bytes,
                max_bytes,
                isolation_level,
                session_id,
                session_epoch,
                topics,
                forgotten_topics,
                rack_id,
                tagged_fields,
            },
            p,
        ))
    }
}

/// A transaction aborted within the fetched range.
#[derive(Debug, Clone, PartialEq, Eq)]
pub struct AbortedTransaction {
    pub producer_id: i64,
    pub first_offset: i64,
    pub tagged_fields: TaggedFields,
}

/// The model of a [`AbortedTransaction`].
pub struct AbortedTransactionModel {
    pub producer_id: i64,
    pub first_offset: i64,
    pub tagged_fields: Seq<(u32, Seq<u8>)>,
}

impl View for AbortedTransaction {
    type V = AbortedTransactionModel;

    open spec fn view(&self) -> AbortedTransactionModel {
        AbortedTransactionModel {
            producer_id: self.producer_id,
            first_offset: self.first_offset,
            tagged_fields: self.tagged_fields@,
        }
    }
}

impl Encode for AbortedTransaction {
    open spec fn writable(v: AbortedTransactionModel) -> bool {
        TaggedFields::writable(v.tagged_fields)
    }

    open spec fn wire(v: AbortedTransactionModel) -> Seq<u8> {
        wire_i64(v.producer_id)
            + wire_i64(v.first_offset)
            + TaggedFields::wire(v.tagged_fields)
    }

    fn byte_size(&self) -> (r: usize) {
        8 + 8 + self.tagged_fields.byte_size()
    }

    fn encode(&self, out: &mut Vec<u8>) {
        let ghost o = old(out)@;
        let ghost v = self@;
        write_i64(self.producer_id, out);
        let ghost w = wire_i64(v.producer_id);
        write_i64(self.first_offset, out);
        proof {
            lemma_concat_assoc(o, w, wire_i64(v.first_offset));
            w = w + wire_i64(v.first_offset);
        }
        self.tagged_fields.encode(out);
        proof {
            lemma_concat_assoc(o, w, TaggedFields::wire(v.tagged_fields));
        }
    }
}

/// The answer for one fetched partition.
#[derive(Debug, Clone, PartialEq, Eq)]
pub struct FetchResponsePartition {
    pub partition_index: i32,
    pub error_code: ErrorCode,
    pub high_watermark: i64,
    pub last_stable_offset: i64,
    pub log_start_offset: i64,
    pub aborted_transactions: Option<Vec<AbortedTransaction>>,
    pub preferred_read_replica: i32,
    pub records: Option<Vec<u8>>,
    pub tagged_fields: TaggedFields,
}

/// The model of a [`FetchResponsePartition`].
pub struct FetchResponsePartitionModel {
    pub partition_index: i32,
    pub error_code: ErrorCode,
    pub high_watermark: i64,
    pub last_stable_offset: i64,
    pub log_start_offset: i64,
    pub aborted_transactions: Option<Seq<AbortedTransactionModel>>,
    pub preferred_read_replica: i32,
    pub records: Option<Seq<u8>>,
    pub tagged_fields: Seq<(u32, Seq<u8>)>,
}

impl View for FetchResponsePartition {
    type V = FetchResponsePartitionModel;

    open spec fn view(&self) -> FetchResponsePartitionModel {
        FetchResponsePartitionModel {
            partition_index: self.partition_index,
            error_code: self.error_code,
            high_watermark: self.high_watermark,
            last_stable_offset: self.last_stable_offset,
            log_start_offset: self.log_start_offset,
            aborted_transactions: opt_seq_view(&self.aborted_transactions),
            preferred_read_replica: self.preferred_read_replica,
            records: opt_bytes_view(&self.records),
            tagged_fields: self.tagged_fields@,
        }
    }
}

impl Encode for FetchResponsePartition {
    open spec fn writable(v: FetchResponsePartitionModel) -> bool {
        seq_writable::<AbortedTransaction>(LenKind::Uvarint, v.aborted_transactions)
        && (v.records matches Some(b) ==> len_writable(LenKind::Uvarint, b.len()))
        && TaggedFields::writable(v.tagged_fields)
    }

    open spec fn wire(v: FetchResponsePartitionModel) -> Seq<u8> {
        wire_i32(v.partition_index)
            + wire_i16(error_code_value(v.error_code))
            + wire_i64(v.high_watermark)
            + wire_i64(v.last_stable_offset)
            + wire_i64(v.log_start_offset)
            + seq_wire::<AbortedTransaction>(LenKind::Uvarint, v.aborted_transactions)
            + wire_i32(v.preferred_read_replica)
            + nullable_bytes_wire(LenKind::Uvarint, v.records)
            + TaggedFields::wire(v.tagged_fields)
    }

    fn byte_size(&self) -> (r: usize) {
        4 + 2 + 8 + 8 + 8 + seq_size(LenKind::Uvarint, &self.aborted_transactions) + 4
            + nullable_bytes_size(LenKind::Uvarint, &self.records)
            + self.tagged_fields.byte_size()
    }

    fn encode(&self, out: &mut Vec<u8>) {
        let ghost o = old(out)@;
        let ghost v = self@;
        write_i32(self.partition_index, out);
        let ghost w = wire_i32(v.partition_index);
        write_i16(self.error_code.code(), out);
        proof {
            lemma_concat_assoc(o, w, wire_i16(error_code_value(v.error_code)));
            w = w + wire_i16(error_code_value(v.error_code));
        }
        write_i64(self.high_watermark, out);
        proof {
            lemma_concat_assoc(o, w, wire_i64(v.high_watermark));
            w = w + wire_i64(v.high_watermark);
        }
        write_i64(self.last_stable_offset, out);
        proof {
            lemma_concat_assoc(o, w, wire_i64(v.last_stable_offset));
            w = w + wire_i64(v.last_stable_offset);
        }
        write_i64(self.log_start_offset, out);
        proof {
            lemma_concat_assoc(o, w, wire_i64(v.log_start_offset));
            w = w + wire_i64(v.log_start_offset);
        }
        write_seq(LenKind::Uvarint, &self.aborted_transactions, out);
        proof {
            lemma_concat_assoc(o, w, seq_wire::<AbortedTransaction>(LenKind::Uvarint, v.aborted_transactions));
            w = w + seq_wire::<AbortedTransaction>(LenKind::Uvarint, v.aborted_transactions);
        }
        write_i32(self.preferred_read_replica, out);
        proof {
            lemma_concat_assoc(o, w, wire_i32(v.preferred_read_replica));
            w = w + wire_i32(v.preferred_read_replica);
        }
        write_nullable_bytes(LenKind::Uvarint, &self.records, out);
        proof {
            lemma_concat_assoc(o, w, nullable_bytes_wire(LenKind::Uvarint, v.records));
            w = w + nullable_bytes_wire(LenKind::Uvarint, v.records);
        }
        self.tagged_fields.encode(out);
        proof {
            lemma_concat_assoc(o, w, TaggedFields::wire(v.tagged_fields));
        }
    }
}

/// The answers for one fetched topic.
#[derive(Debug, Clone, PartialEq, Eq)]
pub struct FetchResponseTopic {
    pub id: Uuid,
    pub partitions: Option<Vec<FetchResponsePartition>>,
    pub tagged_fields: TaggedFields,
}

/// The model of a [`FetchResponseTopic`].
pub struct FetchResponseTopicModel {
    pub id: Uuid,
    pub partitions: Option<Seq<FetchResponsePartitionModel>>,
    pub tagged_fields: Seq<(u32, Seq<u8>)>,
}

impl View for FetchResponseTopic {
    type V = FetchResponseTopicModel;

    open spec fn view(&self) -> FetchResponseTopicModel {
        FetchResponseTopicModel {
            id: self.id,
            partitions: opt_seq_view(&self.partitions),
            tagged_fields: self.tagged_fields@,
        }
    }
}

impl Encode for FetchResponseTopic {
    open spec fn writable(v: FetchResponseTopicModel) -> bool {
        seq_writable::<FetchResponsePartition>(LenKind::Uvarint, v.partitions)
        && TaggedFields::writable(v.tagged_fields)
    }

    open spec fn wire(v: FetchResponseTopicModel) -> Seq<u8> {
        Uuid::wire(v.id)
            + seq_wire::<FetchResponsePartition>(LenKind::Uvarint, v.partitions)
            + TaggedFields::wire(v.tagged_fields)
    }

    fn byte_size(&self) -> (r: usize) {
        16 + seq_size(LenKind::Uvarint, &self.partitions) + self.tagged_fields.byte_size()
    }

    fn encode(&self, out: &mut Vec<u8>) {
        let ghost o = old(out)@;
        let ghost v = self@;
        self.id.encode(out);
        let ghost w = Uuid::wire(v.id);
        write_seq(LenKind::Uvarint, &self.partitions, out);
        proof {
            lemma_concat_assoc(o, w, seq_wire::<FetchResponsePartition>(LenKind::Uvarint, v.partitions));
            w = w + seq_wire::<FetchResponsePartition>(LenKind::Uvarint, v.partitions);
        }
        self.tagged_fields.encode(out);
        proof {
            lemma_concat_assoc(o, w, TaggedFields::wire(v.tagged_fields));
        }
    }
}

/// The body of a Fetch response (version 16).
#[derive(Debug, Clone, PartialEq, Eq)]
pub struct FetchResponseBody {
    pub throttle_time_ms: i32,
    pub error_code: ErrorCode,
    pub session_id: i32,
    pub responses: Option<Vec<FetchResponseTopic>>,
    pub tagged_fields: TaggedFields,
}

/// The model of a [`FetchResponseBody`].
pub struct FetchResponseBodyModel {
    pub throttle_time_ms: i32,
    pub error_code: ErrorCode,
    pub session_id: i32,
    pub responses: Option<Seq<FetchResponseTopicModel>>,
    pub tagged_fields: Seq<(u32, Seq<u8>)>,
}

impl View for FetchResponseBody {
    type V = FetchResponseBodyModel;

    open spec fn view(&self) -> FetchResponseBodyModel {
        FetchResponseBodyModel {
            throttle_time_ms: self.throttle_time_ms,
            error_code: self.error_code,
            session_id: self.session_id,
            responses: opt_seq_view(&self.responses),
            tagged_fields: self.tagged_fields@,
        }
    }
}

impl Encode for FetchResponseBody {
    open spec fn writable(v: FetchResponseBodyModel) -> bool {
        seq_writable::<FetchResponseTopic>(LenKind::Uvarint, v.responses)
        && TaggedFields::writable(v.tagged_fields)
    }

    open spec fn wire(v: FetchResponseBodyModel) -> Seq<u8> {
        wire_i32(v.throttle_time_ms)
            + wire_i16(error_code_value(v.error_code))
            + wire_i32(v.session_id)
            + seq_wire::<FetchResponseTopic>(LenKind::Uvarint, v.responses)
            + TaggedFields::wire(v.tagged_fields)
    }

    fn byte_size(&self) -> (r: usize) {
        4 + 2 + 4 + seq_size(LenKind::Uvarint, &self.responses) + self.tagged_fields.byte_size()
    }

    fn encode(&self, out: &mut Vec<u8>) {
        let ghost o = old(out)@;
        let ghost v = self@;
        write_i32(self.throttle_time_ms, out);
        let ghost w = wire_i32(v.throttle_time_ms);
        write_i16(self.error_code.code(), out);
        proof {
            lemma_concat_assoc(o, w, wire_i16(error_code_value(v.error_code)));
            w = w + wire_i16(error_code_value(v.error_code));
        }
        write_i32(self.session_id, out);
        proof {
            lemma_concat_assoc(o, w, wire_i32(v.session_id));
            w = w + wire_i32(v.session_id);
        }
        write_seq(LenKind::Uvarint, &self.responses, out);
        proof {
            lemma_concat_assoc(o, w, seq_wire::<FetchResponseTopic>(LenKind::Uvarint, v.responses));
            w = w + seq_wire::<FetchResponseTopic>(LenKind::Uvarint, v.responses);
        }
        self.tagged_fields.encode(out);
        proof {
            lemma_concat_assoc(o, w, TaggedFields::wire(v.tagged_fields));
        }
    }
}

/// Whether some partition record has this topic UUID and partition index.
pub open spec fn has_partition(rs: Seq<RecordVariantModel>, topic_id: Uuid, index: i32) -> bool {
    exists|k: int|
        0 <= k < rs.len() && (#[trigger] rs[k] matches RecordVariantModel::Partition(p)
            && p.partition_id == index && p.topic_id == topic_id)
}

/// The answer for one requested partition.
pub open spec fn partition_answer(rs: Seq<RecordVariantModel>, topic_id: Uuid, index: i32) -> FetchResponsePartitionModel {
    if has_partition(rs, topic_id, index) {
        FetchResponsePartitionModel {
            partition_index: index,
            error_code: ErrorCode::NoError,
            high_watermark: 0,
            last_stable_offset: 0,
            log_start_offset: 0,
            aborted_transactions: None,
            preferred_read_replica: -1i32,
            records: Some(Seq::empty()),
            tagged_fields: Seq::empty(),
        }
    } else {
        FetchResponsePartitionModel {
            partition_index: index,
            error_code: ErrorCode::UnknownTopicId,
            high_watermark: 0,
            last_stable_offset: 0,
            log_start_offset: 0,
            aborted_transactions: None,
            preferred_read_replica: 0,
            records: None,
            tagged_fields: Seq::empty(),
        }
    }
}

/// The elements of an array; a null array has none.
pub open spec fn or_empty<T>(o: Option<Seq<T>>) -> Seq<T> {
    match o {
        Some(s) => s,
        None => Seq::empty(),
    }
}

/// The answers for one requested topic, partition by partition.
pub open spec fn topic_answer(rs: Seq<RecordVariantModel>, t: FetchRequestTopicModel) -> FetchResponseTopicModel {
    FetchResponseTopicModel {
        id: t.id,
        partitions: Some(
            or_empty(t.partitions).map_values(
                |p: FetchRequestPartitionModel| partition_answer(rs, t.id, p.partition_index),
            ),
        ),
        tagged_fields: Seq::empty(),
    }
}

/// The response body for a Fetch request: one answer per requested topic.
pub open spec fn fetch_body(rs: Seq<RecordVariantModel>, req: FetchRequestModel) -> FetchResponseBodyModel {
    FetchResponseBodyModel {
        throttle_time_ms: 0,
        error_code: ErrorCode::NoError,
        session_id: 0,
        responses: Some(
            or_empty(req.topics).map_values(|t: FetchRequestTopicModel| topic_answer(rs, t)),
        ),
        tagged_fields: Seq::empty(),
    }
}

/// Whether a Fetch request names no topic at all; such a request is answered
/// without the metadata log.
pub fn fetch_is_empty(request: &FetchRequest) -> (r: bool)
    ensures
        r == (or_empty(request@.topics).len() == 0),
{
    match &request.topics {
        None => true,
        Some(t) => t.len() == 0,
    }
}

/// The answer for partition `index` of topic `topic_id`.
pub fn fetch_partition(records: &Vec<RecordVariant>, topic_id: Uuid, index: i32) -> (r:
    FetchResponsePartition)
    ensures
        r@ == partition_answer(seq_view(records@), topic_id, index),
{
    let ghost rs = seq_view(records@);
    let mut i: usize = 0;
    let mut found = false;
    while !found && i < records.len()
        invariant
            i <= records.len(),
            rs == seq_view(records@),
            !found ==> forall|k: int|
                0 <= k < i ==> !(#[trigger] rs[k] matches RecordVariantModel::Partition(p)
                    && p.partition_id == index && p.topic_id == topic_id),
            found ==> has_partition(rs, topic_id, index),
        decreases records.len() - i + if found {
            0int
        } else {
            1int
        },
    {
        assert(rs[i as int] == records@[i as int]@);
        if let RecordVariant::Partition(p) = &records[i] {
            if p.partition_id == index && p.topic_id == topic_id {
                found = true;
            }
        }
        if !found {
            i = i + 1;
        }
    }
    if found {
        let empty: Vec<u8> = Vec::new();
        let r = FetchResponsePartition {
            partition_index: index,
            error_code: ErrorCode::NoError,
            high_watermark: 0,
            last_stable_offset: 0,
            log_start_offset: 0,
            aborted_transactions: None,
            preferred_read_replica: -1,
            records: Some(empty),
            tagged_fields: TaggedFields::empty(),
        };
        assert(r@.records =~= Some(Seq::<u8>::empty()));
        r
    } else {
        FetchResponsePartition {
            partition_index: index,
            error_code: ErrorCode::UnknownTopicId,
            high_watermark: 0,
            last_stable_offset: 0,
            log_start_offset: 0,
            aborted_transactions: None,
            preferred_read_replica: 0,
            records: None,
            tagged_fields: TaggedFields::empty(),
        }
    }
}

/// The answers for one requested topic.
pub fn fetch_topic(records: &Vec<RecordVariant>, topic: &FetchRequestTopic) -> (r: FetchResponseTopic)
    ensures
        r@ == topic_answer(seq_view(records@), topic@),
{
    let ghost rs = seq_view(records@);
    let mut parts: Vec<FetchResponsePartition> = Vec::new();
    match &topic.partitions {
        None => {
            assert(seq_view(parts@) =~= or_empty(topic@.partitions).map_values(
                |p: FetchRequestPartitionModel| partition_answer(rs, topic.id, p.partition_index),
            ));
        },
        Some(ps) => {
            let ghost req = seq_view(ps@);
            let mut i: usize = 0;
            while i < ps.len()
                invariant
                    i <= ps.len(),
                    req == seq_view(ps@),
                    rs == seq_view(records@),
                    seq_view(parts@) == req.take(i as int).map_values(
                        |p: FetchRequestPartitionModel| partition_answer(
                            rs,
                            topic.id,
                            p.partition_index,
                        ),
                    ),
                decreases ps.len() - i,
            {
                let answer = fetch_partition(records, topic.id, ps[i].partition_index);
                let ghost before = seq_view(parts@);
                parts.push(answer);
                assert(seq_view(parts@) =~= before.push(answer@));
                assert(req[i as int] == ps@[i as int]@);
                assert(req.take(i + 1) =~= req.take(i as int).push(req[i as int]));
                assert(seq_view(parts@) =~= req.take(i + 1).map_values(
                    |p: FetchRequestPartitionModel| partition_answer(rs, topic.id, p.partition_index),
                ));
                i = i + 1;
            }
            assert(req.take(i as int) =~= req);
        },
    }
    FetchResponseTopic { id: topic.id, partitions: Some(parts), tagged_fields: TaggedFields::empty() }
}

/// The response body for a Fetch request.
pub fn fetch(records: &Vec<RecordVariant>, request: &FetchRequest) -> (r: FetchResponseBody)
    ensures
        r@ == fetch_body(seq_view(records@), request@),
{
    let ghost rs = seq_view(records@);
    let mut responses: Vec<FetchResponseTopic> = Vec::new();
    match &request.topics {
        None => {
            assert(seq_view(responses@) =~= or_empty(request@.topics).map_values(
                |t: FetchRequestTopicModel| topic_answer(rs, t),
            ));
        },
        Some(ts) => {
            let ghost req = seq_view(ts@);
            let mut i: usize = 0;
            while i < ts.len()
                invariant
                    i <= ts.len(),
                    req == seq_view(ts@),
                    rs == seq_view(records@),
                    seq_view(responses@) == req.take(i as int).map_values(
                        |t: FetchRequestTopicModel| topic_answer(rs, t),
                    ),
                decreases ts.len() - i,
            {
                let answer = fetch_topic(records, &ts[i]);
                let ghost before = seq_view(responses@);
                responses.push(answer);
                assert(seq_view(responses@) =~= before.push(answer@));
                assert(req[i as int] == ts@[i as int]@);
                assert(req.take(i + 1) =~= req.take(i as int).push(req[i as int]));
                assert(seq_view(responses@) =~= req.take(i + 1).map_values(
                    |t: FetchRequestTopicModel| topic_answer(rs, t),
                ));
                i = i + 1;
            }
            assert(req.take(i as int) =~= req);
        },
    }
    FetchResponseBody {
        throttle_time_ms: 0,
        error_code: ErrorCode::NoError,
        session_id: 0,
        responses: Some(responses),
        tagged_fields: TaggedFields::empty(),
    }
}

} // verus!

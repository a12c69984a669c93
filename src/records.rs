//! The cluster-metadata log: record batches, their records, and the typed
//! payloads (topics, partitions, feature levels) those records carry.
use vstd::prelude::*;

use crate::array::{
    lemma_seq_round_trip, opt_seq_view, seq_writable, parse_seq, read_seq, seq_size, seq_valid, seq_view,
    seq_wire, write_seq,
};
use crate::codec::{
    bytes_size, bytes_wire, len_fits, len_writable, lemma_bytes_round_trip, lemma_i16_round_trip,
    lemma_i32_round_trip, lemma_i64_round_trip, lemma_nullable_bytes_round_trip, nullable_bytes_size,
    nullable_bytes_wire, opt_bytes_view, parse_bytes, parse_i16, parse_i32, parse_i64,
    parse_nullable_bytes, parsed_as, read_bytes, read_i16, read_i32, read_i64, read_nullable_bytes,
    wire_i16, wire_i32, wire_i64, write_bytes, write_i16, write_i32, write_i64,
    write_nullable_bytes, copy_range, Codec, Encode, LenKind,
};
use crate::error::KafkaError;
use crate::primitives::{
    be32, holds_at, lemma_concat_assoc, lemma_holds_split, lemma_u32_round_trip, lemma_u8_round_trip, parse_u32,
    parse_u8, read_u32, read_u8, write_u32, Uuid,
};
use crate::tagged::TaggedFields;
use crate::varint::{
    lemma_varint_round_trip, lemma_varlong_round_trip, parse_varint, parse_varlong, read_varint,
    read_varlong, varint_size, varint_wire, varlong_size, varlong_wire, write_varint,
    write_varlong,
};

verus! {

/// The record type byte of a topic record.
pub const RECORD_TYPE_TOPIC: u8 = 2;

/// The record type byte of a partition record.
pub const RECORD_TYPE_PARTITION: u8 = 3;

/// The record type byte of a feature-level record.
pub const RECORD_TYPE_FEATURE_LEVEL: u8 = 12;

/// A feature and the level it is enabled at.
#[derive(Debug, Clone, PartialEq, Eq)]
pub struct FeatureLevel {
    /// The feature's name (a compact string).
    pub name: Vec<u8>,
    pub level: i16,
}

impl View for FeatureLevel {
    type V = (Seq<u8>, i16);

    open spec fn view(&self) -> (Seq<u8>, i16) {
        (self.name@, self.level)
    }
}

impl Encode for FeatureLevel {
    open spec fn writable(v: (Seq<u8>, i16)) -> bool {
        true
    }

    open spec fn wire(v: (Seq<u8>, i16)) -> Seq<u8> {
        bytes_wire(LenKind::Uvarint, v.0) + wire_i16(v.1)
    }

    fn byte_size(&self) -> (r: usize) {
        bytes_size(LenKind::Uvarint, self.name.as_slice()) + 2
    }

    fn encode(&self, out: &mut Vec<u8>) {
        write_bytes(LenKind::Uvarint, self.name.as_slice(), out);
        write_i16(self.level, out);
        assert(out@ =~= old(out)@ + Self::wire(self@));
    }
}

impl Codec for FeatureLevel {
    open spec fn valid(v: (Seq<u8>, i16)) -> bool {
        len_fits(LenKind::Uvarint, v.0.len())
    }

    open spec fn parse(s: Seq<u8>, i: int) -> Result<((Seq<u8>, i16), int), KafkaError> {
        match parse_bytes(LenKind::Uvarint, s, i) {
            Ok((name, j)) => match parse_i16(s, j) {
                Ok((level, k)) => Ok(((name, level), k)),
                Err(e) => Err(e),
            },
            Err(e) => Err(e),
        }
    }

    proof fn lemma_round_trip(v: (Seq<u8>, i16), s: Seq<u8>, i: int) {
        let a = bytes_wire(LenKind::Uvarint, v.0);
        lemma_holds_split(s, i, a, wire_i16(v.1));
        lemma_bytes_round_trip(LenKind::Uvarint, v.0, s, i);
        lemma_i16_round_trip(v.1, s, i + a.len());
    }

    fn decode(buf: &[u8], pos: usize) -> (r: Result<(FeatureLevel, usize), KafkaError>) {
        let (name, p) = match read_bytes(LenKind::Uvarint, buf, pos) {
            Ok(x) => x,
            Err(e) => return Err(e),
        };
        let (level, p) = match read_i16(buf, p) {
            Ok(x) => x,
            Err(e) => return Err(e),
        };
        Ok((FeatureLevel { name, level }, p))
    }
}

/// A topic: its name and its UUID.
#[derive(Debug, Clone, PartialEq, Eq)]
pub struct Topic {
    /// The topic's name (a compact string).
    pub name: Vec<u8>,
    pub topic_id: Uuid,
}

impl View for Topic {
    type V = (Seq<u8>, Uuid);

    open spec fn view(&self) -> (Seq<u8>, Uuid) {
        (self.name@, self.topic_id)
    }
}

impl Encode for Topic {
    open spec fn writable(v: (Seq<u8>, Uuid)) -> bool {
        true
    }

    open spec fn wire(v: (Seq<u8>, Uuid)) -> Seq<u8> {
        bytes_wire(LenKind::Uvarint, v.0) + Uuid::wire(v.1)
    }

    fn byte_size(&self) -> (r: usize) {
        bytes_size(LenKind::Uvarint, self.name.as_slice()) + 16
    }

    fn encode(&self, out: &mut Vec<u8>) {
        write_bytes(LenKind::Uvarint, self.name.as_slice(), out);
        self.topic_id.encode(out);
        assert(out@ =~= old(out)@ + Self::wire(self@));
    }
}

impl Codec for Topic {
    open spec fn valid(v: (Seq<u8>, Uuid)) -> bool {
        len_fits(LenKind::Uvarint, v.0.len())
    }

    open spec fn parse(s: Seq<u8>, i: int) -> Result<((Seq<u8>, Uuid), int), KafkaError> {
        match parse_bytes(LenKind::Uvarint, s, i) {
            Ok((name, j)) => match Uuid::parse(s, j) {
                Ok((id, k)) => Ok(((name, id), k)),
                Err(e) => Err(e),
            },
            Err(e) => Err(e),
        }
    }

    proof fn lemma_round_trip(v: (Seq<u8>, Uuid), s: Seq<u8>, i: int) {
        let a = bytes_wire(LenKind::Uvarint, v.0);
        lemma_holds_split(s, i, a, Uuid::wire(v.1));
        lemma_bytes_round_trip(LenKind::Uvarint, v.0, s, i);
        Uuid::lemma_round_trip(v.1, s, i + a.len());
    }

    fn decode(buf: &[u8], pos: usize) -> (r: Result<(Topic, usize), KafkaError>) {
        let (name, p) = match read_bytes(LenKind::Uvarint, buf, pos) {
            Ok(x) => x,
            Err(e) => return Err(e),
        };
        let (topic_id, p) = match Uuid::decode(buf, p) {
            Ok(x) => x,
            Err(e) => return Err(e),
        };
        Ok((Topic { name, topic_id }, p))
    }
}

/// A partition of a topic and where its replicas live.
#[derive(Debug, Clone, PartialEq, Eq)]
pub struct Partition {
    pub partition_id: i32,
    pub topic_id: Uuid,
    pub replicas: Option<Vec<i32>>,
    pub isr: Option<Vec<i32>>,
    pub removing_replicas: Option<Vec<i32>>,
    pub adding_replicas: Option<Vec<i32>>,
    pub leader: i32,
    pub leader_epoch: i32,
    pub partition_epoch: i32,
    pub directories: Option<Vec<Uuid>>,
}

/// The model of a [`Partition`].
pub struct PartitionModel {
    pub partition_id: i32,
    pub topic_id: Uuid,
    pub replicas: Option<Seq<i32>>,
    pub isr: Option<Seq<i32>>,
    pub removing_replicas: Option<Seq<i32>>,
    pub adding_replicas: Option<Seq<i32>>,
    pub leader: i32,
    pub leader_epoch: i32,
    pub partition_epoch: i32,
    pub directories: Option<Seq<Uuid>>,
}

impl View for Partition {
    type V = PartitionModel;

    open spec fn view(&self) -> PartitionModel {
        PartitionModel {
            partition_id: self.partition_id,
            topic_id: self.topic_id,
            replicas: opt_seq_view(&self.replicas),
            isr: opt_seq_view(&self.isr),
            removing_replicas: opt_seq_view(&self.removing_replicas),
            adding_replicas: opt_seq_view(&self.adding_replicas),
            leader: self.leader,
            leader_epoch: self.leader_epoch,
            partition_epoch: self.partition_epoch,
            directories: opt_seq_view(&self.directories),
        }
    }
}

/// The wire form of a compact array of `i32`.
pub open spec fn ints_wire(o: Option<Seq<i32>>) -> Seq<u8> {
    seq_wire::<i32>(LenKind::Uvarint, o)
}

impl Encode for Partition {
    open spec fn writable(v: PartitionModel) -> bool {
        &&& seq_writable::<i32>(LenKind::Uvarint, v.replicas)
        &&& seq_writable::<i32>(LenKind::Uvarint, v.isr)
        &&& seq_writable::<i32>(LenKind::Uvarint, v.removing_replicas)
        &&& seq_writable::<i32>(LenKind::Uvarint, v.adding_replicas)
        &&& seq_writable::<Uuid>(LenKind::Uvarint, v.directories)
    }

    open spec fn wire(v: PartitionModel) -> Seq<u8> {
        wire_i32(v.partition_id) + Uuid::wire(v.topic_id) + ints_wire(v.replicas) + ints_wire(v.isr)
            + ints_wire(v.removing_replicas) + ints_wire(v.adding_replicas) + wire_i32(v.leader)
            + wire_i32(v.leader_epoch) + wire_i32(v.partition_epoch) + seq_wire::<Uuid>(
            LenKind::Uvarint,
            v.directories,
        )
    }

    fn byte_size(&self) -> (r: usize) {
        4 + 16 + seq_size(LenKind::Uvarint, &self.replicas) + seq_size(LenKind::Uvarint, &self.isr)
            + seq_size(LenKind::Uvarint, &self.removing_replicas) + seq_size(
            LenKind::Uvarint,
            &self.adding_replicas,
        ) + 12 + seq_size(LenKind::Uvarint, &self.directories)
    }

    fn encode(&self, out: &mut Vec<u8>) {
        let ghost o = old(out)@;
        let ghost v = self@;
        write_i32(self.partition_id, out);
        let ghost w = wire_i32(v.partition_id);
        self.topic_id.encode(out);
        proof {
            lemma_concat_assoc(o, w, Uuid::wire(v.topic_id));
            w = w + Uuid::wire(v.topic_id);
        }
        write_seq(LenKind::Uvarint, &self.replicas, out);
        proof {
            lemma_concat_assoc(o, w, ints_wire(v.replicas));
            w = w + ints_wire(v.replicas);
        }
        write_seq(LenKind::Uvarint, &self.isr, out);
        proof {
            lemma_concat_assoc(o, w, ints_wire(v.isr));
            w = w + ints_wire(v.isr);
        }
        write_seq(LenKind::Uvarint, &self.removing_replicas, out);
        proof {
            lemma_concat_assoc(o, w, ints_wire(v.removing_replicas));
            w = w + ints_wire(v.removing_replicas);
        }
        write_seq(LenKind::Uvarint, &self.adding_replicas, out);
        proof {
            lemma_concat_assoc(o, w, ints_wire(v.adding_replicas));
            w = w + ints_wire(v.adding_replicas);
        }
        write_i32(self.leader, out);
        proof {
            lemma_concat_assoc(o, w, wire_i32(v.leader));
            w = w + wire_i32(v.leader);
        }
        write_i32(self.leader_epoch, out);
        proof {
            lemma_concat_assoc(o, w, wire_i32(v.leader_epoch));
            w = w + wire_i32(v.leader_epoch);
        }
        write_i32(self.partition_epoch, out);
        proof {
            lemma_concat_assoc(o, w, wire_i32(v.partition_epoch));
            w = w + wire_i32(v.partition_epoch);
        }
        write_seq(LenKind::Uvarint, &self.directories, out);
        proof {
            lemma_concat_assoc(o, w, seq_wire::<Uuid>(LenKind::Uvarint, v.directories));
        }
    }
}

impl Codec for Partition {
    open spec fn valid(v: PartitionModel) -> bool {
        &&& seq_valid::<i32>(LenKind::Uvarint, v.replicas)
        &&& seq_valid::<i32>(LenKind::Uvarint, v.isr)
        &&& seq_valid::<i32>(LenKind::Uvarint, v.removing_replicas)
        &&& seq_valid::<i32>(LenKind::Uvarint, v.adding_replicas)
        &&& seq_valid::<Uuid>(LenKind::Uvarint, v.directories)
    }

    open spec fn parse(s: Seq<u8>, i: int) -> Result<(PartitionModel, int), KafkaError> {
        match parse_i32(s, i) {
            Err(e) => Err(e),
            Ok((partition_id, i)) => match Uuid::parse(s, i) {
                Err(e) => Err(e),
                Ok((topic_id, i)) => match parse_seq::<i32>(LenKind::Uvarint, s, i) {
                    Err(e) => Err(e),
                    Ok((replicas, i)) => match parse_seq::<i32>(LenKind::Uvarint, s, i) {
                        Err(e) => Err(e),
                        Ok((isr, i)) => match parse_seq::<i32>(LenKind::Uvarint, s, i) {
                            Err(e) => Err(e),
                            Ok((removing_replicas, i)) => match parse_seq::<i32>(
                                LenKind::Uvarint,
                                s,
                                i,
                            ) {
                                Err(e) => Err(e),
                                Ok((adding_replicas, i)) => match parse_i32(s, i) {
                                    Err(e) => Err(e),
                                    Ok((leader, i)) => match parse_i32(s, i) {
                                        Err(e) => Err(e),
                                        Ok((leader_epoch, i)) => match parse_i32(s, i) {
                                            Err(e) => Err(e),
                                            Ok((partition_epoch, i)) => match parse_seq::<Uuid>(
                                                LenKind::Uvarint,
                                                s,
                                                i,
                                            ) {
                                                Err(e) => Err(e),
                                                Ok((directories, i)) => Ok(
                                                    (
                                                        PartitionModel {
                                                            partition_id,
                                                            topic_id,
                                                            replicas,
                                                            isr,
                                                            removing_replicas,
                                                            adding_replicas,
                                                            leader,
                                                            leader_epoch,
                                                            partition_epoch,
                                                            directories,
                                                        },
                                                        i,
                                                    ),
                                                ),
                                            },
                                        },
                                    },
                                },
                            },
                        },
                    },
                },
            },
        }
    }

    proof fn lemma_round_trip(v: PartitionModel, s: Seq<u8>, i: int) {
        let w0 = wire_i32(v.partition_id);
        let w1 = Uuid::wire(v.topic_id);
        let w2 = ints_wire(v.replicas);
        let w3 = ints_wire(v.isr);
        let w4 = ints_wire(v.removing_replicas);
        let w5 = ints_wire(v.adding_replicas);
        let w6 = wire_i32(v.leader);
        let w7 = wire_i32(v.leader_epoch);
        let w8 = wire_i32(v.partition_epoch);
        let w9 = seq_wire::<Uuid>(LenKind::Uvarint, v.directories);
        lemma_holds_split(s, i, w0 + w1 + w2 + w3 + w4 + w5 + w6 + w7 + w8, w9);
        lemma_holds_split(s, i, w0 + w1 + w2 + w3 + w4 + w5 + w6 + w7, w8);
        lemma_holds_split(s, i, w0 + w1 + w2 + w3 + w4 + w5 + w6, w7);
        lemma_holds_split(s, i, w0 + w1 + w2 + w3 + w4 + w5, w6);
        lemma_holds_split(s, i, w0 + w1 + w2 + w3 + w4, w5);
        lemma_holds_split(s, i, w0 + w1 + w2 + w3, w4);
        lemma_holds_split(s, i, w0 + w1 + w2, w3);
        lemma_holds_split(s, i, w0 + w1, w2);
        lemma_holds_split(s, i, w0, w1);
        let p1 = i + w0.len();
        let p2 = p1 + w1.len();
        let p3 = p2 + w2.len();
        let p4 = p3 + w3.len();
        let p5 = p4 + w4.len();
        let p6 = p5 + w5.len();
        let p7 = p6 + w6.len();
        let p8 = p7 + w7.len();
        let p9 = p8 + w8.len();
        lemma_i32_round_trip(v.partition_id, s, i);
        Uuid::lemma_round_trip(v.topic_id, s, p1);
        lemma_seq_round_trip::<i32>(LenKind::Uvarint, v.replicas, s, p2);
        lemma_seq_round_trip::<i32>(LenKind::Uvarint, v.isr, s, p3);
        lemma_seq_round_trip::<i32>(LenKind::Uvarint, v.removing_replicas, s, p4);
        lemma_seq_round_trip::<i32>(LenKind::Uvarint, v.adding_replicas, s, p5);
        lemma_i32_round_trip(v.leader, s, p6);
        lemma_i32_round_trip(v.leader_epoch, s, p7);
        lemma_i32_round_trip(v.partition_epoch, s, p8);
        lemma_seq_round_trip::<Uuid>(LenKind::Uvarint, v.directories, s, p9);
    }

    fn decode(buf: &[u8], pos: usize) -> (r: Result<(Partition, usize), KafkaError>) {
        let (partition_id, p) = match read_i32(buf, pos) {
            Ok(x) => x,
            Err(e) => return Err(e),
        };
        let (topic_id, p) = match Uuid::decode(buf, p) {
            Ok(x) => x,
            Err(e) => return Err(e),
        };
        let (replicas, p) = match read_seq::<i32>(LenKind::Uvarint, buf, p) {
            Ok(x) => x,
            Err(e) => return Err(e),
        };
        let (isr, p) = match read_seq::<i32>(LenKind::Uvarint, buf, p) {
            Ok(x) => x,
            Err(e) => return Err(e),
        };
        let (removing_replicas, p) = match read_seq::<i32>(LenKind::Uvarint, buf, p) {
            Ok(x) => x,
            Err(e) => return Err(e),
        };
        let (adding_replicas, p) = match read_seq::<i32>(LenKind::Uvarint, buf, p) {
            Ok(x) => x,
            Err(e) => return Err(e),
        };
        let (leader, p) = match read_i32(buf, p) {
            Ok(x) => x,
            Err(e) => return Err(e),
        };
        let (leader_epoch, p) = match read_i32(buf, p) {
            Ok(x) => x,
            Err(e) => return Err(e),
        };
        let (partition_epoch, p) = match read_i32(buf, p) {
            Ok(x) => x,
            Err(e) => return Err(e),
        };
        let (directories, p) = match read_seq::<Uuid>(LenKind::Uvarint, buf, p) {
            Ok(x) => x,
            Err(e) => return Err(e),
        };
        Ok((
            Partition {
                partition_id,
                topic_id,
                replicas,
                isr,
                removing_replicas,
                adding_replicas,
                leader,
                leader_epoch,
                partition_epoch,
                directories,
            },
            p,
        ))
    }
}

/// The payload of a metadata record, selected by its type byte.
#[derive(Debug, Clone, PartialEq, Eq)]
pub enum RecordVariant {
    FeatureLevel(FeatureLevel),
    Partition(Partition),
    Topic(Topic),
}

/// The model of a [`RecordVariant`].
pub enum RecordVariantModel {
    FeatureLevel((Seq<u8>, i16)),
    Partition(PartitionModel),
    Topic((Seq<u8>, Uuid)),
}

impl View for RecordVariant {
    type V = RecordVariantModel;

    open spec fn view(&self) -> RecordVariantModel {
        match self {
            RecordVariant::FeatureLevel(x) => RecordVariantModel::FeatureLevel(x@),
            RecordVariant::Partition(x) => RecordVariantModel::Partition(x@),
            RecordVariant::Topic(x) => RecordVariantModel::Topic(x@),
        }
    }
}

/// The type byte that announces a payload.
pub open spec fn variant_type(v: RecordVariantModel) -> u8 {
    match v {
        RecordVariantModel::FeatureLevel(_) => RECORD_TYPE_FEATURE_LEVEL,
        RecordVariantModel::Partition(_) => RECORD_TYPE_PARTITION,
        RecordVariantModel::Topic(_) => RECORD_TYPE_TOPIC,
    }
}

pub open spec fn variant_writable(v: RecordVariantModel) -> bool {
    match v {
        RecordVariantModel::FeatureLevel(x) => FeatureLevel::writable(x),
        RecordVariantModel::Partition(x) => Partition::writable(x),
        RecordVariantModel::Topic(x) => Topic::writable(x),
    }
}

pub open spec fn variant_valid(v: RecordVariantModel) -> bool {
    match v {
        RecordVariantModel::FeatureLevel(x) => FeatureLevel::valid(x),
        RecordVariantModel::Partition(x) => Partition::valid(x),
        RecordVariantModel::Topic(x) => Topic::valid(x),
    }
}

/// The wire form of a payload (its type byte is written by the enclosing value).
pub open spec fn variant_wire(v: RecordVariantModel) -> Seq<u8> {
    match v {
        RecordVariantModel::FeatureLevel(x) => FeatureLevel::wire(x),
        RecordVariantModel::Partition(x) => Partition::wire(x),
        RecordVariantModel::Topic(x) => Topic::wire(x),
    }
}

/// Reads the payload announced by type byte `t`; an unknown type is an error.
#[verifier::opaque]
pub open spec fn parse_variant(t: u8, s: Seq<u8>, i: int) -> Result<(RecordVariantModel, int), KafkaError> {
    if t == RECORD_TYPE_FEATURE_LEVEL {
        match FeatureLevel::parse(s, i) {
            Ok((x, j)) => Ok((RecordVariantModel::FeatureLevel(x), j)),
            Err(e) => Err(e),
        }
    } else if t == RECORD_TYPE_PARTITION {
        match Partition::parse(s, i) {
            Ok((x, j)) => Ok((RecordVariantModel::Partition(x), j)),
            Err(e) => Err(e),
        }
    } else if t == RECORD_TYPE_TOPIC {
        match Topic::parse(s, i) {
            Ok((x, j)) => Ok((RecordVariantModel::Topic(x), j)),
            Err(e) => Err(e),
        }
    } else {
        Err(KafkaError::InvalidEnum { value: t })
    }
}

proof fn lemma_variant_round_trip(v: RecordVariantModel, s: Seq<u8>, i: int)
    requires
        variant_valid(v),
        holds_at(s, i, variant_wire(v)),
    ensures
        parse_variant(variant_type(v), s, i) == Ok::<(RecordVariantModel, int), KafkaError>(
            (v, i + variant_wire(v).len()),
        ),
{
    reveal(parse_variant);
    match v {
        RecordVariantModel::FeatureLevel(x) => FeatureLevel::lemma_round_trip(x, s, i),
        RecordVariantModel::Partition(x) => Partition::lemma_round_trip(x, s, i),
        RecordVariantModel::Topic(x) => Topic::lemma_round_trip(x, s, i),
    }
}

impl RecordVariant {
    /// The type byte that announces this payload.
    pub fn record_type(&self) -> (r: u8)
        ensures
            r == variant_type(self@),
    {
        match self {
            RecordVariant::FeatureLevel(_) => RECORD_TYPE_FEATURE_LEVEL,
            RecordVariant::Partition(_) => RECORD_TYPE_PARTITION,
            RecordVariant::Topic(_) => RECORD_TYPE_TOPIC,
        }
    }

    /// The number of bytes `encode` writes.
    pub fn byte_size(&self) -> (r: usize)
        requires
            variant_writable(self@),
            variant_wire(self@).len() <= usize::MAX,
        ensures
            r == variant_wire(self@).len(),
    {
        match self {
            RecordVariant::FeatureLevel(x) => x.byte_size(),
            RecordVariant::Partition(x) => x.byte_size(),
            RecordVariant::Topic(x) => x.byte_size(),
        }
    }

    /// Appends the payload's wire form.
    pub fn encode(&self, out: &mut Vec<u8>)
        requires
            variant_writable(self@),
        ensures
            final(out)@ == old(out)@ + variant_wire(self@),
    {
        match self {
            RecordVariant::FeatureLevel(x) => x.encode(out),
            RecordVariant::Partition(x) => x.encode(out),
            RecordVariant::Topic(x) => x.encode(out),
        }
    }

    /// Reads the payload announced by type byte `t` at `pos`.
    pub fn decode(t: u8, buf: &[u8], pos: usize) -> (r: Result<(RecordVariant, usize), KafkaError>)
        ensures
            parsed_as(r, parse_variant(t, buf@, pos as int)),
    {
        proof {
            reveal(parse_variant);
        }
        if t == RECORD_TYPE_FEATURE_LEVEL {
            match FeatureLevel::decode(buf, pos) {
                Ok((x, p)) => Ok((RecordVariant::FeatureLevel(x), p)),
                Err(e) => Err(e),
            }
        } else if t == RECORD_TYPE_PARTITION {
            match Partition::decode(buf, pos) {
                Ok((x, p)) => Ok((RecordVariant::Partition(x), p)),
                Err(e) => Err(e),
            }
        } else if t == RECORD_TYPE_TOPIC {
            match Topic::decode(buf, pos) {
                Ok((x, p)) => Ok((RecordVariant::Topic(x), p)),
                Err(e) => Err(e),
            }
        } else {
            Err(KafkaError::InvalidEnum { value: t })
        }
    }
}

/// The value of a metadata record: a small frame around a typed payload.
#[derive(Debug, Clone, PartialEq, Eq)]
pub struct Value {
    pub frame_version: u8,
    /// Selects the payload's variant.
    pub record_type: u8,
    pub version: u8,
    pub payload: RecordVariant,
    pub tagged_fields: TaggedFields,
}

/// The model of a [`Value`].
pub struct ValueModel {
    pub frame_version: u8,
    pub record_type: u8,
    pub version: u8,
    pub payload: RecordVariantModel,
    pub tagged_fields: Seq<(u32, Seq<u8>)>,
}

impl View for Value {
    type V = ValueModel;

    open spec fn view(&self) -> ValueModel {
        ValueModel {
            frame_version: self.frame_version,
            record_type: self.record_type,
            version: self.version,
            payload: self.payload@,
            tagged_fields: self.tagged_fields@,
        }
    }
}

impl Encode for Value {
    open spec fn writable(v: ValueModel) -> bool {
        variant_writable(v.payload) && TaggedFields::writable(v.tagged_fields)
    }

    open spec fn wire(v: ValueModel) -> Seq<u8> {
        seq![v.frame_version, v.record_type, v.version] + variant_wire(v.payload)
            + TaggedFields::wire(v.tagged_fields)
    }

    fn byte_size(&self) -> (r: usize) {
        3 + self.payload.byte_size() + self.tagged_fields.byte_size()
    }

    fn encode(&self, out: &mut Vec<u8>) {
        out.push(self.frame_version);
        out.push(self.record_type);
        out.push(self.version);
        self.payload.encode(out);
        self.tagged_fields.encode(out);
        assert(out@ =~= old(out)@ + Self::wire(self@));
    }
}

impl Codec for Value {
    /// The type byte must announce the payload's variant.
    open spec fn valid(v: ValueModel) -> bool {
        v.record_type == variant_type(v.payload) && variant_valid(v.payload)
            && TaggedFields::valid(v.tagged_fields)
    }

    open spec fn parse(s: Seq<u8>, i: int) -> Result<(ValueModel, int), KafkaError> {
        match parse_u8(s, i) {
            Err(e) => Err(e),
            Ok((frame_version, i)) => match parse_u8(s, i) {
                Err(e) => Err(e),
                Ok((record_type, i)) => match parse_u8(s, i) {
                    Err(e) => Err(e),
                    Ok((version, i)) => match parse_variant(record_type, s, i) {
                        Err(e) => Err(e),
                        Ok((payload, i)) => match TaggedFields::parse(s, i) {
                            Err(e) => Err(e),
                            Ok((tagged_fields, i)) => Ok(
                                (
                                    ValueModel {
                                        frame_version,
                                        record_type,
                                        version,
                                        payload,
                                        tagged_fields,
                                    },
                                    i,
                                ),
                            ),
                        },
                    },
                },
            },
        }
    }

    proof fn lemma_round_trip(v: ValueModel, s: Seq<u8>, i: int) {
        let head = seq![v.frame_version, v.record_type, v.version];
        let pw = variant_wire(v.payload);
        lemma_holds_split(s, i, head + pw, TaggedFields::wire(v.tagged_fields));
        lemma_holds_split(s, i, head, pw);
        assert(seq![v.frame_version] + seq![v.record_type] =~= seq![v.frame_version, v.record_type]);
        assert(seq![v.frame_version, v.record_type] + seq![v.version] =~= head);
        lemma_holds_split(s, i, seq![v.frame_version, v.record_type], seq![v.version]);
        lemma_holds_split(s, i, seq![v.frame_version], seq![v.record_type]);
        lemma_u8_round_trip(v.frame_version, s, i);
        lemma_u8_round_trip(v.record_type, s, i + 1);
        lemma_u8_round_trip(v.version, s, i + 2);
        lemma_variant_round_trip(v.payload, s, i + 3);
        TaggedFields::lemma_round_trip(v.tagged_fields, s, i + 3 + pw.len());
    }

    fn decode(buf: &[u8], pos: usize) -> (r: Result<(Value, usize), KafkaError>) {
        let (frame_version, p) = match read_u8(buf, pos) {
            Ok(x) => x,
            Err(e) => return Err(e),
        };
        let (record_type, p) = match read_u8(buf, p) {
            Ok(x) => x,
            Err(e) => return Err(e),
        };
        let (version, p) = match read_u8(buf, p) {
            Ok(x) => x,
            Err(e) => return Err(e),
        };
        let (payload, p) = match RecordVariant::decode(record_type, buf, p) {
            Ok(x) => x,
            Err(e) => return Err(e),
        };
        let (tagged_fields, p) = match TaggedFields::decode(buf, p) {
            Ok(x) => x,
            Err(e) => return Err(e),
        };
        Ok((Value { frame_version, record_type, version, payload, tagged_fields }, p))
    }
}

/// A record header: a key and an optional value.
#[derive(Debug, Clone, PartialEq, Eq)]
pub struct RecordHeader {
    /// The header's key (a varint-prefixed string).
    pub key: Vec<u8>,
    pub value: Option<Vec<u8>>,
}

impl View for RecordHeader {
    type V = (Seq<u8>, Option<Seq<u8>>);

    open spec fn view(&self) -> (Seq<u8>, Option<Seq<u8>>) {
        (self.key@, opt_bytes_view(&self.value))
    }
}

impl Encode for RecordHeader {
    open spec fn writable(v: (Seq<u8>, Option<Seq<u8>>)) -> bool {
        len_writable(LenKind::Varint, v.0.len()) && (v.1 matches Some(b) ==> len_writable(
            LenKind::Varint,
            b.len(),
        ))
    }

    open spec fn wire(v: (Seq<u8>, Option<Seq<u8>>)) -> Seq<u8> {
        bytes_wire(LenKind::Varint, v.0) + nullable_bytes_wire(LenKind::Varint, v.1)
    }

    fn byte_size(&self) -> (r: usize) {
        bytes_size(LenKind::Varint, self.key.as_slice()) + nullable_bytes_size(
            LenKind::Varint,
            &self.value,
        )
    }

    fn encode(&self, out: &mut Vec<u8>) {
        write_bytes(LenKind::Varint, self.key.as_slice(), out);
        write_nullable_bytes(LenKind::Varint, &self.value, out);
        assert(out@ =~= old(out)@ + Self::wire(self@));
    }
}

impl Codec for RecordHeader {
    open spec fn valid(v: (Seq<u8>, Option<Seq<u8>>)) -> bool {
        len_fits(LenKind::Varint, v.0.len()) && (v.1 matches Some(b) ==> len_fits(
            LenKind::Varint,
            b.len(),
        ))
    }

    open spec fn parse(s: Seq<u8>, i: int) -> Result<((Seq<u8>, Option<Seq<u8>>), int), KafkaError> {
        match parse_bytes(LenKind::Varint, s, i) {
            Ok((key, j)) => match parse_nullable_bytes(LenKind::Varint, s, j) {
                Ok((value, k)) => Ok(((key, value), k)),
                Err(e) => Err(e),
            },
            Err(e) => Err(e),
        }
    }

    proof fn lemma_round_trip(v: (Seq<u8>, Option<Seq<u8>>), s: Seq<u8>, i: int) {
        let a = bytes_wire(LenKind::Varint, v.0);
        lemma_holds_split(s, i, a, nullable_bytes_wire(LenKind::Varint, v.1));
        lemma_bytes_round_trip(LenKind::Varint, v.0, s, i);
        lemma_nullable_bytes_round_trip(LenKind::Varint, v.1, s, i + a.len());
    }

    fn decode(buf: &[u8], pos: usize) -> (r: Result<(RecordHeader, usize), KafkaError>) {
        let (key, p) = match read_bytes(LenKind::Varint, buf, pos) {
            Ok(x) => x,
            Err(e) => return Err(e),
        };
        let (value, p) = match read_nullable_bytes(LenKind::Varint, buf, p) {
            Ok(x) => x,
            Err(e) => return Err(e),
        };
        Ok((RecordHeader { key, value }, p))
    }
}

/// The wire form of a value behind its varint byte length.
pub open spec fn value_object_wire(v: ValueModel) -> Seq<u8> {
    varint_wire(Value::wire(v).len() as i32) + Value::wire(v)
}

/// Reads a value behind its varint byte length. The value is read from those
/// bytes alone, and reading goes on right after them.
#[verifier::opaque]
pub open spec fn parse_value_object(s: Seq<u8>, i: int) -> Result<(ValueModel, int), KafkaError> {
    match parse_varint(s, i) {
        Err(e) => Err(e),
        Ok((n, j)) => if n < 0 {
            Err(KafkaError::ProtocolViolation)
        } else if j + n > s.len() {
            Err(KafkaError::Truncated)
        } else {
            match Value::parse(s.subrange(j, j + n), 0) {
                Ok((v, _)) => Ok((v, j + n)),
                Err(e) => Err(e),
            }
        },
    }
}

/// A value that fills `w` exactly is read back from `w` alone.
proof fn lemma_value_in_own_bytes(v: ValueModel, w: Seq<u8>)
    requires
        Value::valid(v),
        w == Value::wire(v),
    ensures
        Value::parse(w, 0) == Ok::<(ValueModel, int), KafkaError>((v, w.len() as int)),
{
    assert(w.subrange(0, w.len() as int) =~= w);
    Value::lemma_round_trip(v, w, 0);
}

proof fn lemma_value_object_round_trip(v: ValueModel, s: Seq<u8>, i: int)
    requires
        Value::valid(v),
        Value::wire(v).len() <= i32::MAX,
        holds_at(s, i, value_object_wire(v)),
    ensures
        parse_value_object(s, i) == Ok::<(ValueModel, int), KafkaError>(
            (v, i + value_object_wire(v).len()),
        ),
{
    reveal(parse_value_object);
    let w = Value::wire(v);
    let lw = varint_wire(w.len() as i32);
    lemma_holds_split(s, i, lw, w);
    lemma_varint_round_trip(w.len() as i32, s, i);
    lemma_value_in_own_bytes(v, s.subrange(i + lw.len(), i + lw.len() + w.len()));
}

pub fn value_object_size(v: &Value) -> (r: usize)
    requires
        Value::writable(v@),
        Value::wire(v@).len() <= i32::MAX,
    ensures
        r == value_object_wire(v@).len(),
{
    let n = v.byte_size();
    varint_size(n as i32) + n
}

pub fn write_value_object(v: &Value, out: &mut Vec<u8>)
    requires
        Value::writable(v@),
        Value::wire(v@).len() <= i32::MAX,
    ensures
        final(out)@ == old(out)@ + value_object_wire(v@),
{
    let n = v.byte_size();
    write_varint(n as i32, out);
    v.encode(out);
    assert(out@ =~= old(out)@ + value_object_wire(v@));
}

pub fn read_value_object(buf: &[u8], pos: usize) -> (r: Result<(Value, usize), KafkaError>)
    ensures
        parsed_as(r, parse_value_object(buf@, pos as int)),
{
    proof {
        reveal(parse_value_object);
    }
    let (n, p) = match read_varint(buf, pos) {
        Ok(x) => x,
        Err(e) => return Err(e),
    };
    if n < 0 {
        return Err(KafkaError::ProtocolViolation);
    }
    if p > buf.len() || n as usize > buf.len() - p {
        return Err(KafkaError::Truncated);
    }
    let end = p + n as usize;
    let bytes = copy_range(buf, p, end);
    match Value::decode(bytes.as_slice(), 0) {
        Ok((v, _)) => Ok((v, end)),
        Err(e) => Err(e),
    }
}

/// One record of a batch.
#[derive(Debug, Clone, PartialEq, Eq)]
pub struct Record {
    /// The number of bytes that follow this field up to the end of the record.
    pub length: i32,
    pub attributes: u8,
    pub timestamp_delta: i64,
    pub offset_delta: i32,
    pub key: Option<Vec<u8>>,
    pub value: Value,
    pub headers: Option<Vec<RecordHeader>>,
}

/// The model of a [`Record`].
pub struct RecordModel {
    pub length: i32,
    pub attributes: u8,
    pub timestamp_delta: i64,
    pub offset_delta: i32,
    pub key: Option<Seq<u8>>,
    pub value: ValueModel,
    pub headers: Option<Seq<(Seq<u8>, Option<Seq<u8>>)>>,
}

impl View for Record {
    type V = RecordModel;

    open spec fn view(&self) -> RecordModel {
        RecordModel {
            length: self.length,
            attributes: self.attributes,
            timestamp_delta: self.timestamp_delta,
            offset_delta: self.offset_delta,
            key: opt_bytes_view(&self.key),
            value: self.value@,
            headers: opt_seq_view(&self.headers),
        }
    }
}

/// Everything of a record after its length field.
pub open spec fn record_body_wire(v: RecordModel) -> Seq<u8> {
    seq![v.attributes] + varlong_wire(v.timestamp_delta) + varint_wire(v.offset_delta)
        + nullable_bytes_wire(LenKind::Varint, v.key) + value_object_wire(v.value) + seq_wire::<
        RecordHeader,
    >(LenKind::Uvarint, v.headers)
}

/// Reads the fields of a record that come after its length, from `t` alone.
#[verifier::opaque]
pub open spec fn parse_record_body(t: Seq<u8>, length: i32) -> Result<RecordModel, KafkaError> {
    match parse_u8(t, 0) {
        Err(e) => Err(e),
        Ok((attributes, i)) => match parse_varlong(t, i) {
            Err(e) => Err(e),
            Ok((timestamp_delta, i)) => match parse_varint(t, i) {
                Err(e) => Err(e),
                Ok((offset_delta, i)) => match parse_nullable_bytes(LenKind::Varint, t, i) {
                    Err(e) => Err(e),
                    Ok((key, i)) => match parse_value_object(t, i) {
                        Err(e) => Err(e),
                        Ok((value, i)) => match parse_seq::<RecordHeader>(LenKind::Uvarint, t, i) {
                            Err(e) => Err(e),
                            Ok((headers, _)) => Ok(
                                RecordModel {
                                    length,
                                    attributes,
                                    timestamp_delta,
                                    offset_delta,
                                    key,
                                    value,
                                    headers,
                                },
                            ),
                        },
                    },
                },
            },
        },
    }
}

impl Encode for Record {
    open spec fn writable(v: RecordModel) -> bool {
        &&& (v.key matches Some(b) ==> len_writable(LenKind::Varint, b.len()))
        &&& Value::writable(v.value)
        &&& Value::wire(v.value).len() <= i32::MAX
        &&& seq_writable::<RecordHeader>(LenKind::Uvarint, v.headers)
    }

    open spec fn wire(v: RecordModel) -> Seq<u8> {
        varint_wire(v.length) + record_body_wire(v)
    }

    fn byte_size(&self) -> (r: usize) {
        varint_size(self.length) + 1 + varlong_size(self.timestamp_delta) + varint_size(
            self.offset_delta,
        ) + nullable_bytes_size(LenKind::Varint, &self.key) + value_object_size(&self.value)
            + seq_size(LenKind::Uvarint, &self.headers)
    }

    fn encode(&self, out: &mut Vec<u8>) {
        write_varint(self.length, out);
        out.push(self.attributes);
        write_varlong(self.timestamp_delta, out);
        write_varint(self.offset_delta, out);
        write_nullable_bytes(LenKind::Varint, &self.key, out);
        write_value_object(&self.value, out);
        write_seq(LenKind::Uvarint, &self.headers, out);
        assert(out@ =~= old(out)@ + Self::wire(self@));
    }
}

impl Codec for Record {
    /// The length field must count the bytes that follow it.
    open spec fn valid(v: RecordModel) -> bool {
        &&& v.length == record_body_wire(v).len()
        &&& (v.key matches Some(b) ==> len_fits(LenKind::Varint, b.len()))
        &&& Value::valid(v.value)
        &&& Value::wire(v.value).len() <= i32::MAX
        &&& seq_valid::<RecordHeader>(LenKind::Uvarint, v.headers)
    }

    /// A record is read from the bytes its length field counts, and reading
    /// goes on right after them.
    open spec fn parse(s: Seq<u8>, i: int) -> Result<(RecordModel, int), KafkaError> {
        match parse_varint(s, i) {
            Err(e) => Err(e),
            Ok((length, j)) => if length < 0 {
                Err(KafkaError::ProtocolViolation)
            } else if j + length > s.len() {
                Err(KafkaError::Truncated)
            } else {
                match parse_record_body(s.subrange(j, j + length), length) {
                    Ok(r) => Ok((r, j + length)),
                    Err(e) => Err(e),
                }
            },
        }
    }

    proof fn lemma_round_trip(v: RecordModel, s: Seq<u8>, i: int) {
        let lw = varint_wire(v.length);
        let body = record_body_wire(v);
        lemma_holds_split(s, i, lw, body);
        lemma_varint_round_trip(v.length, s, i);
        let t = s.subrange(i + lw.len(), i + lw.len() + body.len());
        assert(t == body);
        lemma_record_body_round_trip(v, t);
    }

    fn decode(buf: &[u8], pos: usize) -> (r: Result<(Record, usize), KafkaError>) {
        let (length, p) = match read_varint(buf, pos) {
            Ok(x) => x,
            Err(e) => return Err(e),
        };
        if length < 0 {
            return Err(KafkaError::ProtocolViolation);
        }
        if p > buf.len() || length as usize > buf.len() - p {
            return Err(KafkaError::Truncated);
        }
        let end = p + length as usize;
        let body = copy_range(buf, p, end);
        match decode_record_body(body.as_slice(), length) {
            Ok(r) => Ok((r, end)),
            Err(e) => Err(e),
        }
    }
}

/// The fields of a valid record after its length are read back from their
/// own bytes.
#[verifier::spinoff_prover]
#[verifier::rlimit(40)]
proof fn lemma_record_body_round_trip(v: RecordModel, t: Seq<u8>)
    requires
        Record::valid(v),
        t == record_body_wire(v),
    ensures
        parse_record_body(t, v.length) == Ok::<RecordModel, KafkaError>(v),
{
    reveal(parse_record_body);
    assert(holds_at(t, 0, t)) by {
        assert(t.subrange(0, t.len() as int) =~= t);
    }
    let w0 = seq![v.attributes];
    let w1 = varlong_wire(v.timestamp_delta);
    let w2 = varint_wire(v.offset_delta);
    let w3 = nullable_bytes_wire(LenKind::Varint, v.key);
    let w4 = value_object_wire(v.value);
    let w5 = seq_wire::<RecordHeader>(LenKind::Uvarint, v.headers);
    lemma_holds_split(t, 0, w0 + w1 + w2 + w3 + w4, w5);
    lemma_holds_split(t, 0, w0 + w1 + w2 + w3, w4);
    lemma_holds_split(t, 0, w0 + w1 + w2, w3);
    lemma_holds_split(t, 0, w0 + w1, w2);
    lemma_holds_split(t, 0, w0, w1);
    lemma_u8_round_trip(v.attributes, t, 0);
    lemma_varlong_round_trip(v.timestamp_delta, t, 1);
    let p2: int = 1 + w1.len() as int;
    let p3: int = p2 + w2.len();
    let p4: int = p3 + w3.len();
    let p5: int = p4 + w4.len();
    lemma_varint_round_trip(v.offset_delta, t, p2);
    lemma_nullable_bytes_round_trip(LenKind::Varint, v.key, t, p3);
    lemma_value_object_round_trip(v.value, t, p4);
    lemma_seq_round_trip::<RecordHeader>(LenKind::Uvarint, v.headers, t, p5);
}

/// Reads the fields of a record that come after its length, from `t` alone.
fn decode_record_body(t: &[u8], length: i32) -> (r: Result<Record, KafkaError>)
    ensures
        match r {
            Ok(x) => parse_record_body(t@, length) == Ok::<RecordModel, KafkaError>(x@),
            Err(e) => parse_record_body(t@, length) == Err::<RecordModel, KafkaError>(e),
        },
{
    proof {
        reveal(parse_record_body);
    }
    let (attributes, p) = match read_u8(t, 0) {
        Ok(x) => x,
        Err(e) => return Err(e),
    };
    let (timestamp_delta, p) = match read_varlong(t, p) {
        Ok(x) => x,
        Err(e) => return Err(e),
    };
    let (offset_delta, p) = match read_varint(t, p) {
        Ok(x) => x,
        Err(e) => return Err(e),
    };
    let (key, p) = match read_nullable_bytes(LenKind::Varint, t, p) {
        Ok(x) => x,
        Err(e) => return Err(e),
    };
    let (value, p) = match read_value_object(t, p) {
        Ok(x) => x,
        Err(e) => return Err(e),
    };
    let (headers, _) = match read_seq::<RecordHeader>(LenKind::Uvarint, t, p) {
        Ok(x) => x,
        Err(e) => return Err(e),
    };
    Ok(Record { length, attributes, timestamp_delta, offset_delta, key, value, headers })
}

/// A batch of records, as the metadata log stores them one after another.
#[derive(Debug, Clone, PartialEq, Eq)]
pub struct RecordBatch {
    pub base_offset: i64,
    pub batch_length: i32,
    pub partition_leader_epoch: i32,
    /// The format version; `2` for this layout.
    pub magic: u8,
    /// Carried through, never checked.
    pub crc: u32,
    pub attributes: i16,
    pub last_offset_delta: i32,
    pub first_timestamp: i64,
    pub max_timestamp: i64,
    pub producer_id: i64,
    pub producer_epoch: i16,
    pub base_sequence: i32,
    pub records: Option<Vec<Record>>,
}

/// The model of a [`RecordBatch`].
pub struct RecordBatchModel {
    pub base_offset: i64,
    pub batch_length: i32,
    pub partition_leader_epoch: i32,
    pub magic: u8,
    pub crc: u32,
    pub attributes: i16,
    pub last_offset_delta: i32,
    pub first_timestamp: i64,
    pub max_timestamp: i64,
    pub producer_id: i64,
    pub producer_epoch: i16,
    pub base_sequence: i32,
    pub records: Option<Seq<RecordModel>>,
}

impl View for RecordBatch {
    type V = RecordBatchModel;

    open spec fn view(&self) -> RecordBatchModel {
        RecordBatchModel {
            base_offset: self.base_offset,
            batch_length: self.batch_length,
            partition_leader_epoch: self.partition_leader_epoch,
            magic: self.magic,
            crc: self.crc,
            attributes: self.attributes,
            last_offset_delta: self.last_offset_delta,
            first_timestamp: self.first_timestamp,
            max_timestamp: self.max_timestamp,
            producer_id: self.producer_id,
            producer_epoch: self.producer_epoch,
            base_sequence: self.base_sequence,
            records: opt_seq_view(&self.records),
        }
    }
}

impl Encode for RecordBatch {
    open spec fn writable(v: RecordBatchModel) -> bool {
        seq_writable::<Record>(LenKind::I32, v.records)
    }

    open spec fn wire(v: RecordBatchModel) -> Seq<u8> {
        wire_i64(v.base_offset)
            + wire_i32(v.batch_length)
            + wire_i32(v.partition_leader_epoch)
            + seq![v.magic]
            + be32(v.crc)
            + wire_i16(v.attributes)
            + wire_i32(v.last_offset_delta)
            + wire_i64(v.first_timestamp)
            + wire_i64(v.max_timestamp)
            + wire_i64(v.producer_id)
            + wire_i16(v.producer_epoch)
            + wire_i32(v.base_sequence)
            + seq_wire::<Record>(LenKind::I32, v.records)
    }

    fn byte_size(&self) -> (r: usize) {
        8 + 4 + 4 + 1 + 4 + 2 + 4 + 8 + 8 + 8 + 2 + 4 + seq_size(LenKind::I32, &self.records)
    }

    fn encode(&self, out: &mut Vec<u8>) {
        let ghost o = old(out)@;
        let ghost v = self@;
        write_i64(self.base_offset, out);
        let ghost w = wire_i64(v.base_offset);
        write_i32(self.batch_length, out);
        proof {
            lemma_concat_assoc(o, w, wire_i32(v.batch_length));
            w = w + wire_i32(v.batch_length);
        }
        write_i32(self.partition_leader_epoch, out);
        proof {
            lemma_concat_assoc(o, w, wire_i32(v.partition_leader_epoch));
            w = w + wire_i32(v.partition_leader_epoch);
        }
        out.push(self.magic);
        proof {
            lemma_concat_assoc(o, w, seq![v.magic]);
            w = w + seq![v.magic];
        }
        write_u32(self.crc, out);
        proof {
            lemma_concat_assoc(o, w, be32(v.crc));
            w = w + be32(v.crc);
        }
        write_i16(self.attributes, out);
        proof {
            lemma_concat_assoc(o, w, wire_i16(v.attributes));
            w = w + wire_i16(v.attributes);
        }
        write_i32(self.last_offset_delta, out);
        proof {
            lemma_concat_assoc(o, w, wire_i32(v.last_offset_delta));
            w = w + wire_i32(v.last_offset_delta);
        }
        write_i64(self.first_timestamp, out);
        proof {
            lemma_concat_assoc(o, w, wire_i64(v.first_timestamp));
            w = w + wire_i64(v.first_timestamp);
        }
        write_i64(self.max_timestamp, out);
        proof {
            lemma_concat_assoc(o, w, wire_i64(v.max_timestamp));
            w = w + wire_i64(v.max_timestamp);
        }
        write_i64(self.producer_id, out);
        proof {
            lemma_concat_assoc(o, w, wire_i64(v.producer_id));
            w = w + wire_i64(v.producer_id);
        }
        write_i16(self.producer_epoch, out);
        proof {
            lemma_concat_assoc(o, w, wire_i16(v.producer_epoch));
            w = w + wire_i16(v.producer_epoch);
        }
        write_i32(self.base_sequence, out);
        proof {
            lemma_concat_assoc(o, w, wire_i32(v.base_sequence));
            w = w + wire_i32(v.base_sequence);
        }
        write_seq(LenKind::I32, &self.records, out);
        proof {
            lemma_concat_assoc(o, w, seq_wire::<Record>(LenKind::I32, v.records));
        }
    }
}

impl Codec for RecordBatch {
    open spec fn valid(v: RecordBatchModel) -> bool {
        seq_valid::<Record>(LenKind::I32, v.records)
    }

    open spec fn parse(s: Seq<u8>, i: int) -> Result<(RecordBatchModel, int), KafkaError> {
        match parse_i64(s, i) {
            Err(e) => Err(e),
            Ok((base_offset, i)) => match parse_i32(s, i) {
                Err(e) => Err(e),
                Ok((batch_length, i)) => match parse_i32(s, i) {
                    Err(e) => Err(e),
                    Ok((partition_leader_epoch, i)) => match parse_u8(s, i) {
                        Err(e) => Err(e),
                        Ok((magic, i)) => match parse_u32(s, i) {
                            Err(e) => Err(e),
                            Ok((crc, i)) => match parse_i16(s, i) {
                                Err(e) => Err(e),
                                Ok((attributes, i)) => match parse_i32(s, i) {
                                    Err(e) => Err(e),
                                    Ok((last_offset_delta, i)) => match parse_i64(s, i) {
                                        Err(e) => Err(e),
                                        Ok((first_timestamp, i)) => match parse_i64(s, i) {
                                            Err(e) => Err(e),
                                            Ok((max_timestamp, i)) => match parse_i64(s, i) {
                                                Err(e) => Err(e),
                                                Ok((producer_id, i)) => match parse_i16(s, i) {
                                                    Err(e) => Err(e),
                                                    Ok((producer_epoch, i)) => match parse_i32(s, i) {
                                                        Err(e) => Err(e),
                                                        Ok((base_sequence, i)) => match parse_seq::<Record>(LenKind::I32, s, i) {
                                                            Err(e) => Err(e),
                                                            Ok((records, i)) => Ok(
                                                                (
                                                                    RecordBatchModel {
                                                                        base_offset,
                                                                        batch_length,
                                                                        partition_leader_epoch,
                                                                        magic,
                                                                        crc,
                                                                        attributes,
                                                                        last_offset_delta,
                                                                        first_timestamp,
                                                                        max_timestamp,
                                                                        producer_id,
                                                                        producer_epoch,
                                                                        base_sequence,
                                                                        records,
                                                                    },
                                                                    i,
                                                                ),
                                                            ),
                                                        },
                                                    },
                                                },
                                            },
                                        },
                                    },
                                },
                            },
                        },
                    },
                },
            },
        }
    }

    proof fn lemma_round_trip(v: RecordBatchModel, s: Seq<u8>, i: int) {
        let w0 = wire_i64(v.base_offset);
        let w1 = wire_i32(v.batch_length);
        let w2 = wire_i32(v.partition_leader_epoch);
        let w3 = seq![v.magic];
        let w4 = be32(v.crc);
        let w5 = wire_i16(v.attributes);
        let w6 = wire_i32(v.last_offset_delta);
        let w7 = wire_i64(v.first_timestamp);
        let w8 = wire_i64(v.max_timestamp);
        let w9 = wire_i64(v.producer_id);
        let w10 = wire_i16(v.producer_epoch);
        let w11 = wire_i32(v.base_sequence);
        let w12 = seq_wire::<Record>(LenKind::I32, v.records);
        lemma_holds_split(s, i, w0 + w1 + w2 + w3 + w4 + w5 + w6 + w7 + w8 + w9 + w10 + w11, w12);
        lemma_holds_split(s, i, w0 + w1 + w2 + w3 + w4 + w5 + w6 + w7 + w8 + w9 + w10, w11);
        lemma_holds_split(s, i, w0 + w1 + w2 + w3 + w4 + w5 + w6 + w7 + w8 + w9, w10);
        lemma_holds_split(s, i, w0 + w1 + w2 + w3 + w4 + w5 + w6 + w7 + w8, w9);
        lemma_holds_split(s, i, w0 + w1 + w2 + w3 + w4 + w5 + w6 + w7, w8);
        lemma_holds_split(s, i, w0 + w1 + w2 + w3 + w4 + w5 + w6, w7);
        lemma_holds_split(s, i, w0 + w1 + w2 + w3 + w4 + w5, w6);
        lemma_holds_split(s, i, w0 + w1 + w2 + w3 + w4, w5);
        lemma_holds_split(s, i, w0 + w1 + w2 + w3, w4);
        lemma_holds_split(s, i, w0 + w1 + w2, w3);
        lemma_holds_split(s, i, w0 + w1, w2);
        lemma_holds_split(s, i, w0, w1);
        let p0 = i;
        let p1 = p0 + w0.len();
        let p2 = p1 + w1.len();
        let p3 = p2 + w2.len();
        let p4 = p3 + w3.len();
        let p5 = p4 + w4.len();
        let p6 = p5 + w5.len();
        let p7 = p6 + w6.len();
        let p8 = p7 + w7.len();
        let p9 = p8 + w8.len();
        let p10 = p9 + w9.len();
        let p11 = p10 + w10.len();
        let p12 = p11 + w11.len();
        lemma_i64_round_trip(v.base_offset, s, p0);
        lemma_i32_round_trip(v.batch_length, s, p1);
        lemma_i32_round_trip(v.partition_leader_epoch, s, p2);
        lemma_u8_round_trip(v.magic, s, p3);
        lemma_u32_round_trip(v.crc, s, p4);
        lemma_i16_round_trip(v.attributes, s, p5);
        lemma_i32_round_trip(v.last_offset_delta, s, p6);
        lemma_i64_round_trip(v.first_timestamp, s, p7);
        lemma_i64_round_trip(v.max_timestamp, s, p8);
        lemma_i64_round_trip(v.producer_id, s, p9);
        lemma_i16_round_trip(v.producer_epoch, s, p10);
        lemma_i32_round_trip(v.base_sequence, s, p11);
        lemma_seq_round_trip::<Record>(LenKind::I32, v.records, s, p12);
    }

    fn decode(buf: &[u8], pos: usize) -> (r: Result<(RecordBatch, usize), KafkaError>) {
        let p = pos;
        let (base_offset, p) = match read_i64(buf, p) {
            Ok(x) => x,
            Err(e) => return Err(e),
        };
        let (batch_length, p) = match read_i32(buf, p) {
            Ok(x) => x,
            Err(e) => return Err(e),
        };
        let (partition_leader_epoch, p) = match read_i32(buf, p) {
            Ok(x) => x,
            Err(e) => return Err(e),
        };
        let (magic, p) = match read_u8(buf, p) {
            Ok(x) => x,
            Err(e) => return Err(e),
        };
        let (crc, p) = match read_u32(buf, p) {
            Ok(x) => x,
            Err(e) => return Err(e),
        };
        let (attributes, p) = match read_i16(buf, p) {
            Ok(x) => x,
            Err(e) => return Err(e),
        };
        let (last_offset_delta, p) = match read_i32(buf, p) {
            Ok(x) => x,
            Err(e) => return Err(e),
        };
        let (first_timestamp, p) = match read_i64(buf, p) {
            Ok(x) => x,
            Err(e) => return Err(e),
        };
        let (max_timestamp, p) = match read_i64(buf, p) {
            Ok(x) => x,
            Err(e) => return Err(e),
        };
        let (producer_id, p) = match read_i64(buf, p) {
            Ok(x) => x,
            Err(e) => return Err(e),
        };
        let (producer_epoch, p) = match read_i16(buf, p) {
            Ok(x) => x,
            Err(e) => return Err(e),
        };
        let (base_sequence, p) = match read_i32(buf, p) {
            Ok(x) => x,
            Err(e) => return Err(e),
        };
        let (records, p) = match read_seq::<Record>(LenKind::I32, buf, p) {
            Ok(x) => x,
            Err(e) => return Err(e),
        };
        Ok((
            RecordBatch {
                base_offset,
                batch_length,
                partition_leader_epoch,
                magic,
                crc,
                attributes,
                last_offset_delta,
                first_timestamp,
                max_timestamp,
                producer_id,
                producer_epoch,
                base_sequence,
                records,
            },
            p,
        ))
    }
}


/// Reads record batches one after another from position `i` to the end of
/// `s`. Ending at a batch boundary is success; ending inside a batch is not.
pub open spec fn parse_batches(s: Seq<u8>, i: int) -> Result<Seq<RecordBatchModel>, KafkaError>
    decreases s.len() - i,
{
    if i < 0 || i >= s.len() {
        Ok(Seq::empty())
    } else {
        match RecordBatch::parse(s, i) {
            Err(e) => Err(e),
            Ok((b, j)) => if j <= i {
                Err(KafkaError::Truncated)
            } else {
                match parse_batches(s, j) {
                    Ok(bs) => Ok(seq![b] + bs),
                    Err(e) => Err(e),
                }
            },
        }
    }
}

/// `pre` followed by what `r` read, if it read anything.
pub open spec fn after<T>(pre: Seq<T>, r: Result<Seq<T>, KafkaError>) -> Result<Seq<T>, KafkaError> {
    match r {
        Ok(rest) => Ok(pre + rest),
        Err(e) => Err(e),
    }
}

/// Reads every record batch of a metadata log.
pub fn read_batches(buf: &[u8]) -> (r: Result<Vec<RecordBatch>, KafkaError>)
    ensures
        match r {
            Ok(v) => parse_batches(buf@, 0) == Ok::<Seq<RecordBatchModel>, KafkaError>(
                seq_view(v@),
            ),
            Err(e) => parse_batches(buf@, 0) == Err::<Seq<RecordBatchModel>, KafkaError>(e),
        },
{
    let mut out: Vec<RecordBatch> = Vec::new();
    let mut p: usize = 0;
    assert(seq_view(out@) =~= Seq::<RecordBatchModel>::empty());
    assert(after(seq_view(out@), parse_batches(buf@, 0)) =~= parse_batches(buf@, 0)) by {
        match parse_batches(buf@, 0) {
            Ok(bs) => assert(Seq::<RecordBatchModel>::empty() + bs =~= bs),
            Err(_) => {},
        }
    }
    while p < buf.len()
        invariant
            parse_batches(buf@, 0) == after(seq_view(out@), parse_batches(buf@, p as int)),
        decreases buf.len() - p,
    {
        match RecordBatch::decode(buf, p) {
            Ok((b, q)) => {
                if q <= p {
                    // A batch always takes some bytes; this keeps that evident.
                    return Err(KafkaError::Truncated);
                }
                let ghost pre = seq_view(out@);
                let ghost rest = parse_batches(buf@, q as int);
                out.push(b);
                assert(seq_view(out@) =~= pre.push(b@));
                assert(after(pre, after(seq![b@], rest)) =~= after(seq_view(out@), rest)) by {
                    match rest {
                        Ok(bs) => assert(pre + (seq![b@] + bs) =~= pre.push(b@) + bs),
                        Err(_) => {},
                    }
                }
                p = q;
            },
            Err(e) => return Err(e),
        }
    }
    assert(seq_view(out@) + Seq::<RecordBatchModel>::empty() =~= seq_view(out@));
    Ok(out)
}

/// The payloads of a batch's records, in order.
pub open spec fn batch_payloads(b: RecordBatchModel) -> Seq<RecordVariantModel> {
    match b.records {
        Some(rs) => rs.map_values(|r: RecordModel| r.value.payload),
        None => Seq::empty(),
    }
}

/// The payloads of all records of all batches, in order.
pub open spec fn all_payloads(bs: Seq<RecordBatchModel>) -> Seq<RecordVariantModel>
    decreases bs.len(),
{
    if bs.len() == 0 {
        Seq::empty()
    } else {
        all_payloads(bs.drop_last()) + batch_payloads(bs.last())
    }
}

/// Moves the payloads of `b`'s records to the end of `out`.
fn take_payloads(b: RecordBatch, out: &mut Vec<RecordVariant>)
    ensures
        seq_view(final(out)@) == seq_view(old(out)@) + batch_payloads(b@),
{
    match b.records {
        Some(mut rs) => {
            let ghost all = rs@;
            let ghost start = seq_view(out@);
            let n: usize = rs.len();
            let mut k: usize = 0;
            while rs.len() > 0
                invariant
                    n == all.len(),
                    k + rs@.len() == all.len(),
                    rs@ == all.skip(k as int),
                    seq_view(out@) == start + all.take(k as int).map_values(
                        |r: Record| r.value.payload@,
                    ),
                decreases rs.len(),
            {
                let r = rs.remove(0);
                let ghost before = seq_view(out@);
                out.push(r.value.payload);
                assert(seq_view(out@) =~= before.push(r.value.payload@));
                assert(r == all[k as int]);
                assert(all.take(k + 1).map_values(|r: Record| r.value.payload@) =~= all.take(
                    k as int,
                ).map_values(|r: Record| r.value.payload@).push(r.value.payload@));
                assert(rs@ =~= all.skip(k + 1));
                k = k + 1;
            }
            assert(all.take(k as int) =~= all);
            assert(all.map_values(|r: Record| r.value.payload@) =~= seq_view(all).map_values(
                |r: RecordModel| r.value.payload,
            ));
        },
        None => {
            assert(seq_view(out@) + Seq::<RecordVariantModel>::empty() =~= seq_view(out@));
        },
    }
}

/// The payloads of every record of `batches`, in the order they were stored.
pub fn metadata_records(batches: Vec<RecordBatch>) -> (r: Vec<RecordVariant>)
    ensures
        seq_view(r@) == all_payloads(seq_view(batches@)),
{
    let ghost all = batches@;
    let n: usize = batches.len();
    let mut rest = batches;
    let mut out: Vec<RecordVariant> = Vec::new();
    let mut k: usize = 0;
    assert(seq_view(out@) =~= all_payloads(seq_view(all.take(0))));
    while rest.len() > 0
        invariant
            n == all.len(),
            k + rest@.len() == all.len(),
            rest@ == all.skip(k as int),
            seq_view(out@) == all_payloads(seq_view(all.take(k as int))),
        decreases rest.len(),
    {
        let b = rest.remove(0);
        proof {
            assert(seq_view(all.take(k + 1)).drop_last() =~= seq_view(all.take(k as int)));
            assert(seq_view(all.take(k + 1)).last() == b@);
        }
        take_payloads(b, &mut out);
        assert(rest@ =~= all.skip(k + 1));
        k = k + 1;
    }
    assert(all.take(k as int) =~= all);
    out
}

/// Reads a metadata log and gives the payloads of all its records, in order.
pub fn read_metadata_records(buf: &[u8]) -> (r: Result<Vec<RecordVariant>, KafkaError>)
    ensures
        match parse_batches(buf@, 0) {
            Ok(bs) => r matches Ok(v) && seq_view(v@) == all_payloads(bs),
            Err(e) => r == Err::<Vec<RecordVariant>, KafkaError>(e),
        },
{
    match read_batches(buf) {
        Ok(batches) => Ok(metadata_records(batches)),
        Err(e) => Err(e),
    }
}

} // verus!

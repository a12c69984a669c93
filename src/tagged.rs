//! The tagged-fields block that ends every flexible structure: a count, then
//! `(tag, length, bytes)` for each field.
use vstd::prelude::*;

use crate::array::{
    all_valid, all_writable, lemma_wires_round_trip, parse_n, read_n, seq_view, wires, write_all,
    all_size,
};
use crate::codec::{parse_run, read_run, write_raw, Codec, Encode};
use crate::error::KafkaError;
use crate::primitives::{lemma_holds_split};
use crate::varint::{
    lemma_uvarint32_round_trip, lemma_uvarint64_round_trip, parse_uvarint32, parse_uvarint64,
    read_uvarint32, read_uvarint64, uvarint_size, uvarint_wire, write_uvarint,
};

verus! {

/// One tagged field: its tag and its raw, uninterpreted bytes.
#[derive(Debug, Clone, PartialEq, Eq)]
pub struct Tag {
    pub tag: u32,
    pub value: Vec<u8>,
}

impl View for Tag {
    type V = (u32, Seq<u8>);

    open spec fn view(&self) -> (u32, Seq<u8>) {
        (self.tag, self.value@)
    }
}

impl Tag {
    pub fn new(tag: u32, value: Vec<u8>) -> (r: Tag)
        ensures
            r@ == (tag, value@),
    {
        Tag { tag, value }
    }

    pub fn tag(&self) -> (r: u32)
        ensures
            r == self@.0,
    {
        self.tag
    }

    pub fn value(&self) -> (r: &Vec<u8>)
        ensures
            r@ == self@.1,
    {
        &self.value
    }
}

impl Encode for Tag {
    open spec fn writable(v: (u32, Seq<u8>)) -> bool {
        true
    }

    open spec fn wire(v: (u32, Seq<u8>)) -> Seq<u8> {
        uvarint_wire(v.0 as nat) + uvarint_wire(v.1.len()) + v.1
    }

    fn byte_size(&self) -> (r: usize) {
        uvarint_size(self.tag as u64) + uvarint_size(self.value.len() as u64) + self.value.len()
    }

    fn encode(&self, out: &mut Vec<u8>) {
        write_uvarint(self.tag as u64, out);
        write_uvarint(self.value.len() as u64, out);
        write_raw(self.value.as_slice(), out);
        assert(out@ =~= old(out)@ + Self::wire(self@));
    }
}

impl Codec for Tag {
    open spec fn valid(v: (u32, Seq<u8>)) -> bool {
        v.1.len() <= u64::MAX
    }

    open spec fn parse(s: Seq<u8>, i: int) -> Result<((u32, Seq<u8>), int), KafkaError> {
        match parse_uvarint32(s, i) {
            Ok((t, j)) => match parse_uvarint64(s, j) {
                Ok((n, k)) => match parse_run(s, k, n as nat) {
                    Ok((b, e)) => Ok(((t, b), e)),
                    Err(e) => Err(e),
                },
                Err(e) => Err(e),
            },
            Err(e) => Err(e),
        }
    }

    proof fn lemma_round_trip(v: (u32, Seq<u8>), s: Seq<u8>, i: int) {
        let a = uvarint_wire(v.0 as nat);
        let b = uvarint_wire(v.1.len());
        lemma_holds_split(s, i, a + b, v.1);
        lemma_holds_split(s, i, a, b);
        lemma_uvarint32_round_trip(v.0, s, i);
        lemma_uvarint64_round_trip(v.1.len() as u64, s, i + a.len());
    }

    fn decode(buf: &[u8], pos: usize) -> (r: Result<(Tag, usize), KafkaError>) {
        let (tag, p) = match read_uvarint32(buf, pos) {
            Ok(x) => x,
            Err(e) => return Err(e),
        };
        let (n, p) = match read_uvarint64(buf, p) {
            Ok(x) => x,
            Err(e) => return Err(e),
        };
        match read_run(buf, p, n) {
            Ok((value, e)) => Ok((Tag { tag, value }, e)),
            Err(e) => Err(e),
        }
    }
}

/// The tagged fields at the end of a flexible structure, kept verbatim.
#[derive(Debug, Clone, PartialEq, Eq)]
pub struct TaggedFields {
    pub tags: Vec<Tag>,
}

impl View for TaggedFields {
    type V = Seq<(u32, Seq<u8>)>;

    open spec fn view(&self) -> Seq<(u32, Seq<u8>)> {
        seq_view(self.tags@)
    }
}

impl TaggedFields {
    pub fn new(tags: Vec<Tag>) -> (r: TaggedFields)
        ensures
            r@ == seq_view(tags@),
    {
        TaggedFields { tags }
    }

    /// The empty block, which is all this server ever writes.
    pub fn empty() -> (r: TaggedFields)
        ensures
            r@ == Seq::<(u32, Seq<u8>)>::empty(),
    {
        let r = TaggedFields { tags: Vec::new() };
        assert(r@ =~= Seq::<(u32, Seq<u8>)>::empty());
        r
    }

    pub fn tags(&self) -> (r: &Vec<Tag>)
        ensures
            seq_view(r@) == self@,
    {
        &self.tags
    }
}

impl Encode for TaggedFields {
    open spec fn writable(v: Seq<(u32, Seq<u8>)>) -> bool {
        all_writable::<Tag>(v)
    }

    open spec fn wire(v: Seq<(u32, Seq<u8>)>) -> Seq<u8> {
        uvarint_wire(v.len()) + wires::<Tag>(v)
    }

    fn byte_size(&self) -> (r: usize) {
        uvarint_size(self.tags.len() as u64) + all_size(&self.tags)
    }

    fn encode(&self, out: &mut Vec<u8>) {
        write_uvarint(self.tags.len() as u64, out);
        write_all(&self.tags, out);
        assert(out@ =~= old(out)@ + Self::wire(self@));
    }
}

impl Codec for TaggedFields {
    open spec fn valid(v: Seq<(u32, Seq<u8>)>) -> bool {
        v.len() <= u64::MAX && all_valid::<Tag>(v)
    }

    open spec fn parse(s: Seq<u8>, i: int) -> Result<(Seq<(u32, Seq<u8>)>, int), KafkaError> {
        match parse_uvarint64(s, i) {
            Ok((n, j)) => parse_n::<Tag>(s, j, n as nat),
            Err(e) => Err(e),
        }
    }

    proof fn lemma_round_trip(v: Seq<(u32, Seq<u8>)>, s: Seq<u8>, i: int) {
        let a = uvarint_wire(v.len());
        lemma_holds_split(s, i, a, wires::<Tag>(v));
        lemma_uvarint64_round_trip(v.len() as u64, s, i);
        lemma_wires_round_trip::<Tag>(v, s, i + a.len());
    }

    fn decode(buf: &[u8], pos: usize) -> (r: Result<(TaggedFields, usize), KafkaError>) {
        let (n, p) = match read_uvarint64(buf, pos) {
            Ok(x) => x,
            Err(e) => return Err(e),
        };
        match read_n::<Tag>(buf, p, n) {
            Ok((tags, e)) => Ok((TaggedFields { tags }, e)),
            Err(e) => Err(e),
        }
    }
}

} // verus!

//! The codec abstraction and the length-prefixed family: byte strings and
//! arrays behind one of four length conventions, nullable or not.
use vstd::prelude::*;

use crate::error::KafkaError;
use crate::primitives::{
    be128, be16, be32, be64, has, holds_at, lemma_holds_split, lemma_u128_round_trip,
    lemma_u16_round_trip, lemma_u32_round_trip, lemma_u64_round_trip, lemma_u8_round_trip,
    parse_u128, parse_u16, parse_u32, parse_u64, parse_u8, read_u128, read_u16, read_u32,
    read_u64, read_u8, write_u128, write_u16, write_u32, write_u64, Uuid,
};
use crate::varint::{
    lemma_uvarint64_len, lemma_uvarint64_round_trip, lemma_varint_round_trip, parse_uvarint64, parse_varint,
    read_uvarint64, read_varint, uvarint_size, uvarint_wire, varint_size, varint_wire,
    write_uvarint, write_varint, MAX_VARINT_BYTES_U64,
};

verus! {

/// Relates what an executable decoder returned to what the spec parser gives.
pub open spec fn parsed_as<T: View>(
    r: Result<(T, usize), KafkaError>,
    p: Result<(T::V, int), KafkaError>,
) -> bool {
    match r {
        Ok((v, end)) => p == Ok::<(T::V, int), KafkaError>((v@, end as int)),
        Err(e) => p == Err::<(T::V, int), KafkaError>(e),
    }
}

/// A type with a wire form: `wire` says what `encode` writes and
/// `byte_size` how many bytes that is.
pub trait Encode: Sized + View {
    /// Whether `v` can be written: every length fits its prefix.
    spec fn writable(v: Self::V) -> bool;

    /// The bytes that encode `v`.
    spec fn wire(v: Self::V) -> Seq<u8>;

    /// The number of bytes `encode` writes.
    fn byte_size(&self) -> (r: usize)
        requires
            Self::writable(self@),
            Self::wire(self@).len() <= usize::MAX,
        ensures
            r == Self::wire(self@).len(),
    ;

    /// Appends the wire form of `self` to `out`.
    fn encode(&self, out: &mut Vec<u8>)
        requires
            Self::writable(self@),
        ensures
            final(out)@ == old(out)@ + Self::wire(self@),
    ;
}

/// A type that can also be read back: `parse` says what `decode` reads, and
/// `lemma_round_trip` that reading a written valid value gives it back.
pub trait Codec: Encode {
    /// Whether `v` can be written and read back.
    spec fn valid(v: Self::V) -> bool;

    /// Reads a value at position `i` of `s`; gives it with the position after it.
    spec fn parse(s: Seq<u8>, i: int) -> Result<(Self::V, int), KafkaError>;

    proof fn lemma_round_trip(v: Self::V, s: Seq<u8>, i: int)
        requires
            Self::valid(v),
            holds_at(s, i, Self::wire(v)),
        ensures
            Self::parse(s, i) == Ok::<(Self::V, int), KafkaError>((v, i + Self::wire(v).len())),
    ;

    /// Reads a value at `pos`.
    fn decode(buf: &[u8], pos: usize) -> (r: Result<(Self, usize), KafkaError>)
        ensures
            parsed_as(r, Self::parse(buf@, pos as int)),
    ;
}

pub open spec fn parse_i8(s: Seq<u8>, i: int) -> Result<(i8, int), KafkaError> {
    match parse_u8(s, i) {
        Ok((v, j)) => Ok((v as i8, j)),
        Err(e) => Err(e),
    }
}

pub open spec fn parse_i16(s: Seq<u8>, i: int) -> Result<(i16, int), KafkaError> {
    match parse_u16(s, i) {
        Ok((v, j)) => Ok((v as i16, j)),
        Err(e) => Err(e),
    }
}

pub open spec fn parse_i32(s: Seq<u8>, i: int) -> Result<(i32, int), KafkaError> {
    match parse_u32(s, i) {
        Ok((v, j)) => Ok((v as i32, j)),
        Err(e) => Err(e),
    }
}

pub open spec fn parse_i64(s: Seq<u8>, i: int) -> Result<(i64, int), KafkaError> {
    match parse_u64(s, i) {
        Ok((v, j)) => Ok((v as i64, j)),
        Err(e) => Err(e),
    }
}

/// A boolean is one byte; only `1` reads as true.
pub open spec fn parse_bool(s: Seq<u8>, i: int) -> Result<(bool, int), KafkaError> {
    match parse_u8(s, i) {
        Ok((v, j)) => Ok((v == 1, j)),
        Err(e) => Err(e),
    }
}

pub open spec fn wire_i8(v: i8) -> Seq<u8> {
    seq![v as u8]
}

pub open spec fn wire_i16(v: i16) -> Seq<u8> {
    be16(v as u16)
}

pub open spec fn wire_i32(v: i32) -> Seq<u8> {
    be32(v as u32)
}

pub open spec fn wire_i64(v: i64) -> Seq<u8> {
    be64(v as u64)
}

pub open spec fn wire_bool(v: bool) -> Seq<u8> {
    seq![if v { 1u8 } else { 0u8 }]
}

pub proof fn lemma_i8_round_trip(v: i8, s: Seq<u8>, i: int)
    requires
        holds_at(s, i, wire_i8(v)),
    ensures
        parse_i8(s, i) == Ok::<(i8, int), KafkaError>((v, i + 1)),
{
    lemma_u8_round_trip(v as u8, s, i);
    assert((v as u8) as i8 == v) by (bit_vector);
}

pub proof fn lemma_i16_round_trip(v: i16, s: Seq<u8>, i: int)
    requires
        holds_at(s, i, wire_i16(v)),
    ensures
        parse_i16(s, i) == Ok::<(i16, int), KafkaError>((v, i + 2)),
{
    lemma_u16_round_trip(v as u16, s, i);
    assert((v as u16) as i16 == v) by (bit_vector);
}

pub proof fn lemma_i32_round_trip(v: i32, s: Seq<u8>, i: int)
    requires
        holds_at(s, i, wire_i32(v)),
    ensures
        parse_i32(s, i) == Ok::<(i32, int), KafkaError>((v, i + 4)),
{
    lemma_u32_round_trip(v as u32, s, i);
    assert((v as u32) as i32 == v) by (bit_vector);
}

pub proof fn lemma_i64_round_trip(v: i64, s: Seq<u8>, i: int)
    requires
        holds_at(s, i, wire_i64(v)),
    ensures
        parse_i64(s, i) == Ok::<(i64, int), KafkaError>((v, i + 8)),
{
    lemma_u64_round_trip(v as u64, s, i);
    assert((v as u64) as i64 == v) by (bit_vector);
}

pub proof fn lemma_bool_round_trip(v: bool, s: Seq<u8>, i: int)
    requires
        holds_at(s, i, wire_bool(v)),
    ensures
        parse_bool(s, i) == Ok::<(bool, int), KafkaError>((v, i + 1)),
{
    lemma_u8_round_trip(if v { 1u8 } else { 0u8 }, s, i);
}

pub fn write_i8(v: i8, out: &mut Vec<u8>)
    ensures
        final(out)@ == old(out)@ + wire_i8(v),
{
    out.push(v as u8);
}

pub fn write_i16(v: i16, out: &mut Vec<u8>)
    ensures
        final(out)@ == old(out)@ + wire_i16(v),
{
    write_u16(v as u16, out);
}

pub fn write_i32(v: i32, out: &mut Vec<u8>)
    ensures
        final(out)@ == old(out)@ + wire_i32(v),
{
    write_u32(v as u32, out);
}

pub fn write_i64(v: i64, out: &mut Vec<u8>)
    ensures
        final(out)@ == old(out)@ + wire_i64(v),
{
    write_u64(v as u64, out);
}

pub fn write_bool(v: bool, out: &mut Vec<u8>)
    ensures
        final(out)@ == old(out)@ + wire_bool(v),
{
    out.push(if v { 1u8 } else { 0u8 });
}

pub fn read_i8(buf: &[u8], pos: usize) -> (r: Result<(i8, usize), KafkaError>)
    ensures
        parsed_as(r, parse_i8(buf@, pos as int)),
{
    match read_u8(buf, pos) {
        Ok((v, p)) => Ok((v as i8, p)),
        Err(e) => Err(e),
    }
}

pub fn read_i16(buf: &[u8], pos: usize) -> (r: Result<(i16, usize), KafkaError>)
    ensures
        parsed_as(r, parse_i16(buf@, pos as int)),
{
    match read_u16(buf, pos) {
        Ok((v, p)) => Ok((v as i16, p)),
        Err(e) => Err(e),
    }
}

pub fn read_i32(buf: &[u8], pos: usize) -> (r: Result<(i32, usize), KafkaError>)
    ensures
        parsed_as(r, parse_i32(buf@, pos as int)),
{
    match read_u32(buf, pos) {
        Ok((v, p)) => Ok((v as i32, p)),
        Err(e) => Err(e),
    }
}

pub fn read_i64(buf: &[u8], pos: usize) -> (r: Result<(i64, usize), KafkaError>)
    ensures
        parsed_as(r, parse_i64(buf@, pos as int)),
{
    match read_u64(buf, pos) {
        Ok((v, p)) => Ok((v as i64, p)),
        Err(e) => Err(e),
    }
}

pub fn read_bool(buf: &[u8], pos: usize) -> (r: Result<(bool, usize), KafkaError>)
    ensures
        parsed_as(r, parse_bool(buf@, pos as int)),
{
    match read_u8(buf, pos) {
        Ok((v, p)) => Ok((v == 1, p)),
        Err(e) => Err(e),
    }
}

impl Encode for i32 {
    open spec fn writable(v: i32) -> bool {
        true
    }

    open spec fn wire(v: i32) -> Seq<u8> {
        wire_i32(v)
    }

    fn byte_size(&self) -> (r: usize) {
        4
    }

    fn encode(&self, out: &mut Vec<u8>) {
        write_i32(*self, out);
    }
}

impl Codec for i32 {
    open spec fn valid(v: i32) -> bool {
        true
    }

    open spec fn parse(s: Seq<u8>, i: int) -> Result<(i32, int), KafkaError> {
        parse_i32(s, i)
    }

    proof fn lemma_round_trip(v: i32, s: Seq<u8>, i: int) {
        lemma_i32_round_trip(v, s, i);
    }

    fn decode(buf: &[u8], pos: usize) -> (r: Result<(i32, usize), KafkaError>) {
        read_i32(buf, pos)
    }
}

impl View for Uuid {
    type V = Uuid;

    open spec fn view(&self) -> Uuid {
        *self
    }
}

impl Encode for Uuid {
    open spec fn writable(v: Uuid) -> bool {
        true
    }

    open spec fn wire(v: Uuid) -> Seq<u8> {
        be128(v.value)
    }

    fn byte_size(&self) -> (r: usize) {
        16
    }

    fn encode(&self, out: &mut Vec<u8>) {
        write_u128(self.value, out);
    }
}

impl Codec for Uuid {
    open spec fn valid(v: Uuid) -> bool {
        true
    }

    open spec fn parse(s: Seq<u8>, i: int) -> Result<(Uuid, int), KafkaError> {
        match parse_u128(s, i) {
            Ok((v, j)) => Ok((Uuid { value: v }, j)),
            Err(e) => Err(e),
        }
    }

    proof fn lemma_round_trip(v: Uuid, s: Seq<u8>, i: int) {
        lemma_u128_round_trip(v.value, s, i);
    }

    fn decode(buf: &[u8], pos: usize) -> (r: Result<(Uuid, usize), KafkaError>) {
        match read_u128(buf, pos) {
            Ok((v, p)) => Ok((Uuid { value: v }, p)),
            Err(e) => Err(e),
        }
    }
}

/// How a length (or element count) is written in front of what it measures.
#[derive(Debug, Clone, Copy, PartialEq, Eq, Structural)]
pub enum LenKind {
    /// Big-endian `i16`; `-1` is null.
    I16,
    /// Big-endian `i32`; `-1` is null.
    I32,
    /// Zig-zag signed varint; `-1` is null.
    Varint,
    /// Unsigned varint holding the length plus one; `0` is null.
    Uvarint,
}

/// Whether a length of `n` can be written in the convention `k`.
pub open spec fn len_writable(k: LenKind, n: nat) -> bool {
    match k {
        LenKind::I16 => n <= i16::MAX,
        LenKind::I32 => n <= i32::MAX,
        LenKind::Varint => n <= i32::MAX,
        LenKind::Uvarint => true,
    }
}

/// Whether a length of `n` can be written in the convention `k` and read back.
pub open spec fn len_fits(k: LenKind, n: nat) -> bool {
    len_writable(k, n) && n < u64::MAX
}

/// The wire form of a length `Some(n)`, or of null.
pub open spec fn len_wire(k: LenKind, n: Option<nat>) -> Seq<u8> {
    match (k, n) {
        (LenKind::I16, Some(n)) => wire_i16(n as i16),
        (LenKind::I16, None) => wire_i16(-1i16),
        (LenKind::I32, Some(n)) => wire_i32(n as i32),
        (LenKind::I32, None) => wire_i32(-1i32),
        (LenKind::Varint, Some(n)) => varint_wire(n as i32),
        (LenKind::Varint, None) => varint_wire(-1i32),
        (LenKind::Uvarint, Some(n)) => uvarint_wire(n + 1),
        (LenKind::Uvarint, None) => uvarint_wire(0),
    }
}

/// Reads a length; a negative signed length, or an unsigned one of `0`, is null.
pub open spec fn parse_len(k: LenKind, s: Seq<u8>, i: int) -> Result<(Option<nat>, int), KafkaError> {
    match k {
        LenKind::I16 => match parse_i16(s, i) {
            Ok((v, j)) => Ok((if v < 0 { None } else { Some(v as nat) }, j)),
            Err(e) => Err(e),
        },
        LenKind::I32 => match parse_i32(s, i) {
            Ok((v, j)) => Ok((if v < 0 { None } else { Some(v as nat) }, j)),
            Err(e) => Err(e),
        },
        LenKind::Varint => match parse_varint(s, i) {
            Ok((v, j)) => Ok((if v < 0 { None } else { Some(v as nat) }, j)),
            Err(e) => Err(e),
        },
        LenKind::Uvarint => match parse_uvarint64(s, i) {
            Ok((v, j)) => Ok((if v == 0 { None } else { Some((v - 1) as nat) }, j)),
            Err(e) => Err(e),
        },
    }
}

pub proof fn lemma_len_round_trip(k: LenKind, n: Option<nat>, s: Seq<u8>, i: int)
    requires
        n matches Some(m) ==> len_fits(k, m),
        holds_at(s, i, len_wire(k, n)),
    ensures
        parse_len(k, s, i) == Ok::<(Option<nat>, int), KafkaError>(
            (n, i + len_wire(k, n).len()),
        ),
{
    match k {
        LenKind::I16 => {
            let v: i16 = match n {
                Some(m) => m as i16,
                None => -1i16,
            };
            lemma_i16_round_trip(v, s, i);
        },
        LenKind::I32 => {
            let v: i32 = match n {
                Some(m) => m as i32,
                None => -1i32,
            };
            lemma_i32_round_trip(v, s, i);
        },
        LenKind::Varint => {
            let v: i32 = match n {
                Some(m) => m as i32,
                None => -1i32,
            };
            lemma_varint_round_trip(v, s, i);
        },
        LenKind::Uvarint => {
            let v: u64 = match n {
                Some(m) => (m + 1) as u64,
                None => 0u64,
            };
            lemma_uvarint64_round_trip(v, s, i);
        },
    }
}

/// Appends the length `n` (`None` for null) in the convention `k`.
pub fn write_len(k: LenKind, n: Option<usize>, out: &mut Vec<u8>)
    requires
        n matches Some(m) ==> len_writable(k, m as nat),
    ensures
        final(out)@ == old(out)@ + len_wire(
            k,
            match n {
                Some(m) => Some(m as nat),
                None => None,
            },
        ),
{
    match (k, n) {
        (LenKind::I16, Some(m)) => write_i16(m as i16, out),
        (LenKind::I16, None) => write_i16(-1, out),
        (LenKind::I32, Some(m)) => write_i32(m as i32, out),
        (LenKind::I32, None) => write_i32(-1, out),
        (LenKind::Varint, Some(m)) => write_varint(m as i32, out),
        (LenKind::Varint, None) => write_varint(-1, out),
        (LenKind::Uvarint, Some(m)) => {
            if (m as u64) < u64::MAX {
                write_uvarint((m as u64) + 1, out);
            } else {
                // The length plus one is 2^64, one past what a u64 holds.
                proof {
                    lemma_uvarint_two_pow_64();
                }
                out.push(0x80u8);
                write_uvarint(0x200_0000_0000_0000u64, out);
                assert(out@ =~= old(out)@ + uvarint_wire((m + 1) as nat));
            }
        },
        (LenKind::Uvarint, None) => write_uvarint(0, out),
    }
}

proof fn lemma_uvarint_two_pow_64()
    ensures
        uvarint_wire(0x1_0000_0000_0000_0000nat) == seq![0x80u8] + uvarint_wire(
            0x200_0000_0000_0000nat,
        ),
        uvarint_wire(0x200_0000_0000_0000nat).len() == 9,
{
    reveal_with_fuel(uvarint_wire, 10);
}

/// The number of bytes of the length `n` in the convention `k`.
pub fn len_size(k: LenKind, n: Option<usize>) -> (r: usize)
    requires
        n matches Some(m) ==> len_writable(k, m as nat),
    ensures
        r == len_wire(
            k,
            match n {
                Some(m) => Some(m as nat),
                None => None,
            },
        ).len(),
        r <= MAX_VARINT_BYTES_U64,
{
    match (k, n) {
        (LenKind::I16, _) => 2,
        (LenKind::I32, _) => 4,
        (LenKind::Varint, Some(m)) => varint_size(m as i32),
        (LenKind::Varint, None) => varint_size(-1),
        (LenKind::Uvarint, Some(m)) => {
            if (m as u64) < u64::MAX {
                uvarint_size((m as u64) + 1)
            } else {
                proof {
                    lemma_uvarint_two_pow_64();
                    lemma_uvarint64_len(0x200_0000_0000_0000u64);
                }
                1 + uvarint_size(0x200_0000_0000_0000u64)
            }
        },
        (LenKind::Uvarint, None) => uvarint_size(0),
    }
}

/// Reads a length in the convention `k` at `pos`.
pub fn read_len(k: LenKind, buf: &[u8], pos: usize) -> (r: Result<(Option<u64>, usize), KafkaError>)
    ensures
        match r {
            Ok((n, end)) => parse_len(k, buf@, pos as int) == Ok::<(Option<nat>, int), KafkaError>(
                (
                    match n {
                        Some(m) => Some(m as nat),
                        None => None,
                    },
                    end as int,
                ),
            ),
            Err(e) => parse_len(k, buf@, pos as int) == Err::<(Option<nat>, int), KafkaError>(e),
        },
{
    match k {
        LenKind::I16 => match read_i16(buf, pos) {
            Ok((v, p)) => Ok((
                if v < 0 {
                    None
                } else {
                    Some(v as u64)
                },
                p,
            )),
            Err(e) => Err(e),
        },
        LenKind::I32 => match read_i32(buf, pos) {
            Ok((v, p)) => Ok((
                if v < 0 {
                    None
                } else {
                    Some(v as u64)
                },
                p,
            )),
            Err(e) => Err(e),
        },
        LenKind::Varint => match read_varint(buf, pos) {
            Ok((v, p)) => Ok((
                if v < 0 {
                    None
                } else {
                    Some(v as u64)
                },
                p,
            )),
            Err(e) => Err(e),
        },
        LenKind::Uvarint => match read_uvarint64(buf, pos) {
            Ok((v, p)) => Ok((
                if v == 0 {
                    None
                } else {
                    Some(v - 1)
                },
                p,
            )),
            Err(e) => Err(e),
        },
    }
}

/// The wire form of a byte string behind a length.
pub open spec fn bytes_wire(k: LenKind, b: Seq<u8>) -> Seq<u8> {
    len_wire(k, Some(b.len())) + b
}

/// The wire form of a nullable byte string.
pub open spec fn nullable_bytes_wire(k: LenKind, b: Option<Seq<u8>>) -> Seq<u8> {
    match b {
        Some(b) => bytes_wire(k, b),
        None => len_wire(k, None),
    }
}

/// The bytes of `n` bytes starting at `j`, if `s` has them.
pub open spec fn parse_run(s: Seq<u8>, j: int, n: nat) -> Result<(Seq<u8>, int), KafkaError> {
    if has(s, j, n as int) {
        Ok((s.subrange(j, j + n), j + n))
    } else {
        Err(KafkaError::Truncated)
    }
}

/// Reads a byte string that cannot be null.
pub open spec fn parse_bytes(k: LenKind, s: Seq<u8>, i: int) -> Result<(Seq<u8>, int), KafkaError> {
    match parse_len(k, s, i) {
        Ok((None, _)) => Err(KafkaError::ProtocolViolation),
        Ok((Some(n), j)) => parse_run(s, j, n),
        Err(e) => Err(e),
    }
}

/// Reads a byte string that may be null.
pub open spec fn parse_nullable_bytes(k: LenKind, s: Seq<u8>, i: int) -> Result<
    (Option<Seq<u8>>, int),
    KafkaError,
> {
    match parse_len(k, s, i) {
        Ok((None, j)) => Ok((None, j)),
        Ok((Some(n), j)) => match parse_run(s, j, n) {
            Ok((b, e)) => Ok((Some(b), e)),
            Err(e) => Err(e),
        },
        Err(e) => Err(e),
    }
}

pub proof fn lemma_bytes_round_trip(k: LenKind, b: Seq<u8>, s: Seq<u8>, i: int)
    requires
        len_fits(k, b.len()),
        holds_at(s, i, bytes_wire(k, b)),
    ensures
        parse_bytes(k, s, i) == Ok::<(Seq<u8>, int), KafkaError>(
            (b, i + bytes_wire(k, b).len()),
        ),
        parse_nullable_bytes(k, s, i) == Ok::<(Option<Seq<u8>>, int), KafkaError>(
            (Some(b), i + bytes_wire(k, b).len()),
        ),
{
    let lw = len_wire(k, Some(b.len()));
    lemma_holds_split(s, i, lw, b);
    lemma_len_round_trip(k, Some(b.len()), s, i);
}

pub proof fn lemma_nullable_bytes_round_trip(k: LenKind, b: Option<Seq<u8>>, s: Seq<u8>, i: int)
    requires
        b matches Some(x) ==> len_fits(k, x.len()),
        holds_at(s, i, nullable_bytes_wire(k, b)),
    ensures
        parse_nullable_bytes(k, s, i) == Ok::<(Option<Seq<u8>>, int), KafkaError>(
            (b, i + nullable_bytes_wire(k, b).len()),
        ),
{
    match b {
        Some(x) => lemma_bytes_round_trip(k, x, s, i),
        None => lemma_len_round_trip(k, None, s, i),
    }
}

/// Appends all of `b` to `out`.
pub fn write_raw(b: &[u8], out: &mut Vec<u8>)
    ensures
        final(out)@ == old(out)@ + b@,
{
    let mut i: usize = 0;
    while i < b.len()
        invariant
            i <= b.len(),
            out@ == old(out)@ + b@.subrange(0, i as int),
        decreases b.len() - i,
    {
        out.push(b[i]);
        i = i + 1;
        assert(out@ =~= old(out)@ + b@.subrange(0, i as int));
    }
    assert(b@.subrange(0, b.len() as int) =~= b@);
}

/// A copy of `buf[start..end]`.
pub fn copy_range(buf: &[u8], start: usize, end: usize) -> (r: Vec<u8>)
    requires
        start <= end <= buf.len(),
    ensures
        r@ == buf@.subrange(start as int, end as int),
{
    let mut out: Vec<u8> = Vec::new();
    let mut i: usize = start;
    while i < end
        invariant
            start <= i <= end <= buf.len(),
            out@ == buf@.subrange(start as int, i as int),
        decreases end - i,
    {
        out.push(buf[i]);
        i = i + 1;
        assert(out@ =~= buf@.subrange(start as int, i as int));
    }
    out
}

/// Reads `n` raw bytes at `pos`.
pub fn read_run(buf: &[u8], pos: usize, n: u64) -> (r: Result<(Vec<u8>, usize), KafkaError>)
    ensures
        parsed_as(r, parse_run(buf@, pos as int, n as nat)),
{
    if pos > buf.len() || (n as u128) > ((buf.len() - pos) as u128) {
        return Err(KafkaError::Truncated);
    }
    let end: usize = pos + n as usize;
    let v = copy_range(buf, pos, end);
    Ok((v, end))
}

/// Appends `b` behind its length in the convention `k`.
pub fn write_bytes(k: LenKind, b: &[u8], out: &mut Vec<u8>)
    requires
        len_writable(k, b@.len()),
    ensures
        final(out)@ == old(out)@ + bytes_wire(k, b@),
{
    write_len(k, Some(b.len()), out);
    write_raw(b, out);
    assert(out@ =~= old(out)@ + bytes_wire(k, b@));
}

/// Appends `b`, or null, in the convention `k`.
pub fn write_nullable_bytes(k: LenKind, b: &Option<Vec<u8>>, out: &mut Vec<u8>)
    requires
        b matches Some(x) ==> len_writable(k, x@.len()),
    ensures
        final(out)@ == old(out)@ + nullable_bytes_wire(k, opt_bytes_view(b)),
{
    match b {
        Some(x) => write_bytes(k, x.as_slice(), out),
        None => write_len(k, None, out),
    }
}

/// The view of an optional byte vector.
pub open spec fn opt_bytes_view(b: &Option<Vec<u8>>) -> Option<Seq<u8>> {
    match b {
        Some(x) => Some(x@),
        None => None,
    }
}

/// The number of bytes `write_bytes` writes.
pub fn bytes_size(k: LenKind, b: &[u8]) -> (r: usize)
    requires
        len_writable(k, b@.len()),
        bytes_wire(k, b@).len() <= usize::MAX,
    ensures
        r == bytes_wire(k, b@).len(),
{
    len_size(k, Some(b.len())) + b.len()
}

/// The number of bytes `write_nullable_bytes` writes.
pub fn nullable_bytes_size(k: LenKind, b: &Option<Vec<u8>>) -> (r: usize)
    requires
        b matches Some(x) ==> len_writable(k, x@.len()),
        nullable_bytes_wire(k, opt_bytes_view(b)).len() <= usize::MAX,
    ensures
        r == nullable_bytes_wire(k, opt_bytes_view(b)).len(),
{
    match b {
        Some(x) => bytes_size(k, x.as_slice()),
        None => len_size(k, None),
    }
}

/// Reads a byte string that cannot be null; null is a protocol violation.
pub fn read_bytes(k: LenKind, buf: &[u8], pos: usize) -> (r: Result<(Vec<u8>, usize), KafkaError>)
    ensures
        parsed_as(r, parse_bytes(k, buf@, pos as int)),
{
    match read_len(k, buf, pos) {
        Ok((None, _)) => Err(KafkaError::ProtocolViolation),
        Ok((Some(n), p)) => read_run(buf, p, n),
        Err(e) => Err(e),
    }
}

/// Reads a byte string that may be null.
pub fn read_nullable_bytes(k: LenKind, buf: &[u8], pos: usize) -> (r: Result<
    (Option<Vec<u8>>, usize),
    KafkaError,
>)
    ensures
        match r {
            Ok((v, end)) => parse_nullable_bytes(k, buf@, pos as int) == Ok::<
                (Option<Seq<u8>>, int),
                KafkaError,
            >((opt_bytes_view(&v), end as int)),
            Err(e) => parse_nullable_bytes(k, buf@, pos as int) == Err::<
                (Option<Seq<u8>>, int),
                KafkaError,
            >(e),
        },
{
    match read_len(k, buf, pos) {
        Ok((None, p)) => Ok((None, p)),
        Ok((Some(n), p)) => match read_run(buf, p, n) {
            Ok((v, e)) => Ok((Some(v), e)),
            Err(e) => Err(e),
        },
        Err(e) => Err(e),
    }
}

/// Kafka's STRING: bytes behind a big-endian `i16` length, never null.
#[derive(Debug, Clone, PartialEq, Eq)]
pub struct KafkaString {
    pub bytes: Vec<u8>,
}

impl View for KafkaString {
    type V = Seq<u8>;

    open spec fn view(&self) -> Seq<u8> {
        self.bytes@
    }
}

impl KafkaString {
    pub fn new(bytes: Vec<u8>) -> (r: KafkaString)
        ensures
            r@ == bytes@,
    {
        KafkaString { bytes }
    }
}

impl Encode for KafkaString {
    open spec fn writable(v: Seq<u8>) -> bool {
        len_writable(LenKind::I16, v.len())
    }

    open spec fn wire(v: Seq<u8>) -> Seq<u8> {
        bytes_wire(LenKind::I16, v)
    }

    fn byte_size(&self) -> (r: usize) {
        bytes_size(LenKind::I16, self.bytes.as_slice())
    }

    fn encode(&self, out: &mut Vec<u8>) {
        write_bytes(LenKind::I16, self.bytes.as_slice(), out);
    }
}

impl Codec for KafkaString {
    open spec fn valid(v: Seq<u8>) -> bool {
        len_fits(LenKind::I16, v.len())
    }

    open spec fn parse(s: Seq<u8>, i: int) -> Result<(Seq<u8>, int), KafkaError> {
        parse_bytes(LenKind::I16, s, i)
    }

    proof fn lemma_round_trip(v: Seq<u8>, s: Seq<u8>, i: int) {
        lemma_bytes_round_trip(LenKind::I16, v, s, i);
    }

    fn decode(buf: &[u8], pos: usize) -> (r: Result<(KafkaString, usize), KafkaError>) {
        match read_bytes(LenKind::I16, buf, pos) {
            Ok((bytes, p)) => Ok((KafkaString { bytes }, p)),
            Err(e) => Err(e),
        }
    }
}

} // verus!

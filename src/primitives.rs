//! Fixed-width big-endian integers, booleans and UUIDs.
use vstd::prelude::*;

use crate::error::KafkaError;

verus! {

/// The two bytes of `x`, most significant first.
pub open spec fn be16(x: u16) -> Seq<u8> {
    seq![((x >> 8) & 0xff) as u8, (x & 0xff) as u8]
}

/// The four bytes of `x`, most significant first.
pub open spec fn be32(x: u32) -> Seq<u8> {
    seq![
        ((x >> 24) & 0xff) as u8,
        ((x >> 16) & 0xff) as u8,
        ((x >> 8) & 0xff) as u8,
        (x & 0xff) as u8,
    ]
}

/// The eight bytes of `x`, most significant first.
pub open spec fn be64(x: u64) -> Seq<u8> {
    be32((x >> 32) as u32) + be32((x & 0xffff_ffff) as u32)
}

/// The sixteen bytes of `x`, most significant first.
pub open spec fn be128(x: u128) -> Seq<u8> {
    be64((x >> 64) as u64) + be64((x & 0xffff_ffff_ffff_ffff) as u64)
}

/// The number whose big-endian bytes are `s[i]` and `s[i + 1]`.
pub open spec fn from_be16(s: Seq<u8>, i: int) -> u16 {
    ((s[i] as u16) << 8) | (s[i + 1] as u16)
}

/// The number whose big-endian bytes are `s[i..i + 4]`.
pub open spec fn from_be32(s: Seq<u8>, i: int) -> u32 {
    ((s[i] as u32) << 24) | ((s[i + 1] as u32) << 16) | ((s[i + 2] as u32) << 8) | (s[i
        + 3] as u32)
}

/// The number whose big-endian bytes are `s[i..i + 8]`.
pub open spec fn from_be64(s: Seq<u8>, i: int) -> u64 {
    ((from_be32(s, i) as u64) << 32) | (from_be32(s, i + 4) as u64)
}

/// The number whose big-endian bytes are `s[i..i + 16]`.
pub open spec fn from_be128(s: Seq<u8>, i: int) -> u128 {
    ((from_be64(s, i) as u128) << 64) | (from_be64(s, i + 8) as u128)
}

/// Whether `s` holds `n` bytes from position `i` on.
pub open spec fn has(s: Seq<u8>, i: int, n: int) -> bool {
    0 <= i && i + n <= s.len()
}

pub open spec fn parse_u8(s: Seq<u8>, i: int) -> Result<(u8, int), KafkaError> {
    if has(s, i, 1) {
        Ok((s[i], i + 1))
    } else {
        Err(KafkaError::Truncated)
    }
}

pub open spec fn parse_u16(s: Seq<u8>, i: int) -> Result<(u16, int), KafkaError> {
    if has(s, i, 2) {
        Ok((from_be16(s, i), i + 2))
    } else {
        Err(KafkaError::Truncated)
    }
}

pub open spec fn parse_u32(s: Seq<u8>, i: int) -> Result<(u32, int), KafkaError> {
    if has(s, i, 4) {
        Ok((from_be32(s, i), i + 4))
    } else {
        Err(KafkaError::Truncated)
    }
}

pub open spec fn parse_u64(s: Seq<u8>, i: int) -> Result<(u64, int), KafkaError> {
    if has(s, i, 8) {
        Ok((from_be64(s, i), i + 8))
    } else {
        Err(KafkaError::Truncated)
    }
}

pub open spec fn parse_u128(s: Seq<u8>, i: int) -> Result<(u128, int), KafkaError> {
    if has(s, i, 16) {
        Ok((from_be128(s, i), i + 16))
    } else {
        Err(KafkaError::Truncated)
    }
}

proof fn lemma_be16_bytes(x: u16)
    ensures
        ((((((x >> 8) & 0xff) as u8) as u16) << 8) | (((x & 0xff) as u8) as u16)) == x,
{
    assert(((((((x >> 8) & 0xff) as u8) as u16) << 8) | (((x & 0xff) as u8) as u16)) == x)
        by (bit_vector);
}

proof fn lemma_be32_bytes(x: u32)
    ensures
        ((((((x >> 24) & 0xff) as u8) as u32) << 24) | (((((x >> 16) & 0xff) as u8) as u32)
            << 16) | (((((x >> 8) & 0xff) as u8) as u32) << 8) | (((x & 0xff) as u8) as u32))
            == x,
{
    assert(((((((x >> 24) & 0xff) as u8) as u32) << 24) | (((((x >> 16) & 0xff) as u8) as u32)
        << 16) | (((((x >> 8) & 0xff) as u8) as u32) << 8) | (((x & 0xff) as u8) as u32)) == x)
        by (bit_vector);
}

proof fn lemma_join64(x: u64)
    ensures
        ((((x >> 32) as u32) as u64) << 32) | (((x & 0xffff_ffff) as u32) as u64) == x,
{
    assert(((((x >> 32) as u32) as u64) << 32) | (((x & 0xffff_ffff) as u32) as u64) == x)
        by (bit_vector);
}

proof fn lemma_join128(x: u128)
    ensures
        ((((x >> 64) as u64) as u128) << 64) | (((x & 0xffff_ffff_ffff_ffff) as u64) as u128)
            == x,
{
    assert(((((x >> 64) as u64) as u128) << 64) | (((x & 0xffff_ffff_ffff_ffff) as u64)
        as u128) == x) by (bit_vector);
}

/// Whether `s` holds `w` at position `i`.
pub open spec fn holds_at(s: Seq<u8>, i: int, w: Seq<u8>) -> bool {
    0 <= i && i + w.len() <= s.len() && s.subrange(i, i + w.len()) == w
}

/// If `s` holds `a + b` at `i`, it holds `a` at `i` and `b` right after it.
pub proof fn lemma_holds_split(s: Seq<u8>, i: int, a: Seq<u8>, b: Seq<u8>)
    requires
        holds_at(s, i, a + b),
    ensures
        holds_at(s, i, a),
        holds_at(s, i + a.len(), b),
{
    assert(s.subrange(i, i + a.len()) =~= a) by {
        assert forall|k: int| 0 <= k < a.len() implies s.subrange(i, i + a.len())[k] == a[k] by {
            assert(s.subrange(i, i + (a + b).len())[k] == (a + b)[k]);
        }
    }
    assert(s.subrange(i + a.len(), i + a.len() + b.len()) =~= b) by {
        assert forall|k: int| 0 <= k < b.len() implies s.subrange(
            i + a.len(),
            i + a.len() + b.len(),
        )[k] == b[k] by {
            assert(s.subrange(i, i + (a + b).len())[a.len() + k] == (a + b)[a.len() + k]);
        }
    }
}

/// Concatenation is associative.
pub proof fn lemma_concat_assoc(a: Seq<u8>, b: Seq<u8>, c: Seq<u8>)
    ensures
        (a + b) + c == a + (b + c),
{
    assert((a + b) + c =~= a + (b + c));
}

/// If `s` holds `w` at `i`, the bytes of `s` from `i` are those of `w`.
pub proof fn lemma_holds_index(s: Seq<u8>, i: int, w: Seq<u8>)
    requires
        holds_at(s, i, w),
    ensures
        forall|k: int| 0 <= k < w.len() ==> s[i + k] == #[trigger] w[k],
{
    assert forall|k: int| 0 <= k < w.len() implies s[i + k] == #[trigger] w[k] by {
        assert(s.subrange(i, i + w.len())[k] == s[i + k]);
    }
}

pub proof fn lemma_u16_round_trip(x: u16, s: Seq<u8>, i: int)
    requires
        holds_at(s, i, be16(x)),
    ensures
        parse_u16(s, i) == Ok::<(u16, int), KafkaError>((x, i + 2)),
{
    lemma_holds_index(s, i, be16(x));
    assert(s[i] == be16(x)[0] && s[i + 1] == be16(x)[1]);
    lemma_be16_bytes(x);
}

pub proof fn lemma_u32_round_trip(x: u32, s: Seq<u8>, i: int)
    requires
        holds_at(s, i, be32(x)),
    ensures
        parse_u32(s, i) == Ok::<(u32, int), KafkaError>((x, i + 4)),
{
    lemma_holds_index(s, i, be32(x));
    assert(s[i] == be32(x)[0] && s[i + 1] == be32(x)[1] && s[i + 2] == be32(x)[2] && s[i + 3]
        == be32(x)[3]);
    lemma_be32_bytes(x);
}

proof fn lemma_from_be32_at(x: u32, s: Seq<u8>, i: int)
    requires
        holds_at(s, i, be32(x)),
    ensures
        from_be32(s, i) == x,
{
    lemma_u32_round_trip(x, s, i);
}

pub proof fn lemma_u64_round_trip(x: u64, s: Seq<u8>, i: int)
    requires
        holds_at(s, i, be64(x)),
    ensures
        parse_u64(s, i) == Ok::<(u64, int), KafkaError>((x, i + 8)),
{
    lemma_holds_split(s, i, be32((x >> 32) as u32), be32((x & 0xffff_ffff) as u32));
    lemma_from_be32_at((x >> 32) as u32, s, i);
    lemma_from_be32_at((x & 0xffff_ffff) as u32, s, i + 4);
    lemma_join64(x);
}

proof fn lemma_from_be64_at(x: u64, s: Seq<u8>, i: int)
    requires
        holds_at(s, i, be64(x)),
    ensures
        from_be64(s, i) == x,
{
    lemma_u64_round_trip(x, s, i);
}

pub proof fn lemma_u128_round_trip(x: u128, s: Seq<u8>, i: int)
    requires
        holds_at(s, i, be128(x)),
    ensures
        parse_u128(s, i) == Ok::<(u128, int), KafkaError>((x, i + 16)),
{
    lemma_holds_split(s, i, be64((x >> 64) as u64), be64((x & 0xffff_ffff_ffff_ffff) as u64));
    lemma_from_be64_at((x >> 64) as u64, s, i);
    lemma_from_be64_at((x & 0xffff_ffff_ffff_ffff) as u64, s, i + 8);
    lemma_join128(x);
}

pub proof fn lemma_u8_round_trip(x: u8, s: Seq<u8>, i: int)
    requires
        holds_at(s, i, seq![x]),
    ensures
        parse_u8(s, i) == Ok::<(u8, int), KafkaError>((x, i + 1)),
{
    lemma_holds_index(s, i, seq![x]);
    assert(seq![x][0] == x);
}

/// Appends the big-endian bytes of `x`.
pub fn write_u16(x: u16, out: &mut Vec<u8>)
    ensures
        final(out)@ == old(out)@ + be16(x),
{
    out.push(((x >> 8) & 0xff) as u8);
    out.push((x & 0xff) as u8);
}

/// Appends the big-endian bytes of `x`.
pub fn write_u32(x: u32, out: &mut Vec<u8>)
    ensures
        final(out)@ == old(out)@ + be32(x),
{
    out.push(((x >> 24) & 0xff) as u8);
    out.push(((x >> 16) & 0xff) as u8);
    out.push(((x >> 8) & 0xff) as u8);
    out.push((x & 0xff) as u8);
}

/// Appends the big-endian bytes of `x`.
pub fn write_u64(x: u64, out: &mut Vec<u8>)
    ensures
        final(out)@ == old(out)@ + be64(x),
{
    write_u32((x >> 32) as u32, out);
    write_u32((x & 0xffff_ffff) as u32, out);
}

/// Appends the big-endian bytes of `x`.
pub fn write_u128(x: u128, out: &mut Vec<u8>)
    ensures
        final(out)@ == old(out)@ + be128(x),
{
    write_u64((x >> 64) as u64, out);
    write_u64((x & 0xffff_ffff_ffff_ffff) as u64, out);
}

/// Reads one byte at `pos`.
pub fn read_u8(buf: &[u8], pos: usize) -> (r: Result<(u8, usize), KafkaError>)
    ensures
        match r {
            Ok((v, end)) => parse_u8(buf@, pos as int) == Ok::<(u8, int), KafkaError>(
                (v, end as int),
            ),
            Err(e) => parse_u8(buf@, pos as int) == Err::<(u8, int), KafkaError>(e),
        },
{
    if pos >= buf.len() {
        return Err(KafkaError::Truncated);
    }
    Ok((buf[pos], pos + 1))
}

/// Reads a big-endian `u16` at `pos`.
pub fn read_u16(buf: &[u8], pos: usize) -> (r: Result<(u16, usize), KafkaError>)
    ensures
        match r {
            Ok((v, end)) => parse_u16(buf@, pos as int) == Ok::<(u16, int), KafkaError>(
                (v, end as int),
            ),
            Err(e) => parse_u16(buf@, pos as int) == Err::<(u16, int), KafkaError>(e),
        },
{
    if pos > buf.len() || buf.len() - pos < 2 {
        return Err(KafkaError::Truncated);
    }
    let v: u16 = ((buf[pos] as u16) << 8) | (buf[pos + 1] as u16);
    Ok((v, pos + 2))
}

/// Reads a big-endian `u32` at `pos`.
pub fn read_u32(buf: &[u8], pos: usize) -> (r: Result<(u32, usize), KafkaError>)
    ensures
        match r {
            Ok((v, end)) => parse_u32(buf@, pos as int) == Ok::<(u32, int), KafkaError>(
                (v, end as int),
            ),
            Err(e) => parse_u32(buf@, pos as int) == Err::<(u32, int), KafkaError>(e),
        },
{
    if pos > buf.len() || buf.len() - pos < 4 {
        return Err(KafkaError::Truncated);
    }
    let v: u32 = ((buf[pos] as u32) << 24) | ((buf[pos + 1] as u32) << 16) | ((buf[pos + 2]
        as u32) << 8) | (buf[pos + 3] as u32);
    Ok((v, pos + 4))
}

/// Reads a big-endian `u64` at `pos`.
pub fn read_u64(buf: &[u8], pos: usize) -> (r: Result<(u64, usize), KafkaError>)
    ensures
        match r {
            Ok((v, end)) => parse_u64(buf@, pos as int) == Ok::<(u64, int), KafkaError>(
                (v, end as int),
            ),
            Err(e) => parse_u64(buf@, pos as int) == Err::<(u64, int), KafkaError>(e),
        },
{
    if pos > buf.len() || buf.len() - pos < 8 {
        return Err(KafkaError::Truncated);
    }
    let (hi, p) = match read_u32(buf, pos) {
        Ok(x) => x,
        Err(e) => return Err(e),
    };
    let (lo, p) = match read_u32(buf, p) {
        Ok(x) => x,
        Err(e) => return Err(e),
    };
    Ok((((hi as u64) << 32) | (lo as u64), p))
}

/// Reads a big-endian `u128` at `pos`.
pub fn read_u128(buf: &[u8], pos: usize) -> (r: Result<(u128, usize), KafkaError>)
    ensures
        match r {
            Ok((v, end)) => parse_u128(buf@, pos as int) == Ok::<(u128, int), KafkaError>(
                (v, end as int),
            ),
            Err(e) => parse_u128(buf@, pos as int) == Err::<(u128, int), KafkaError>(e),
        },
{
    if pos > buf.len() || buf.len() - pos < 16 {
        return Err(KafkaError::Truncated);
    }
    let (hi, p) = match read_u64(buf, pos) {
        Ok(x) => x,
        Err(e) => return Err(e),
    };
    let (lo, p) = match read_u64(buf, p) {
        Ok(x) => x,
        Err(e) => return Err(e),
    };
    Ok((((hi as u128) << 64) | (lo as u128), p))
}

/// A UUID: sixteen raw bytes on the wire, held here as one big-endian number.
/// The zero UUID stands for "unknown".
#[derive(Debug, Clone, Copy, PartialEq, Eq, Structural)]
pub struct Uuid {
    pub value: u128,
}

impl Uuid {
    /// The UUID whose sixteen bytes, read big-endian, are `value`.
    pub fn new(value: u128) -> (r: Uuid)
        ensures
            r.value == value,
    {
        Uuid { value }
    }

    /// The zero UUID, which stands for "unknown".
    pub fn nil() -> (r: Uuid)
        ensures
            r.value == 0,
    {
        Uuid { value: 0 }
    }
}

} // verus!

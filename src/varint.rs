//! Unsigned varints (7-bit groups, least significant first, high bit as
//! continuation) and the zig-zag mapping used for signed varints.
use vstd::prelude::*;

use crate::error::KafkaError;

verus! {

/// The largest number of bytes a `u64` varint may take.
pub const MAX_VARINT_BYTES_U64: usize = 10;

/// The largest number of bytes a `u32` varint may take.
pub const MAX_VARINT_BYTES_U32: usize = 5;

/// `128` raised to the power `k`.
pub open spec fn pow128(k: nat) -> nat
    decreases k,
{
    if k == 0 {
        1
    } else {
        128 * pow128((k - 1) as nat)
    }
}

/// The varint encoding of `n`.
pub open spec fn uvarint_wire(n: nat) -> Seq<u8>
    decreases n,
{
    if n < 128 {
        seq![n as u8]
    } else {
        seq![(n % 128 + 128) as u8] + uvarint_wire(n / 128)
    }
}

/// Reads a varint at position `i` of `s`, with at most `budget` bytes left to
/// read, adding each 7-bit group times `mul` to `acc`. On success, gives the
/// value and the position just after the last byte.
pub open spec fn uvarint_scan(s: Seq<u8>, i: int, budget: nat, acc: nat, mul: nat) -> Result<
    (nat, int),
    KafkaError,
>
    decreases budget,
{
    if budget == 0 {
        Err(KafkaError::MalformedVarint)
    } else if i < 0 || i >= s.len() {
        Err(KafkaError::Truncated)
    } else if s[i] < 128 {
        Ok(((acc + s[i] * mul) as nat, i + 1))
    } else {
        uvarint_scan(s, i + 1, (budget - 1) as nat, (acc + (s[i] - 128) * mul) as nat, mul * 128)
    }
}

/// Reads a varint of at most `budget` bytes at position `i` whose value must not
/// exceed `max`.
pub open spec fn parse_uvarint(s: Seq<u8>, i: int, budget: nat, max: nat) -> Result<
    (nat, int),
    KafkaError,
> {
    match uvarint_scan(s, i, budget, 0, 1) {
        Ok((v, j)) => if v <= max {
            Ok((v, j))
        } else {
            Err(KafkaError::MalformedVarint)
        },
        Err(e) => Err(e),
    }
}

/// Reads a `u64` varint at position `i`.
pub open spec fn parse_uvarint64(s: Seq<u8>, i: int) -> Result<(u64, int), KafkaError> {
    match parse_uvarint(s, i, 10, u64::MAX as nat) {
        Ok((v, j)) => Ok((v as u64, j)),
        Err(e) => Err(e),
    }
}

/// Reads a `u32` varint at position `i`.
pub open spec fn parse_uvarint32(s: Seq<u8>, i: int) -> Result<(u32, int), KafkaError> {
    match parse_uvarint(s, i, 5, u32::MAX as nat) {
        Ok((v, j)) => Ok((v as u32, j)),
        Err(e) => Err(e),
    }
}

/// The zig-zag image of an `i32`: `0, -1, 1, -2, ...` become `0, 1, 2, 3, ...`.
pub open spec fn zigzag32(v: i32) -> u32 {
    if v >= 0 {
        (2 * v) as u32
    } else {
        (-2 * v - 1) as u32
    }
}

/// The inverse of [`zigzag32`].
pub open spec fn unzigzag32(u: u32) -> i32 {
    if u % 2 == 0 {
        (u / 2) as i32
    } else {
        (-((u / 2) as int) - 1) as i32
    }
}

/// The zig-zag image of an `i64`.
pub open spec fn zigzag64(v: i64) -> u64 {
    if v >= 0 {
        (2 * v) as u64
    } else {
        (-2 * v - 1) as u64
    }
}

/// The inverse of [`zigzag64`].
pub open spec fn unzigzag64(u: u64) -> i64 {
    if u % 2 == 0 {
        (u / 2) as i64
    } else {
        (-((u / 2) as int) - 1) as i64
    }
}

/// The wire form of a signed 32-bit varint.
pub open spec fn varint_wire(v: i32) -> Seq<u8> {
    uvarint_wire(zigzag32(v) as nat)
}

/// The wire form of a signed 64-bit varint.
pub open spec fn varlong_wire(v: i64) -> Seq<u8> {
    uvarint_wire(zigzag64(v) as nat)
}

/// Reads a signed 32-bit varint at position `i`.
pub open spec fn parse_varint(s: Seq<u8>, i: int) -> Result<(i32, int), KafkaError> {
    match parse_uvarint32(s, i) {
        Ok((u, j)) => Ok((unzigzag32(u), j)),
        Err(e) => Err(e),
    }
}

/// Reads a signed 64-bit varint at position `i`.
pub open spec fn parse_varlong(s: Seq<u8>, i: int) -> Result<(i64, int), KafkaError> {
    match parse_uvarint64(s, i) {
        Ok((u, j)) => Ok((unzigzag64(u), j)),
        Err(e) => Err(e),
    }
}

proof fn lemma_pow128_mono(a: nat, b: nat)
    requires
        a <= b,
    ensures
        pow128(a) <= pow128(b),
    decreases b,
{
    if a < b {
        lemma_pow128_mono(a, (b - 1) as nat);
    }
}

proof fn lemma_pow128_at_most_8(k: nat)
    requires
        k <= 8,
    ensures
        pow128(k) <= 0x100_0000_0000_0000,
{
    assert(pow128(8) == 0x100_0000_0000_0000) by {
        reveal_with_fuel(pow128, 9);
    }
    lemma_pow128_mono(k, 8);
}

/// Scanning the encoding of `n` adds `n * mul` to the accumulator and stops
/// right after the encoding.
proof fn lemma_scan_wire(n: nat, s: Seq<u8>, i: int, budget: nat, acc: nat, mul: nat)
    requires
        0 <= i,
        i + uvarint_wire(n).len() <= s.len(),
        s.subrange(i, i + uvarint_wire(n).len()) == uvarint_wire(n),
        uvarint_wire(n).len() <= budget,
    ensures
        uvarint_scan(s, i, budget, acc, mul) == Ok::<(nat, int), KafkaError>(
            (acc + n * mul, i + uvarint_wire(n).len()),
        ),
    decreases n,
{
    let w = uvarint_wire(n);
    assert(s[i] == w[0]) by {
        assert(s.subrange(i, i + w.len())[0] == s[i]);
    }
    if n >= 128 {
        let rest = uvarint_wire(n / 128);
        assert(w == seq![(n % 128 + 128) as u8] + rest);
        assert(s.subrange(i + 1, i + 1 + rest.len()) == rest) by {
            assert forall|k: int| 0 <= k < rest.len() implies s.subrange(
                i + 1,
                i + 1 + rest.len(),
            )[k] == rest[k] by {
                assert(s.subrange(i, i + w.len())[k + 1] == w[k + 1]);
            }
        }
        lemma_scan_wire(n / 128, s, i + 1, (budget - 1) as nat, acc + (n % 128) * mul, mul * 128);
        assert((acc + (n % 128) * mul) + (n / 128) * (mul * 128) == acc + n * mul) by (nonlinear_arith)
            requires
                n == 128 * (n / 128) + n % 128,
        ;
    }
}

/// The encoding of `n` takes at most `k` bytes when `n < 128^k`.
proof fn lemma_wire_len(n: nat, k: nat)
    requires
        k >= 1,
        n < pow128(k),
    ensures
        uvarint_wire(n).len() <= k,
    decreases n,
{
    if n >= 128 {
        if k == 1 {
            assert(pow128(1) == 128) by {
                reveal_with_fuel(pow128, 2);
            }
        } else {
            assert(n / 128 < pow128((k - 1) as nat)) by (nonlinear_arith)
                requires
                    n < 128 * pow128((k - 1) as nat),
            ;
            lemma_wire_len(n / 128, (k - 1) as nat);
        }
    }
}

/// A `u64` varint takes at most ten bytes.
pub proof fn lemma_uvarint64_len(n: u64)
    ensures
        1 <= uvarint_wire(n as nat).len() <= 10,
{
    assert(pow128(10) == 0x40_0000_0000_0000_0000) by {
        reveal_with_fuel(pow128, 11);
    }
    lemma_wire_len(n as nat, 10);
    assert(uvarint_wire(n as nat).len() >= 1) by {
        reveal_with_fuel(uvarint_wire, 2);
    }
}

/// A `u32` varint takes at most five bytes.
pub proof fn lemma_uvarint32_len(n: u32)
    ensures
        1 <= uvarint_wire(n as nat).len() <= 5,
{
    assert(pow128(5) == 0x8_0000_0000) by {
        reveal_with_fuel(pow128, 6);
    }
    lemma_wire_len(n as nat, 5);
    assert(uvarint_wire(n as nat).len() >= 1) by {
        reveal_with_fuel(uvarint_wire, 2);
    }
}

/// Decoding the varint encoding of any `u64`, wherever it stands, gives the
/// value back and stops right after it.
pub proof fn lemma_uvarint64_round_trip(n: u64, s: Seq<u8>, i: int)
    requires
        0 <= i,
        i + uvarint_wire(n as nat).len() <= s.len(),
        s.subrange(i, i + uvarint_wire(n as nat).len()) == uvarint_wire(n as nat),
    ensures
        parse_uvarint64(s, i) == Ok::<(u64, int), KafkaError>(
            (n, i + uvarint_wire(n as nat).len()),
        ),
{
    lemma_uvarint64_len(n);
    lemma_scan_wire(n as nat, s, i, 10, 0, 1);
}

/// Decoding the varint encoding of any `u32` gives the value back.
pub proof fn lemma_uvarint32_round_trip(n: u32, s: Seq<u8>, i: int)
    requires
        0 <= i,
        i + uvarint_wire(n as nat).len() <= s.len(),
        s.subrange(i, i + uvarint_wire(n as nat).len()) == uvarint_wire(n as nat),
    ensures
        parse_uvarint32(s, i) == Ok::<(u32, int), KafkaError>(
            (n, i + uvarint_wire(n as nat).len()),
        ),
{
    lemma_uvarint32_len(n);
    lemma_scan_wire(n as nat, s, i, 5, 0, 1);
}

/// Zig-zag decoding undoes zig-zag encoding, and the low bit of the encoded
/// value is the sign.
pub proof fn lemma_zigzag32(v: i32)
    ensures
        unzigzag32(zigzag32(v)) == v,
        (zigzag32(v) % 2 == 0) == (v >= 0),
{
}

/// Zig-zag decoding undoes zig-zag encoding for 64-bit values.
pub proof fn lemma_zigzag64(v: i64)
    ensures
        unzigzag64(zigzag64(v)) == v,
        (zigzag64(v) % 2 == 0) == (v >= 0),
{
}

/// Decoding a signed 32-bit varint gives back the encoded value.
pub proof fn lemma_varint_round_trip(v: i32, s: Seq<u8>, i: int)
    requires
        0 <= i,
        i + varint_wire(v).len() <= s.len(),
        s.subrange(i, i + varint_wire(v).len()) == varint_wire(v),
    ensures
        parse_varint(s, i) == Ok::<(i32, int), KafkaError>((v, i + varint_wire(v).len())),
{
    lemma_uvarint32_round_trip(zigzag32(v), s, i);
    lemma_zigzag32(v);
}

/// Decoding a signed 64-bit varint gives back the encoded value.
pub proof fn lemma_varlong_round_trip(v: i64, s: Seq<u8>, i: int)
    requires
        0 <= i,
        i + varlong_wire(v).len() <= s.len(),
        s.subrange(i, i + varlong_wire(v).len()) == varlong_wire(v),
    ensures
        parse_varlong(s, i) == Ok::<(i64, int), KafkaError>((v, i + varlong_wire(v).len())),
{
    lemma_uvarint64_round_trip(zigzag64(v), s, i);
    lemma_zigzag64(v);
}

/// Appends the varint encoding of `v` to `out`.
pub fn write_uvarint(v: u64, out: &mut Vec<u8>)
    ensures
        final(out)@ == old(out)@ + uvarint_wire(v as nat),
{
    let mut n: u64 = v;
    while n >= 128
        invariant
            old(out)@ + uvarint_wire(v as nat) == out@ + uvarint_wire(n as nat),
        decreases n,
    {
        let ghost before = out@;
        out.push((n % 128 + 128) as u8);
        assert(uvarint_wire(n as nat) == seq![(n % 128 + 128) as u8] + uvarint_wire(
            (n / 128) as nat,
        ));
        assert(before + uvarint_wire(n as nat) == out@ + uvarint_wire((n / 128) as nat));
        n = n / 128;
    }
    out.push(n as u8);
}

/// The varint encoding of `v`.
pub fn encode_varint_u64(v: u64) -> (r: Vec<u8>)
    ensures
        r@ == uvarint_wire(v as nat),
        r@.len() <= MAX_VARINT_BYTES_U64,
{
    let mut out: Vec<u8> = Vec::new();
    write_uvarint(v, &mut out);
    assert(out@ == uvarint_wire(v as nat));
    proof {
        lemma_uvarint64_len(v);
    }
    out
}

/// The number of bytes in the varint encoding of `v`.
pub fn uvarint_size(v: u64) -> (r: usize)
    ensures
        r == uvarint_wire(v as nat).len(),
        1 <= r <= MAX_VARINT_BYTES_U64,
{
    proof {
        lemma_uvarint64_len(v);
    }
    let mut n: u64 = v;
    let mut size: usize = 1;
    while n >= 128
        invariant
            uvarint_wire(v as nat).len() == size - 1 + uvarint_wire(n as nat).len(),
            1 <= size,
            uvarint_wire(v as nat).len() <= 10,
            uvarint_wire(n as nat).len() >= 1,
        decreases n,
    {
        assert(uvarint_wire(n as nat) == seq![(n % 128 + 128) as u8] + uvarint_wire(
            (n / 128) as nat,
        ));
        proof {
            lemma_uvarint64_len(n / 128);
        }
        n = n / 128;
        size = size + 1;
    }
    size
}

/// Reads a varint of at most `budget` bytes at `pos`, whose value must not
/// exceed `max`, and gives it with the position after it.
pub fn read_uvarint(buf: &[u8], pos: usize, budget: usize, max: u64) -> (r: Result<
    (u64, usize),
    KafkaError,
>)
    requires
        1 <= budget <= 10,
    ensures
        match r {
            Ok((v, end)) => parse_uvarint(buf@, pos as int, budget as nat, max as nat) == Ok::<
                (nat, int),
                KafkaError,
            >((v as nat, end as int)),
            Err(e) => parse_uvarint(buf@, pos as int, budget as nat, max as nat) == Err::<
                (nat, int),
                KafkaError,
            >(e),
        },
{
    let mut i: usize = pos;
    let mut rem: usize = budget;
    let mut acc: u64 = 0;
    let mut mul: u64 = 1;
    let ghost k: nat = 0;
    while i < buf.len()
        invariant
            1 <= rem <= budget <= 10,
            k + rem == budget,
            mul == pow128(k),
            acc < mul,
            i == pos + k,
            uvarint_scan(buf@, pos as int, budget as nat, 0, 1) == uvarint_scan(
                buf@,
                i as int,
                rem as nat,
                acc as nat,
                mul as nat,
            ),
        decreases buf.len() - i,
    {
        let b: u8 = buf[i];
        if b < 128 {
            // The last byte: the value is acc + b * mul, which may exceed `max`.
            proof {
                if k <= 8 {
                    lemma_pow128_at_most_8(k);
                }
            }
            if budget - rem == 9 && b > 1 {
                proof {
                    assert(pow128(9) == 0x8000_0000_0000_0000) by {
                        reveal_with_fuel(pow128, 10);
                    }
                    assert(acc + b * mul > u64::MAX) by (nonlinear_arith)
                        requires
                            b >= 2,
                            mul == 0x8000_0000_0000_0000u64,
                    ;
                    assert(acc + b * mul > max);
                }
                return Err(KafkaError::MalformedVarint);
            }
            proof {
                if k == 9 {
                    assert(pow128(9) == 0x8000_0000_0000_0000) by {
                        reveal_with_fuel(pow128, 10);
                    }
                    assert(acc + b * mul <= u64::MAX) by (nonlinear_arith)
                        requires
                            b <= 1,
                            mul == 0x8000_0000_0000_0000u64,
                            acc < mul,
                    ;
                } else {
                    assert(k <= 8);
                    assert(acc + b * mul <= u64::MAX) by (nonlinear_arith)
                        requires
                            b < 128,
                            mul <= 0x100_0000_0000_0000u64,
                            acc < mul,
                    ;
                }
            }
            let v: u64 = acc + (b as u64) * mul;
            if v > max {
                return Err(KafkaError::MalformedVarint);
            }
            return Ok((v, i + 1));
        }
        if rem == 1 {
            proof {
                reveal_with_fuel(uvarint_scan, 2);
            }
            return Err(KafkaError::MalformedVarint);
        }
        proof {
            lemma_pow128_at_most_8(k);
            assert(acc + (b - 128) * mul < mul * 128) by (nonlinear_arith)
                requires
                    128 <= b < 256,
                    acc < mul,
            ;
        }
        acc = acc + ((b - 128) as u64) * mul;
        mul = mul * 128;
        rem = rem - 1;
        i = i + 1;
        proof {
            k = k + 1;
        }
    }
    Err(KafkaError::Truncated)
}

/// Reads a `u64` varint at `pos`.
pub fn read_uvarint64(buf: &[u8], pos: usize) -> (r: Result<(u64, usize), KafkaError>)
    ensures
        match r {
            Ok((v, end)) => parse_uvarint64(buf@, pos as int) == Ok::<(u64, int), KafkaError>(
                (v, end as int),
            ),
            Err(e) => parse_uvarint64(buf@, pos as int) == Err::<(u64, int), KafkaError>(e),
        },
{
    read_uvarint(buf, pos, MAX_VARINT_BYTES_U64, u64::MAX)
}

/// Reads a `u32` varint at `pos`.
pub fn read_uvarint32(buf: &[u8], pos: usize) -> (r: Result<(u32, usize), KafkaError>)
    ensures
        match r {
            Ok((v, end)) => parse_uvarint32(buf@, pos as int) == Ok::<(u32, int), KafkaError>(
                (v, end as int),
            ),
            Err(e) => parse_uvarint32(buf@, pos as int) == Err::<(u32, int), KafkaError>(e),
        },
{
    match read_uvarint(buf, pos, MAX_VARINT_BYTES_U32, u32::MAX as u64) {
        Ok((v, end)) => Ok((v as u32, end)),
        Err(e) => Err(e),
    }
}

/// Decodes the varint at the start of `bytes`.
pub fn decode_varint_u64(bytes: Vec<u8>) -> (r: Result<u64, KafkaError>)
    ensures
        match r {
            Ok(v) => parse_uvarint64(bytes@, 0) matches Ok((w, _)) && w == v,
            Err(e) => parse_uvarint64(bytes@, 0) == Err::<(u64, int), KafkaError>(e),
        },
{
    match read_uvarint64(bytes.as_slice(), 0) {
        Ok((v, _)) => Ok(v),
        Err(e) => Err(e),
    }
}

/// The zig-zag image of `v`.
pub fn zigzag_i32(v: i32) -> (r: u32)
    ensures
        r == zigzag32(v),
{
    if v >= 0 {
        (v as u32) * 2
    } else {
        {
            let w: i64 = -(v as i64);
            (w * 2 - 1) as u32
        }
    }
}

/// The value whose zig-zag image is `u`.
pub fn unzigzag_i32(u: u32) -> (r: i32)
    ensures
        r == unzigzag32(u),
{
    if u % 2 == 0 {
        (u / 2) as i32
    } else {
        (-((u / 2) as i64) - 1) as i32
    }
}

/// The zig-zag image of `v`.
pub fn zigzag_i64(v: i64) -> (r: u64)
    ensures
        r == zigzag64(v),
{
    if v >= 0 {
        (v as u64) * 2
    } else {
        {
            let w: i128 = -(v as i128);
            (w * 2 - 1) as u64
        }
    }
}

/// The value whose zig-zag image is `u`.
pub fn unzigzag_i64(u: u64) -> (r: i64)
    ensures
        r == unzigzag64(u),
{
    if u % 2 == 0 {
        (u / 2) as i64
    } else {
        (-((u / 2) as i128) - 1) as i64
    }
}

/// The signed varint encoding of `v`.
pub fn encode_varint_i32(v: i32) -> (r: Vec<u8>)
    ensures
        r@ == varint_wire(v),
        r@.len() <= MAX_VARINT_BYTES_U32,
        v >= 0 ==> r@[0] & 1 == 0,
        v < 0 ==> r@[0] & 1 == 1,
{
    let mut out: Vec<u8> = Vec::new();
    write_uvarint(zigzag_i32(v) as u64, &mut out);
    proof {
        lemma_varint_sign(v);
    }
    out
}

/// The low bit of the first byte of a signed varint is its sign.
pub proof fn lemma_varint_sign(v: i32)
    ensures
        varint_wire(v).len() <= 5,
        v >= 0 ==> varint_wire(v)[0] & 1 == 0,
        v < 0 ==> varint_wire(v)[0] & 1 == 1,
{
    let u = zigzag32(v);
    lemma_uvarint32_len(u);
    lemma_zigzag32(v);
    let b = varint_wire(v)[0];
    assert(b % 2 == u % 2) by {
        reveal_with_fuel(uvarint_wire, 2);
        if u >= 128 {
            assert(b == (u % 128 + 128) as u8);
        }
    }
    assert(b & 1 == b % 2) by (bit_vector);
}

/// Appends the signed varint encoding of `v` to `out`.
pub fn write_varint(v: i32, out: &mut Vec<u8>)
    ensures
        final(out)@ == old(out)@ + varint_wire(v),
{
    write_uvarint(zigzag_i32(v) as u64, out);
}

/// Appends the signed 64-bit varint encoding of `v` to `out`.
pub fn write_varlong(v: i64, out: &mut Vec<u8>)
    ensures
        final(out)@ == old(out)@ + varlong_wire(v),
{
    write_uvarint(zigzag_i64(v), out);
}

/// The number of bytes in the signed varint encoding of `v`.
pub fn varint_size(v: i32) -> (r: usize)
    ensures
        r == varint_wire(v).len(),
        1 <= r <= MAX_VARINT_BYTES_U32,
{
    proof {
        lemma_uvarint32_len(zigzag32(v));
    }
    uvarint_size(zigzag_i32(v) as u64)
}

/// The number of bytes in the signed 64-bit varint encoding of `v`.
pub fn varlong_size(v: i64) -> (r: usize)
    ensures
        r == varlong_wire(v).len(),
        1 <= r <= MAX_VARINT_BYTES_U64,
{
    uvarint_size(zigzag_i64(v))
}

/// Reads a signed 32-bit varint at `pos`.
pub fn read_varint(buf: &[u8], pos: usize) -> (r: Result<(i32, usize), KafkaError>)
    ensures
        match r {
            Ok((v, end)) => parse_varint(buf@, pos as int) == Ok::<(i32, int), KafkaError>(
                (v, end as int),
            ),
            Err(e) => parse_varint(buf@, pos as int) == Err::<(i32, int), KafkaError>(e),
        },
{
    match read_uvarint32(buf, pos) {
        Ok((u, end)) => Ok((unzigzag_i32(u), end)),
        Err(e) => Err(e),
    }
}

/// Reads a signed 64-bit varint at `pos`.
pub fn read_varlong(buf: &[u8], pos: usize) -> (r: Result<(i64, usize), KafkaError>)
    ensures
        match r {
            Ok((v, end)) => parse_varlong(buf@, pos as int) == Ok::<(i64, int), KafkaError>(
                (v, end as int),
            ),
            Err(e) => parse_varlong(buf@, pos as int) == Err::<(i64, int), KafkaError>(e),
        },
{
    match read_uvarint64(buf, pos) {
        Ok((u, end)) => Ok((unzigzag_i64(u), end)),
        Err(e) => Err(e),
    }
}

/// Decodes the signed varint at the start of `bytes`.
pub fn decode_varint_i32(bytes: Vec<u8>) -> (r: Result<i32, KafkaError>)
    ensures
        match r {
            Ok(v) => parse_varint(bytes@, 0) matches Ok((w, _)) && w == v,
            Err(e) => parse_varint(bytes@, 0) == Err::<(i32, int), KafkaError>(e),
        },
{
    match read_varint(bytes.as_slice(), 0) {
        Ok((v, _)) => Ok(v),
        Err(e) => Err(e),
    }
}

/// The 7-bit groups of the varint at position `i`, in order, and the
/// position after it, reading at most `budget` bytes: a varint still going
/// after that many is malformed, and the input may not end before it does.
pub open spec fn varint_groups(s: Seq<u8>, i: int, budget: nat) -> Result<(Seq<u8>, int), KafkaError>
    decreases budget,
{
    if budget == 0 {
        Err(KafkaError::MalformedVarint)
    } else if i < 0 || i >= s.len() {
        Err(KafkaError::Truncated)
    } else if s[i] < 128 {
        Ok((seq![s[i]], i + 1))
    } else {
        match varint_groups(s, i + 1, (budget - 1) as nat) {
            Ok((g, j)) => Ok((seq![(s[i] - 128) as u8] + g, j)),
            Err(e) => Err(e),
        }
    }
}

/// Reads the bytes of one varint at `pos`, each with its continuation bit
/// cleared, and gives them with the position after the varint. A varint
/// longer than ten bytes is malformed.
pub fn read_varint_bytes(buf: &[u8], pos: usize) -> (r: Result<(Vec<u8>, usize), KafkaError>)
    ensures
        match r {
            Ok((g, end)) => varint_groups(buf@, pos as int, 10) == Ok::<(Seq<u8>, int), KafkaError>(
                (g@, end as int),
            ),
            Err(e) => varint_groups(buf@, pos as int, 10) == Err::<(Seq<u8>, int), KafkaError>(e),
        },
{
    if pos >= buf.len() {
        return Err(KafkaError::Truncated);
    }
    let mut reader = LengthBytes::new(buf);
    reader.pos = pos;
    let mut groups: Vec<u8> = Vec::new();
    proof {
        match varint_groups(buf@, pos as int, 10) {
            Ok((g, j)) => assert(groups@ + g =~= g),
            Err(_) => {},
        }
    }
    while !reader.finished
        invariant
            reader.bytes@ == buf@,
            reader.taken <= MAX_VARINT_BYTES_U64,
            reader.pos == pos + reader.taken,
            !reader.finished ==> varint_groups(buf@, pos as int, 10) == match varint_groups(
                buf@,
                reader.pos as int,
                (10 - reader.taken) as nat,
            ) {
                Ok((g, j)) => Ok((groups@ + g, j)),
                Err(e) => Err::<(Seq<u8>, int), KafkaError>(e),
            },
            reader.finished ==> varint_groups(buf@, pos as int, 10) == Ok::<
                (Seq<u8>, int),
                KafkaError,
            >((groups@, reader.pos as int)),
        decreases 10 - reader.taken + if reader.finished {
            0int
        } else {
            1int
        },
    {
        let ghost p = reader.pos;
        let ghost t = reader.taken;
        match reader.next() {
            Some(Ok(b)) => {
                let ghost before = groups@;
                groups.push(b);
                proof {
                    let c = buf@[p as int];
                    if c < 128 {
                        assert(before + seq![c] =~= groups@);
                    } else {
                        match varint_groups(buf@, p + 1, (10 - t - 1) as nat) {
                            Ok((g, j)) => assert(before + (seq![(c - 128) as u8] + g) =~= groups@
                                + g),
                            Err(_) => {},
                        }
                    }
                }
            },
            Some(Err(e)) => return Err(e),
            None => {},
        }
    }
    Ok((groups, reader.pos))
}

/// Hands out, one call at a time, the bytes of the varint at the start of its
/// input, each with its continuation bit cleared; nothing after the last one.
/// A varint still going after ten bytes is malformed.
pub struct LengthBytes {
    bytes: Vec<u8>,
    pos: usize,
    taken: usize,
    finished: bool,
}

impl View for LengthBytes {
    /// The input, the position of the next byte, how many bytes were handed
    /// out, and whether the varint is over.
    type V = (Seq<u8>, nat, nat, bool);

    closed spec fn view(&self) -> (Seq<u8>, nat, nat, bool) {
        (self.bytes@, self.pos as nat, self.taken as nat, self.finished)
    }
}

impl LengthBytes {
    pub fn new(input: &[u8]) -> (r: LengthBytes)
        ensures
            r@ == (input@, 0nat, 0nat, false),
    {
        let mut bytes: Vec<u8> = Vec::new();
        let mut i: usize = 0;
        while i < input.len()
            invariant
                i <= input.len(),
                bytes@ == input@.take(i as int),
            decreases input.len() - i,
        {
            bytes.push(input[i]);
            i = i + 1;
            assert(bytes@ =~= input@.take(i as int));
        }
        assert(bytes@ =~= input@);
        LengthBytes { bytes, pos: 0, taken: 0, finished: false }
    }

    /// The next byte of the varint with its continuation bit cleared; an error
    /// if ten bytes were handed out already or the input ends first; `None`
    /// once the varint is over.
    pub fn next(&mut self) -> (r: Option<Result<u8, KafkaError>>)
        ensures
            ({
                let (s, p, n, done) = old(self)@;
                if done {
                    r is None && final(self)@ == old(self)@
                } else if n >= 10 {
                    r == Some(Err::<u8, KafkaError>(KafkaError::MalformedVarint)) && final(self)@
                        == (s, p, n, true)
                } else if p >= s.len() {
                    r == Some(Err::<u8, KafkaError>(KafkaError::Truncated)) && final(self)@ == (
                        s,
                        p,
                        n,
                        true,
                    )
                } else {
                    r == Some(Ok::<u8, KafkaError>((s[p as int] % 128) as u8)) && final(self)@ == (
                        s,
                        p + 1,
                        n + 1,
                        s[p as int] < 128,
                    )
                }
            }),
    {
        if self.finished {
            return None;
        }
        if self.taken >= MAX_VARINT_BYTES_U64 {
            self.finished = true;
            return Some(Err(KafkaError::MalformedVarint));
        }
        if self.pos >= self.bytes.len() {
            self.finished = true;
            return Some(Err(KafkaError::Truncated));
        }
        let b = self.bytes[self.pos];
        self.pos = self.pos + 1;
        self.taken = self.taken + 1;
        if b < 128 {
            self.finished = true;
        }
        assert(b & 0x7f == b % 128) by (bit_vector);
        Some(Ok(b & 0x7f))
    }
}

} // verus!

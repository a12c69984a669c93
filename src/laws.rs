//! What holds of every value the codec writes, every frame, and every varint.
use vstd::prelude::*;

use crate::array::{lemma_seq_round_trip, parse_seq, seq_valid, seq_wire};
use crate::codec::{
    len_fits, len_wire, lemma_nullable_bytes_round_trip, nullable_bytes_wire,
    parse_nullable_bytes, Codec, Encode, LenKind,
};
use crate::error::KafkaError;
use crate::primitives::holds_at;
use crate::varint::{
    lemma_uvarint64_len, lemma_uvarint64_round_trip, lemma_varint_round_trip, lemma_varint_sign,
    parse_uvarint64, parse_varint, uvarint_wire, varint_wire,
};

verus! {

proof fn lemma_holds_at_front(w: Seq<u8>, rest: Seq<u8>)
    ensures
        holds_at(w + rest, 0, w),
{
    assert((w + rest).subrange(0, w.len() as int) =~= w);
}

/// Decoding what was encoded gives the value back, whatever follows it: for
/// every valid value of every codec type.
pub proof fn lemma_decode_encode<T: Codec>(v: T::V, rest: Seq<u8>)
    requires
        T::valid(v),
    ensures
        T::parse(T::wire(v) + rest, 0) == Ok::<(T::V, int), KafkaError>(
            (v, T::wire(v).len() as int),
        ),
{
    lemma_holds_at_front(T::wire(v), rest);
    T::lemma_round_trip(v, T::wire(v) + rest, 0);
}

/// The same for nullable byte strings, in every length convention.
pub proof fn lemma_decode_encode_nullable_bytes(k: LenKind, b: Option<Seq<u8>>, rest: Seq<u8>)
    requires
        b matches Some(x) ==> len_fits(k, x.len()),
    ensures
        parse_nullable_bytes(k, nullable_bytes_wire(k, b) + rest, 0) == Ok::<
            (Option<Seq<u8>>, int),
            KafkaError,
        >((b, nullable_bytes_wire(k, b).len() as int)),
{
    lemma_holds_at_front(nullable_bytes_wire(k, b), rest);
    lemma_nullable_bytes_round_trip(k, b, nullable_bytes_wire(k, b) + rest, 0);
}

/// The same for nullable arrays of any codec type, in every length convention.
pub proof fn lemma_decode_encode_array<T: Codec>(k: LenKind, o: Option<Seq<T::V>>, rest: Seq<u8>)
    requires
        seq_valid::<T>(k, o),
    ensures
        parse_seq::<T>(k, seq_wire::<T>(k, o) + rest, 0) == Ok::<
            (Option<Seq<T::V>>, int),
            KafkaError,
        >((o, seq_wire::<T>(k, o).len() as int)),
{
    lemma_holds_at_front(seq_wire::<T>(k, o), rest);
    lemma_seq_round_trip::<T>(k, o, seq_wire::<T>(k, o) + rest, 0);
}

/// Null is written as the sentinel of its length convention: `-1` as a
/// big-endian `i16` or `i32`, `-1` as a signed varint (`0x01`), and `0` for
/// the compact conventions; nullable byte strings and arrays write just that.
pub proof fn lemma_null_sentinels<T: Encode>(k: LenKind)
    ensures
        len_wire(LenKind::I16, None) == seq![0xFFu8, 0xFFu8],
        len_wire(LenKind::I32, None) == seq![0xFFu8, 0xFFu8, 0xFFu8, 0xFFu8],
        len_wire(LenKind::Varint, None) == seq![0x01u8],
        len_wire(LenKind::Uvarint, None) == seq![0x00u8],
        nullable_bytes_wire(k, None) == len_wire(k, None),
        seq_wire::<T>(k, None) == len_wire(k, None),
{
    assert((-1i16) as u16 == 0xFFFFu16) by (bit_vector);
    assert((-1i32) as u32 == 0xFFFF_FFFFu32) by (bit_vector);
    assert(((0xFFFFu16 >> 8) & 0xff) == 0xFFu16) by (bit_vector);
    assert((0xFFFFu16 & 0xff) == 0xFFu16) by (bit_vector);
    assert(((0xFFFF_FFFFu32 >> 24) & 0xff) == 0xFFu32) by (bit_vector);
    assert(((0xFFFF_FFFFu32 >> 16) & 0xff) == 0xFFu32) by (bit_vector);
    assert(((0xFFFF_FFFFu32 >> 8) & 0xff) == 0xFFu32) by (bit_vector);
    assert((0xFFFF_FFFFu32 & 0xff) == 0xFFu32) by (bit_vector);
    assert(len_wire(LenKind::I16, None) =~= seq![0xFFu8, 0xFFu8]);
    assert(len_wire(LenKind::I32, None) =~= seq![0xFFu8, 0xFFu8, 0xFFu8, 0xFFu8]);
    reveal_with_fuel(uvarint_wire, 1);
}

/// Every `u64` (so every `n <= 2^56 - 1`) is read back from its varint, which
/// takes at most ten bytes.
pub proof fn lemma_uvarint_law(n: u64, rest: Seq<u8>)
    ensures
        parse_uvarint64(uvarint_wire(n as nat) + rest, 0) == Ok::<(u64, int), KafkaError>(
            (n, uvarint_wire(n as nat).len() as int),
        ),
        uvarint_wire(n as nat).len() <= 10,
{
    lemma_holds_at_front(uvarint_wire(n as nat), rest);
    lemma_uvarint64_round_trip(n, uvarint_wire(n as nat) + rest, 0);
    lemma_uvarint64_len(n);
}

/// Every `i32` is read back from its zig-zag varint, and the low bit of the
/// first byte is the sign.
pub proof fn lemma_zigzag_law(v: i32, rest: Seq<u8>)
    ensures
        parse_varint(varint_wire(v) + rest, 0) == Ok::<(i32, int), KafkaError>(
            (v, varint_wire(v).len() as int),
        ),
        v >= 0 ==> varint_wire(v)[0] & 1 == 0,
        v < 0 ==> varint_wire(v)[0] & 1 == 1,
{
    lemma_holds_at_front(varint_wire(v), rest);
    lemma_varint_round_trip(v, varint_wire(v) + rest, 0);
    lemma_varint_sign(v);
}

} // verus!

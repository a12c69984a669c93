//! Arrays: an element count in one of the length conventions, then the
//! elements one after another.
use vstd::prelude::*;

use crate::codec::{
    len_fits, len_size, len_wire, len_writable, lemma_len_round_trip, parse_len, read_len,
    write_len, Codec, Encode, LenKind,
};
use crate::error::KafkaError;
use crate::primitives::{holds_at, lemma_holds_split};

verus! {

/// The models of a sequence of values.
pub open spec fn seq_view<T: View>(v: Seq<T>) -> Seq<T::V> {
    v.map_values(|x: T| x@)
}

/// The models of an optional vector of values.
pub open spec fn opt_seq_view<T: View>(o: &Option<Vec<T>>) -> Option<Seq<T::V>> {
    match o {
        Some(v) => Some(seq_view(v@)),
        None => None,
    }
}

/// The wire forms of `vs`, one after another.
pub open spec fn wires<T: Encode>(vs: Seq<T::V>) -> Seq<u8>
    decreases vs.len(),
{
    if vs.len() == 0 {
        Seq::empty()
    } else {
        wires::<T>(vs.drop_last()) + T::wire(vs.last())
    }
}

/// Whether every element can be written.
pub open spec fn all_writable<T: Encode>(vs: Seq<T::V>) -> bool {
    forall|k: int| 0 <= k < vs.len() ==> T::writable(#[trigger] vs[k])
}

/// Whether an array can be written: its count fits and its elements can be.
pub open spec fn seq_writable<T: Encode>(k: LenKind, o: Option<Seq<T::V>>) -> bool {
    match o {
        Some(vs) => len_writable(k, vs.len()) && all_writable::<T>(vs),
        None => true,
    }
}

/// Whether every element can be written and read back.
pub open spec fn all_valid<T: Codec>(vs: Seq<T::V>) -> bool {
    forall|k: int| 0 <= k < vs.len() ==> T::valid(#[trigger] vs[k])
}

/// Reads `n` elements one after another from position `i`.
pub open spec fn parse_n<T: Codec>(s: Seq<u8>, i: int, n: nat) -> Result<(Seq<T::V>, int), KafkaError>
    decreases n,
{
    if n == 0 {
        Ok((Seq::empty(), i))
    } else {
        match parse_n::<T>(s, i, (n - 1) as nat) {
            Ok((vs, j)) => match T::parse(s, j) {
                Ok((v, k)) => Ok((vs.push(v), k)),
                Err(e) => Err(e),
            },
            Err(e) => Err(e),
        }
    }
}

/// The wire form of an array (`None` is the null array).
pub open spec fn seq_wire<T: Encode>(k: LenKind, o: Option<Seq<T::V>>) -> Seq<u8> {
    match o {
        Some(vs) => len_wire(k, Some(vs.len())) + wires::<T>(vs),
        None => len_wire(k, None),
    }
}

/// Whether an array can be written and read back.
pub open spec fn seq_valid<T: Codec>(k: LenKind, o: Option<Seq<T::V>>) -> bool {
    match o {
        Some(vs) => len_fits(k, vs.len()) && all_valid::<T>(vs),
        None => true,
    }
}

/// Reads an array; a null count gives `None`.
pub open spec fn parse_seq<T: Codec>(k: LenKind, s: Seq<u8>, i: int) -> Result<
    (Option<Seq<T::V>>, int),
    KafkaError,
> {
    match parse_len(k, s, i) {
        Ok((None, j)) => Ok((None, j)),
        Ok((Some(n), j)) => match parse_n::<T>(s, j, n) {
            Ok((vs, e)) => Ok((Some(vs), e)),
            Err(e) => Err(e),
        },
        Err(e) => Err(e),
    }
}

/// Relates what an array decoder returned to what the spec parser gives.
pub open spec fn parsed_seq_as<T: View>(
    r: Result<(Option<Vec<T>>, usize), KafkaError>,
    p: Result<(Option<Seq<T::V>>, int), KafkaError>,
) -> bool {
    match r {
        Ok((v, end)) => p == Ok::<(Option<Seq<T::V>>, int), KafkaError>(
            (opt_seq_view(&v), end as int),
        ),
        Err(e) => p == Err::<(Option<Seq<T::V>>, int), KafkaError>(e),
    }
}

proof fn lemma_parse_n_err<T: Codec>(s: Seq<u8>, i: int, m: nat, n: nat, e: KafkaError)
    requires
        m <= n,
        parse_n::<T>(s, i, m) == Err::<(Seq<T::V>, int), KafkaError>(e),
    ensures
        parse_n::<T>(s, i, n) == Err::<(Seq<T::V>, int), KafkaError>(e),
    decreases n,
{
    if m < n {
        lemma_parse_n_err::<T>(s, i, m, (n - 1) as nat, e);
    }
}

proof fn lemma_wires_prefix_len<T: Encode>(vs: Seq<T::V>, j: int)
    requires
        0 <= j <= vs.len(),
    ensures
        wires::<T>(vs.take(j)).len() <= wires::<T>(vs).len(),
    decreases vs.len() - j,
{
    if j < vs.len() {
        lemma_wires_prefix_len::<T>(vs, j + 1);
        assert(vs.take(j + 1).drop_last() =~= vs.take(j));
    } else {
        assert(vs.take(j) =~= vs);
    }
}

/// Reading the wire forms of valid elements, one after another, gives them back.
pub proof fn lemma_wires_round_trip<T: Codec>(vs: Seq<T::V>, s: Seq<u8>, i: int)
    requires
        all_valid::<T>(vs),
        holds_at(s, i, wires::<T>(vs)),
    ensures
        parse_n::<T>(s, i, vs.len()) == Ok::<(Seq<T::V>, int), KafkaError>(
            (vs, i + wires::<T>(vs).len()),
        ),
    decreases vs.len(),
{
    if vs.len() > 0 {
        let front = vs.drop_last();
        lemma_holds_split(s, i, wires::<T>(front), T::wire(vs.last()));
        assert(all_valid::<T>(front)) by {
            assert forall|k: int| 0 <= k < front.len() implies T::valid(#[trigger] front[k]) by {
                assert(front[k] == vs[k]);
            }
        }
        lemma_wires_round_trip::<T>(front, s, i);
        assert(T::valid(vs[vs.len() - 1]));
        T::lemma_round_trip(vs.last(), s, i + wires::<T>(front).len());
        assert(front.push(vs.last()) =~= vs);
    } else {
        assert(vs =~= Seq::<T::V>::empty());
    }
}

/// Reading a written valid array gives it back.
pub proof fn lemma_seq_round_trip<T: Codec>(k: LenKind, o: Option<Seq<T::V>>, s: Seq<u8>, i: int)
    requires
        seq_valid::<T>(k, o),
        holds_at(s, i, seq_wire::<T>(k, o)),
    ensures
        parse_seq::<T>(k, s, i) == Ok::<(Option<Seq<T::V>>, int), KafkaError>(
            (o, i + seq_wire::<T>(k, o).len()),
        ),
{
    match o {
        Some(vs) => {
            let lw = len_wire(k, Some(vs.len()));
            lemma_holds_split(s, i, lw, wires::<T>(vs));
            lemma_len_round_trip(k, Some(vs.len()), s, i);
            lemma_wires_round_trip::<T>(vs, s, i + lw.len());
        },
        None => {
            lemma_len_round_trip(k, None, s, i);
        },
    }
}

/// Appends the elements of `v` one after another.
pub fn write_all<T: Encode>(v: &Vec<T>, out: &mut Vec<u8>)
    requires
        all_writable::<T>(seq_view(v@)),
    ensures
        final(out)@ == old(out)@ + wires::<T>(seq_view(v@)),
{
    let ghost vs = seq_view(v@);
    let mut i: usize = 0;
    while i < v.len()
        invariant
            i <= v.len(),
            vs == seq_view(v@),
            all_writable::<T>(vs),
            out@ == old(out)@ + wires::<T>(vs.take(i as int)),
        decreases v.len() - i,
    {
        assert(T::writable(vs[i as int]));
        v[i].encode(out);
        proof {
            assert(vs.take(i + 1).drop_last() =~= vs.take(i as int));
            assert(vs.take(i + 1).last() == v@[i as int]@);
        }
        i = i + 1;
        assert(out@ =~= old(out)@ + wires::<T>(vs.take(i as int)));
    }
    assert(vs.take(i as int) =~= vs);
}

/// Appends an array (`None` for the null array) in the convention `k`.
pub fn write_seq<T: Encode>(k: LenKind, items: &Option<Vec<T>>, out: &mut Vec<u8>)
    requires
        seq_writable::<T>(k, opt_seq_view(items)),
    ensures
        final(out)@ == old(out)@ + seq_wire::<T>(k, opt_seq_view(items)),
{
    match items {
        Some(v) => {
            write_len(k, Some(v.len()), out);
            write_all(v, out);
            assert(out@ =~= old(out)@ + seq_wire::<T>(k, opt_seq_view(items)));
        },
        None => write_len(k, None, out),
    }
}

/// The number of bytes `write_all` writes.
pub fn all_size<T: Encode>(v: &Vec<T>) -> (r: usize)
    requires
        all_writable::<T>(seq_view(v@)),
        wires::<T>(seq_view(v@)).len() <= usize::MAX,
    ensures
        r == wires::<T>(seq_view(v@)).len(),
{
    let ghost vs = seq_view(v@);
    let mut i: usize = 0;
    let mut total: usize = 0;
    while i < v.len()
        invariant
            i <= v.len(),
            vs == seq_view(v@),
            total == wires::<T>(vs.take(i as int)).len(),
            wires::<T>(vs).len() <= usize::MAX,
            all_writable::<T>(vs),
        decreases v.len() - i,
    {
        proof {
            assert(vs.take(i + 1).drop_last() =~= vs.take(i as int));
            assert(vs.take(i + 1).last() == v@[i as int]@);
            lemma_wires_prefix_len::<T>(vs, i + 1);
        }
        assert(T::writable(vs[i as int]));
        let n = v[i].byte_size();
        total = total + n;
        i = i + 1;
    }
    assert(vs.take(i as int) =~= vs);
    total
}

/// The number of bytes `write_seq` writes.
pub fn seq_size<T: Encode>(k: LenKind, items: &Option<Vec<T>>) -> (r: usize)
    requires
        seq_writable::<T>(k, opt_seq_view(items)),
        seq_wire::<T>(k, opt_seq_view(items)).len() <= usize::MAX,
    ensures
        r == seq_wire::<T>(k, opt_seq_view(items)).len(),
{
    match items {
        Some(v) => {
            let n = len_size(k, Some(v.len()));
            n + all_size(v)
        },
        None => len_size(k, None),
    }
}

/// Reads `n` elements one after another at `pos`.
pub fn read_n<T: Codec>(buf: &[u8], pos: usize, n: u64) -> (r: Result<(Vec<T>, usize), KafkaError>)
    ensures
        match r {
            Ok((v, end)) => parse_n::<T>(buf@, pos as int, n as nat) == Ok::<
                (Seq<T::V>, int),
                KafkaError,
            >((seq_view(v@), end as int)),
            Err(e) => parse_n::<T>(buf@, pos as int, n as nat) == Err::<(Seq<T::V>, int), KafkaError>(
                e,
            ),
        },
{
    let mut items: Vec<T> = Vec::new();
    let mut p: usize = pos;
    let mut count: u64 = 0;
    assert(seq_view(items@) =~= Seq::<T::V>::empty());
    while count < n
        invariant
            count <= n,
            items@.len() == count,
            parse_n::<T>(buf@, pos as int, count as nat) == Ok::<(Seq<T::V>, int), KafkaError>(
                (seq_view(items@), p as int),
            ),
        decreases n - count,
    {
        let ghost before = seq_view(items@);
        match T::decode(buf, p) {
            Ok((x, q)) => {
                items.push(x);
                p = q;
                count = count + 1;
                assert(seq_view(items@) =~= before.push(x@));
            },
            Err(e) => {
                proof {
                    lemma_parse_n_err::<T>(buf@, pos as int, (count + 1) as nat, n as nat, e);
                }
                return Err(e);
            },
        }
    }
    Ok((items, p))
}

/// Reads an array in the convention `k` at `pos`.
pub fn read_seq<T: Codec>(k: LenKind, buf: &[u8], pos: usize) -> (r: Result<
    (Option<Vec<T>>, usize),
    KafkaError,
>)
    ensures
        parsed_seq_as(r, parse_seq::<T>(k, buf@, pos as int)),
{
    match read_len(k, buf, pos) {
        Ok((None, p)) => Ok((None, p)),
        Ok((Some(n), p)) => match read_n(buf, p, n) {
            Ok((v, e)) => Ok((Some(v), e)),
            Err(e) => Err(e),
        },
        Err(e) => Err(e),
    }
}

} // verus!

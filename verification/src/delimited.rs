//! The NUL-delimited writer.
//!
//! Each relativized dependency path is emitted as its raw native byte
//! sequence immediately followed by one NUL byte, in iteration order, with
//! no other bytes. This format imposes no text-validity requirement and so
//! supports dependency paths that are not valid text.

use crate::path::NativePath;
use vstd::prelude::*;

verus! {

/// The bytes of every path of `ds[i..]`, each followed by one NUL byte.
pub open spec fn zero_bytes_from(ds: Seq<Seq<u8>>, i: int) -> Seq<u8>
    decreases ds.len() - i,
{
    if i < 0 || i >= ds.len() {
        Seq::empty()
    } else {
        ds[i] + seq![0u8] + zero_bytes_from(ds, i + 1)
    }
}

/// The complete NUL-delimited encoding of a path sequence.
pub open spec fn zero_bytes(ds: Seq<Seq<u8>>) -> Seq<u8> {
    zero_bytes_from(ds, 0)
}

/// The byte strings of a path sequence.
pub open spec fn paths_of(deps: Seq<NativePath>) -> Seq<Seq<u8>> {
    deps.map_values(|p: NativePath| p@)
}

/// Serializes the (already relativized) dependency sequence in the
/// NUL-delimited format, consuming it in one pass.
pub fn write_deps_zero(deps: Vec<NativePath>) -> (r: Vec<u8>)
    ensures
        r@ == zero_bytes(paths_of(deps@)),
{
    let ghost ds = paths_of(deps@);
    let mut out: Vec<u8> = Vec::new();
    let mut i: usize = 0;
    while i < deps.len()
        invariant
            i <= deps@.len(),
            ds == paths_of(deps@),
            zero_bytes(ds) == out@ + zero_bytes_from(ds, i as int),
        decreases deps@.len() - i,
    {
        let ghost out0 = out@;
        let p = &deps[i];
        let mut j: usize = 0;
        while j < p.bytes.len()
            invariant
                j <= p@.len(),
                out@ == out0 + p@.take(j as int),
            decreases p@.len() - j,
        {
            out.push(p.bytes[j]);
            j = j + 1;
            proof {
                assert(out@ =~= out0 + p@.take(j as int));
            }
        }
        out.push(0u8);
        i = i + 1;
        proof {
            assert(p@.take(p@.len() as int) =~= p@);
            assert(ds[i - 1] == p@);
            assert(out0 + zero_bytes_from(ds, i - 1) =~= out@ + zero_bytes_from(ds, i as int));
        }
    }
    out
}

/// The segments of `b` between NUL bytes, accumulated into `cur`; the
/// trailing segment after the last NUL is dropped when it is empty.
pub open spec fn split_nul_acc(b: Seq<u8>, cur: Seq<u8>) -> Seq<Seq<u8>>
    decreases b.len(),
{
    if b.len() == 0 {
        if cur.len() == 0 {
            Seq::empty()
        } else {
            seq![cur]
        }
    } else if b[0] == 0u8 {
        seq![cur] + split_nul_acc(b.drop_first(), Seq::empty())
    } else {
        split_nul_acc(b.drop_first(), cur.push(b[0]))
    }
}

/// Splitting a byte string on NUL bytes, dropping the trailing empty
/// segment.
pub open spec fn split_nul(b: Seq<u8>) -> Seq<Seq<u8>> {
    split_nul_acc(b, Seq::empty())
}

/// One record of the encoding, consumed by the splitter: a NUL-free segment
/// followed by its terminator yields that segment and leaves the rest.
proof fn lemma_split_one(d: Seq<u8>, rest: Seq<u8>, cur: Seq<u8>)
    requires
        forall|j: int| 0 <= j < d.len() ==> d[j] != 0u8,
    ensures
        split_nul_acc(d + seq![0u8] + rest, cur) == seq![cur + d] + split_nul_acc(
            rest,
            Seq::empty(),
        ),
    decreases d.len(),
{
    let b = d + seq![0u8] + rest;
    if d.len() == 0 {
        assert(b =~= seq![0u8] + rest);
        assert(b[0] == 0u8);
        assert(b.drop_first() =~= rest);
        assert(cur + d =~= cur);
    } else {
        assert(b[0] == d[0]);
        assert(b.drop_first() =~= d.drop_first() + seq![0u8] + rest);
        lemma_split_one(d.drop_first(), rest, cur.push(d[0]));
        assert(cur.push(d[0]) + d.drop_first() =~= cur + d);
    }
}

/// The delimited round trip: splitting the NUL-delimited encoding of any
/// finite path sequence on NUL bytes (dropping the trailing empty segment)
/// yields exactly that sequence, in order, provided no path itself contains
/// a NUL byte.
pub proof fn lemma_delimited_round_trip(ds: Seq<Seq<u8>>)
    requires
        forall|i: int, j: int| 0 <= i < ds.len() && 0 <= j < ds[i].len() ==> ds[i][j] != 0u8,
    ensures
        split_nul(zero_bytes(ds)) == ds,
    decreases ds.len(),
{
    if ds.len() == 0 {
        assert(split_nul(zero_bytes(ds)) =~= ds);
    } else {
        let tail = ds.drop_first();
        assert(forall|i: int, j: int|
            0 <= i < tail.len() && 0 <= j < tail[i].len() ==> tail[i][j] != 0u8);
        lemma_delimited_round_trip(tail);
        assert(zero_bytes_from(tail, 0) =~= zero_bytes_from(ds, 1)) by {
            lemma_zero_bytes_shift(ds, 1);
        }
        lemma_split_one(ds[0], zero_bytes_from(ds, 1), Seq::empty());
        assert(zero_bytes(ds) == ds[0] + seq![0u8] + zero_bytes_from(ds, 1));
        assert(Seq::empty() + ds[0] =~= ds[0]);
        assert(seq![ds[0]] + split_nul(zero_bytes_from(ds, 1)) =~= ds);
    }
}

/// Dropping the first path shifts the encoding's index by one.
proof fn lemma_zero_bytes_shift(ds: Seq<Seq<u8>>, i: int)
    requires
        1 <= i <= ds.len(),
    ensures
        zero_bytes_from(ds.drop_first(), i - 1) == zero_bytes_from(ds, i),
    decreases ds.len() - i,
{
    let tail = ds.drop_first();
    if i >= ds.len() {
    } else {
        lemma_zero_bytes_shift(ds, i + 1);
        assert(tail[i - 1] == ds[i]);
    }
}

} // verus!

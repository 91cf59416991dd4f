//! Partitioning a range into chunks, and what the per-chunk histograms add
//! up to.
use vstd::prelude::*;
use crate::counts::{occurrences, tally, sum_prefix, total};

verus! {

/// The chunk size used for a range of `size` bytes when `accuracy` bytes per
/// chunk are asked for: `accuracy`, clamped to `size`; an accuracy of zero
/// asks for a single chunk covering the whole range.
pub open spec fn chunk_len(size: nat, accuracy: nat) -> nat {
    if accuracy == 0 || accuracy >= size {
        size
    } else {
        accuracy
    }
}

/// `s` cut into consecutive pieces of `cs` bytes, the last one possibly
/// shorter; no pieces at all for an empty `s`.
pub open spec fn chunks_of(s: Seq<u8>, cs: nat) -> Seq<Seq<u8>>
    decreases s.len(),
{
    if s.len() == 0 {
        seq![]
    } else if cs == 0 || s.len() <= cs {
        seq![s]
    } else {
        seq![s.take(cs as int)] + chunks_of(s.skip(cs as int), cs)
    }
}

/// Sum over all pieces in `pieces` of the occurrences of `b`.
pub open spec fn column(pieces: Seq<Seq<u8>>, b: u8) -> nat
    decreases pieces.len(),
{
    if pieces.len() == 0 {
        0
    } else {
        occurrences(pieces[0], b) + column(pieces.drop_first(), b)
    }
}

/// Counting over two pieces laid end to end is counting over each.
pub proof fn lemma_occurrences_concat(a: Seq<u8>, c: Seq<u8>, b: u8)
    ensures
        occurrences(a + c, b) == occurrences(a, b) + occurrences(c, b),
    decreases c.len(),
{
    if c.len() == 0 {
        assert(a + c =~= a);
    } else {
        assert((a + c).drop_last() =~= a + c.drop_last());
        lemma_occurrences_concat(a, c.drop_last(), b);
    }
}

/// Adding one to a single entry of a table adds one to its sum.
proof fn lemma_sum_bump(t1: Seq<nat>, t2: Seq<nat>, j: int, n: int)
    requires
        0 <= j < n <= t1.len(),
        t1.len() == t2.len(),
        t2[j] == t1[j] + 1,
        forall|i: int| 0 <= i < n && i != j ==> t2[i] == t1[i],
    ensures
        sum_prefix(t2, n) == sum_prefix(t1, n) + 1,
    decreases n,
{
    if n - 1 > j {
        lemma_sum_bump(t1, t2, j, n - 1);
    } else {
        lemma_sum_same(t1, t2, n - 1);
    }
}

proof fn lemma_sum_same(t1: Seq<nat>, t2: Seq<nat>, n: int)
    requires
        0 <= n <= t1.len(),
        t1.len() == t2.len(),
        forall|i: int| 0 <= i < n ==> t2[i] == t1[i],
    ensures
        sum_prefix(t2, n) == sum_prefix(t1, n),
    decreases n,
{
    if n > 0 {
        lemma_sum_same(t1, t2, n - 1);
    }
}

/// The counts of a histogram add up to the number of bytes folded into it.
pub proof fn lemma_tally_total(s: Seq<u8>)
    ensures
        total(tally(s)) == s.len(),
    decreases s.len(),
{
    if s.len() == 0 {
        lemma_sum_zero(tally(s), 256);
    } else {
        let p = s.drop_last();
        lemma_tally_total(p);
        lemma_sum_bump(tally(p), tally(s), s.last() as int, 256);
    }
}

proof fn lemma_sum_zero(t: Seq<nat>, n: int)
    requires
        0 <= n <= t.len(),
        forall|i: int| 0 <= i < n ==> t[i] == 0,
    ensures
        sum_prefix(t, n) == 0,
    decreases n,
{
    if n > 0 {
        lemma_sum_zero(t, n - 1);
    }
}

/// Each byte value occurs in `s` exactly as often as it occurs in all the
/// chunks of `s` together.
pub proof fn lemma_column_chunks(s: Seq<u8>, cs: nat, b: u8)
    ensures
        column(chunks_of(s, cs), b) == occurrences(s, b),
    decreases s.len(),
{
    if s.len() == 0 {
    } else if cs == 0 || s.len() <= cs {
        assert(chunks_of(s, cs).drop_first() =~= seq![]);
        assert(column(chunks_of(s, cs).drop_first(), b) == 0);
    } else {
        let rest = s.skip(cs as int);
        lemma_column_chunks(rest, cs, b);
        assert(chunks_of(s, cs).drop_first() =~= chunks_of(rest, cs));
        assert(chunks_of(s, cs)[0] == s.take(cs as int));
        assert(s =~= s.take(cs as int) + rest);
        lemma_occurrences_concat(s.take(cs as int), rest, b);
    }
}

/// A non-empty `s` has `ceil(|s| / cs)` chunks.
pub proof fn lemma_chunk_count(s: Seq<u8>, cs: nat)
    requires
        s.len() > 0,
        cs > 0,
    ensures
        chunks_of(s, cs).len() == (s.len() + cs - 1) / (cs as int),
    decreases s.len(),
{
    let n = s.len() as int;
    let d = cs as int;
    if n <= d {
        assert((n + d - 1) / d == 1) by (nonlinear_arith)
            requires
                0 < n <= d,
        {
            assert(d <= n + d - 1 < 2 * d);
        }
    } else {
        lemma_chunk_count(s.skip(d), cs);
        vstd::arithmetic::div_mod::lemma_div_plus_one(n - 1, d);
        assert(n - d + d - 1 == n - 1);
    }
}

/// Appending one more chunk to a prefix made of whole chunks appends it to
/// the partition.
pub proof fn lemma_chunks_append(a: Seq<u8>, c: Seq<u8>, cs: nat)
    requires
        cs > 0,
        a.len() % cs == 0,
        0 < c.len() <= cs,
    ensures
        chunks_of(a + c, cs) == chunks_of(a, cs).push(c),
    decreases a.len(),
{
    let d = cs as int;
    if a.len() == 0 {
        assert(a + c =~= c);
        assert(chunks_of(a, cs).push(c) =~= seq![c]);
    } else {
        assert(a.len() >= d) by {
            if a.len() < d {
                vstd::arithmetic::div_mod::lemma_small_mod(a.len(), cs);
            }
        }
        let rest = a.skip(d);
        vstd::arithmetic::div_mod::lemma_mod_sub_multiples_vanish(a.len() as int, d);
        lemma_chunks_append(rest, c, cs);
        assert((a + c).take(d) =~= a.take(d));
        assert((a + c).skip(d) =~= rest + c);
        if a.len() == d {
            assert(rest =~= Seq::<u8>::empty());
            assert(a.take(d) =~= a);
            assert(chunks_of(a, cs) =~= seq![a]);
            assert(chunks_of(rest, cs) =~= seq![]);
            assert(chunks_of(a + c, cs) =~= chunks_of(a, cs).push(c));
        } else {
            assert(chunks_of(a + c, cs) =~= chunks_of(a, cs).push(c));
        }
    }
}

} // verus!

//! Properties that hold across the engine's operations.
use vstd::prelude::*;
use crate::chunks::{
    chunk_len,
    chunks_of,
    column,
    lemma_chunk_count,
    lemma_column_chunks,
    lemma_tally_total,
};
use crate::counts::{Counter, holds, tally, total};
use crate::range::ByteRange;
use crate::scan::{IoRequest, all_hold};
use crate::stream::{chunk_reads, scan_trace};

verus! {

/// The values held in bucket `b` of each histogram of `hs`, added up as
/// natural numbers.
pub open spec fn bucket_sum<C: Counter>(hs: Seq<[C; 256]>, b: int) -> nat
    decreases hs.len(),
{
    if hs.len() == 0 {
        0
    } else {
        hs[0]@[b].value() + bucket_sum(hs.drop_first(), b)
    }
}

/// The values held in the buckets of `h`.
pub open spec fn values<C: Counter>(h: [C; 256]) -> Seq<nat> {
    Seq::new(256, |i: int| h@[i].value())
}

/// The counts of a histogram of `content` add up to the number of bytes in
/// it, as long as no bucket wrapped around.
pub proof fn law_histogram_total<C: Counter>(content: Seq<u8>, h: [C; 256])
    requires
        holds(h, tally(content)),
        content.len() < C::modulus(),
    ensures
        total(values(h)) == content.len(),
{
    lemma_tally_total(content);
    assert forall|i: int| 0 <= i < 256 implies values(h)[i] == tally(content)[i] by {
        crate::counts::lemma_occurrences_bound(content, i as u8);
        vstd::arithmetic::div_mod::lemma_small_mod(tally(content)[i], C::modulus());
    }
    assert(values(h) =~= tally(content));
}

/// Adding up the chunk histograms bucket by bucket, in the counter's own
/// wrapping arithmetic, gives the histogram of the whole range, whatever
/// the accuracy.
pub proof fn law_delta_sums_to_whole<C: Counter>(
    content: Seq<u8>,
    accuracy: nat,
    hs: Seq<[C; 256]>,
    h: [C; 256],
)
    requires
        all_hold(hs, content, chunk_len(content.len(), accuracy)),
        holds(h, tally(content)),
    ensures
        forall|b: int| 0 <= b < 256 ==> #[trigger] bucket_sum(hs, b) % C::modulus() == h@[b].value(),
{
    let cs = chunk_len(content.len(), accuracy);
    assert forall|b: int| 0 <= b < 256 implies #[trigger] bucket_sum(hs, b) % C::modulus()
        == h@[b].value() by {
        lemma_column_chunks(content, cs, b as u8);
        lemma_bucket_sum_mod(hs, chunks_of(content, cs), b);
    }
}

proof fn lemma_bucket_sum_mod<C: Counter>(hs: Seq<[C; 256]>, pieces: Seq<Seq<u8>>, b: int)
    requires
        0 <= b < 256,
        hs.len() == pieces.len(),
        forall|k: int| 0 <= k < hs.len() ==> holds(#[trigger] hs[k], tally(pieces[k])),
    ensures
        bucket_sum(hs, b) % C::modulus() == column(pieces, b as u8) % C::modulus(),
    decreases hs.len(),
{
    if hs.len() > 0 {
        C::lemma_in_bounds(hs[0]@[b]);
        assert(holds(hs[0], tally(pieces[0])));
        assert(hs[0]@[b].value() == tally(pieces[0])[b] % C::modulus());
        lemma_bucket_sum_mod(hs.drop_first(), pieces.drop_first(), b);
        let m = C::modulus() as int;
        let x = hs[0]@[b].value() as int;
        let y = bucket_sum(hs.drop_first(), b) as int;
        let u = tally(pieces[0])[b] as int;
        let v = column(pieces.drop_first(), b as u8) as int;
        vstd::arithmetic::div_mod::lemma_add_mod_noop(x, y, m);
        vstd::arithmetic::div_mod::lemma_add_mod_noop(u, v, m);
        vstd::arithmetic::div_mod::lemma_mod_twice(u, m);
    }
}

/// Chunking a non-empty range of `size` bytes with an accuracy `a > 0` gives
/// `ceil(size / min(a, size))` chunks; an accuracy of zero gives one chunk;
/// an empty range gives none.
pub proof fn law_delta_len(content: Seq<u8>, accuracy: nat)
    ensures
        content.len() == 0 ==> chunks_of(content, chunk_len(content.len(), accuracy)).len() == 0,
        content.len() > 0 && accuracy == 0 ==> chunks_of(
            content,
            chunk_len(content.len(), accuracy),
        ).len() == 1,
        content.len() > 0 && accuracy > 0 ==> {
            let m = if accuracy < content.len() {
                accuracy
            } else {
                content.len()
            };
            chunks_of(content, chunk_len(content.len(), accuracy)).len() == (content.len() + m - 1)
                / (m as int)
        },
{
    if content.len() > 0 {
        lemma_chunk_count(content, chunk_len(content.len(), accuracy));
    }
}

/// A scan's I/O never seeks between chunks: the only seek is the first
/// request, to the start of the range, and every later request is a read.
pub proof fn law_single_seek(range: ByteRange, content: Seq<u8>, cs: nat)
    ensures
        scan_trace(range, content, cs).len() > 0 ==> scan_trace(range, content, cs)[0]
            == IoRequest::Seek(range.start),
        forall|i: int|
            0 < i < scan_trace(range, content, cs).len() ==> #[trigger] scan_trace(
                range,
                content,
                cs,
            )[i] is Read,
{
    if range.size() > 0 {
        let t = scan_trace(range, content, cs);
        assert forall|i: int| 0 < i < t.len() implies #[trigger] t[i] is Read by {
            assert(t[i] == chunk_reads(content, cs)[i - 1]);
        }
    }
}

} // verus!

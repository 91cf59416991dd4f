//! The histogram engine as a sequence of steps. A [`Scan`] validates the
//! range, plans the chunks, and then says which seek or read to perform
//! next; the caller performs it on its stream and hands the bytes back, and
//! the scan folds them. Once nothing is pending, the histograms are ready.
use vstd::prelude::*;
use crate::chunks::{chunk_len, chunks_of, lemma_chunks_append};
use crate::counts::{Counter, fold_bytes, holds, tally};
use crate::range::{ByteRange, InvalidRange, validate_range};

verus! {

/// One step of I/O that a scan asks of its stream.
#[derive(Clone, Copy, Debug, PartialEq, Eq, Structural)]
pub enum IoRequest {
    /// Move the cursor to this absolute offset.
    Seek(u64),
    /// Read exactly this many bytes at the cursor.
    Read(u64),
}

/// `hs` holds one histogram per chunk of `s` cut into chunks of `cs` bytes,
/// in order.
pub open spec fn all_hold<C: Counter>(hs: Seq<[C; 256]>, s: Seq<u8>, cs: nat) -> bool {
    &&& hs.len() == chunks_of(s, cs).len()
    &&& forall|k: int| 0 <= k < hs.len() ==> holds(#[trigger] hs[k], tally(chunks_of(s, cs)[k]))
}

/// A histogram computation in progress over one byte range.
pub struct Scan<C> {
    range: ByteRange,
    chunk: u64,
    done: u64,
    positioned: bool,
    histograms: Vec<[C; 256]>,
    seen: Ghost<Seq<u8>>,
}

impl<C: Counter> Scan<C> {
    /// The range being scanned.
    pub closed spec fn range(&self) -> ByteRange {
        self.range
    }

    /// The chunk size in use.
    pub closed spec fn chunk_size(&self) -> nat {
        self.chunk as nat
    }

    /// Whether the initial seek has been performed.
    pub closed spec fn positioned(&self) -> bool {
        self.positioned
    }

    /// The bytes folded so far, in stream order.
    pub closed spec fn seen(&self) -> Seq<u8> {
        self.seen@
    }

    /// The histograms completed so far, one per chunk.
    pub closed spec fn results(&self) -> Seq<[C; 256]> {
        self.histograms@
    }

    pub closed spec fn wf(&self) -> bool {
        &&& self.range.start <= self.range.end
        &&& self.chunk <= self.range.end - self.range.start
        &&& (self.chunk == 0 <==> self.range.start == self.range.end)
        &&& self.seen@.len() == self.done
        &&& self.done <= self.range.end - self.range.start
        &&& (self.chunk > 0 ==> self.done % self.chunk == 0 || self.done == self.range.end
            - self.range.start)
        &&& (!self.positioned ==> self.done == 0)
        &&& all_hold(self.histograms@, self.seen@, self.chunk as nat)
    }

    /// What well-formedness tells a caller about a scan.
    pub proof fn lemma_wf(&self)
        requires
            self.wf(),
        ensures
            self.range().start <= self.range().end,
            self.seen().len() <= self.range().size(),
            self.chunk_size() <= self.range().size(),
            self.chunk_size() == 0 <==> self.range().size() == 0,
            !self.positioned() ==> self.seen().len() == 0,
    {
    }

    /// The next I/O step the scan needs, or none when it is complete: a
    /// single seek to the range's start, then one read per chunk, each of a
    /// whole chunk but the last, which reads what is left of the range.
    pub open spec fn pending(&self) -> Option<IoRequest> {
        if self.seen().len() == self.range().size() {
            None
        } else if !self.positioned() {
            Some(IoRequest::Seek(self.range().start))
        } else if self.chunk_size() <= self.range().size() - self.seen().len() {
            Some(IoRequest::Read(self.chunk_size() as u64))
        } else {
            Some(IoRequest::Read((self.range().size() - self.seen().len()) as u64))
        }
    }

    fn plan(range: ByteRange, chunk: u64) -> (r: Scan<C>)
        requires
            range.start <= range.end,
            chunk <= range.size(),
            chunk == 0 <==> range.size() == 0,
        ensures
            r.wf(),
            r.range() == range,
            r.chunk_size() == chunk,
            r.seen() == Seq::<u8>::empty(),
            !r.positioned(),
    {
        let r = Scan {
            range,
            chunk,
            done: 0,
            positioned: false,
            histograms: Vec::new(),
            seen: Ghost(Seq::empty()),
        };
        proof {
            if chunk > 0 {
                vstd::arithmetic::div_mod::lemma_small_mod(0, chunk as nat);
            }
        }
        r
    }

    /// Starts a whole-range histogram of `[start, end)` over a stream of
    /// `stream_len` bytes: the range is read in one piece. Fails, before any
    /// I/O, when the range does not lie within the stream.
    pub fn whole(start: u64, end: u64, stream_len: u64) -> (r: Result<Scan<C>, InvalidRange>)
        ensures
            r is Ok <==> start <= end && end <= stream_len,
            r matches Err(e) ==> e == (InvalidRange { start, end, stream_len }),
            r matches Ok(s) ==> {
                &&& s.wf()
                &&& s.range() == (ByteRange { start, end })
                &&& s.chunk_size() == s.range().size()
                &&& s.seen() == Seq::<u8>::empty()
                &&& !s.positioned()
            },
    {
        match validate_range(start, end, stream_len) {
            Ok(range) => Ok(Self::plan(range, range.len())),
            Err(e) => Err(e),
        }
    }

    /// Starts a chunked histogram of `[start, end)` over a stream of
    /// `stream_len` bytes, in chunks of `accuracy` bytes (clamped to the
    /// range's size; an accuracy of zero means one chunk for the whole
    /// range). Fails, before any I/O, when the range does not lie within the
    /// stream.
    pub fn delta(start: u64, end: u64, accuracy: u64, stream_len: u64) -> (r: Result<
        Scan<C>,
        InvalidRange,
    >)
        ensures
            r is Ok <==> start <= end && end <= stream_len,
            r matches Err(e) ==> e == (InvalidRange { start, end, stream_len }),
            r matches Ok(s) ==> {
                &&& s.wf()
                &&& s.range() == (ByteRange { start, end })
                &&& s.chunk_size() == chunk_len(s.range().size(), accuracy as nat)
                &&& s.seen() == Seq::<u8>::empty()
                &&& !s.positioned()
            },
    {
        match validate_range(start, end, stream_len) {
            Ok(range) => {
                let size = range.len();
                let chunk = if accuracy == 0 || accuracy >= size {
                    size
                } else {
                    accuracy
                };
                Ok(Self::plan(range, chunk))
            },
            Err(e) => Err(e),
        }
    }

    /// The next I/O step to perform, if any.
    pub fn next_request(&self) -> (r: Option<IoRequest>)
        requires
            self.wf(),
        ensures
            r == self.pending(),
    {
        let size = self.range.len();
        if self.done == size {
            None
        } else if !self.positioned {
            Some(IoRequest::Seek(self.range.start))
        } else if self.chunk <= size - self.done {
            Some(IoRequest::Read(self.chunk))
        } else {
            Some(IoRequest::Read(size - self.done))
        }
    }

    /// Whether the scan is complete.
    pub fn is_done(&self) -> (r: bool)
        requires
            self.wf(),
        ensures
            r == (self.pending() is None),
    {
        self.done == self.range.len()
    }

    /// Records that the pending seek has been performed.
    pub fn sought(&mut self)
        requires
            old(self).wf(),
            old(self).pending() == Some(IoRequest::Seek(old(self).range().start)),
        ensures
            final(self).wf(),
            final(self).positioned(),
            final(self).range() == old(self).range(),
            final(self).chunk_size() == old(self).chunk_size(),
            final(self).seen() == old(self).seen(),
            final(self).results() == old(self).results(),
    {
        self.positioned = true;
    }

    /// Folds the bytes of the pending read into the next chunk's histogram.
    pub fn fold_chunk(&mut self, buf: &[u8])
        requires
            old(self).wf(),
            old(self).pending() == Some(IoRequest::Read(buf@.len() as u64)),
        ensures
            final(self).wf(),
            final(self).positioned(),
            final(self).range() == old(self).range(),
            final(self).chunk_size() == old(self).chunk_size(),
            final(self).seen() == old(self).seen() + buf@,
            chunks_of(final(self).seen(), final(self).chunk_size()) == chunks_of(
                old(self).seen(),
                old(self).chunk_size(),
            ).push(buf@),
            final(self).results().len() == old(self).results().len() + 1,
            final(self).results().drop_last() == old(self).results(),
            holds(final(self).results().last(), tally(buf@)),
    {
        let h: [C; 256] = fold_bytes(buf);
        let n: u64 = buf.len() as u64;
        let ghost prev = self.seen@;
        let ghost old_hs = self.histograms@;
        proof {
            lemma_chunks_append(prev, buf@, self.chunk as nat);
            if n == self.chunk {
                vstd::arithmetic::div_mod::lemma_mod_add_multiples_vanish(
                    self.done as int,
                    self.chunk as int,
                );
            }
        }
        self.histograms.push(h);
        self.done = self.done + n;
        self.seen = Ghost(prev + buf@);
        proof {
            assert(self.histograms@.drop_last() =~= old_hs);
            assert forall|k: int| 0 <= k < self.histograms@.len() implies holds(
                #[trigger] self.histograms@[k],
                tally(chunks_of(self.seen@, self.chunk as nat)[k]),
            ) by {
                if k < old_hs.len() {
                    assert(self.histograms@[k] == old_hs[k]);
                }
            }
        }
    }

    /// The per-chunk histograms of a completed scan, in stream order: one
    /// for each chunk of the bytes read.
    pub fn into_histograms(self) -> (r: Vec<[C; 256]>)
        requires
            self.wf(),
            self.pending() is None,
        ensures
            self.seen().len() == self.range().size(),
            all_hold(r@, self.seen(), self.chunk_size()),
    {
        self.histograms
    }

    /// The histogram of a completed whole-range scan: all zero for an empty
    /// range.
    pub fn into_histogram(self) -> (r: [C; 256])
        requires
            self.wf(),
            self.pending() is None,
            self.chunk_size() == self.range().size(),
        ensures
            self.seen().len() == self.range().size(),
            holds(r, tally(self.seen())),
    {
        if self.histograms.len() == 0 {
            proof {
                assert(self.seen@ =~= Seq::<u8>::empty());
            }
            fold_bytes(&[])
        } else {
            proof {
                assert(chunks_of(self.seen@, self.chunk as nat)[0] == self.seen@);
            }
            self.histograms[0]
        }
    }
}

} // verus!

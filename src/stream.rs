//! An in-memory seekable stream that runs scans to completion and keeps a
//! record of every seek and read it was asked to perform.
use vstd::prelude::*;
use crate::chunks::{chunk_len, chunks_of};
use crate::counts::{Counter, holds, tally};
use crate::range::{ByteRange, InvalidRange};
use crate::scan::{IoRequest, Scan, all_hold};

verus! {

/// The reads that scanning `content` in chunks of `cs` bytes performs, one
/// per chunk.
pub open spec fn chunk_reads(content: Seq<u8>, cs: nat) -> Seq<IoRequest> {
    chunks_of(content, cs).map_values(|c: Seq<u8>| IoRequest::Read(c.len() as u64))
}

/// The I/O that scanning `range`, whose bytes are `content`, in chunks of
/// `cs` bytes performs: nothing for an empty range; otherwise one seek to the
/// start, then the chunk reads in order, with no seek between them.
pub open spec fn scan_trace(range: ByteRange, content: Seq<u8>, cs: nat) -> Seq<IoRequest> {
    if range.size() == 0 {
        seq![]
    } else {
        seq![IoRequest::Seek(range.start)] + chunk_reads(content, cs)
    }
}

/// A byte stream held in memory, with a cursor and a record of the I/O
/// performed on it.
pub struct MemStream {
    data: Vec<u8>,
    cursor: u64,
    log: Vec<IoRequest>,
}

impl MemStream {
    /// The stream's bytes.
    pub closed spec fn content(&self) -> Seq<u8> {
        self.data@
    }

    /// The seeks and reads performed so far, in order.
    pub closed spec fn trace(&self) -> Seq<IoRequest> {
        self.log@
    }

    pub closed spec fn cursor(&self) -> nat {
        self.cursor as nat
    }

    /// A stream over `data`, positioned at its start, with no I/O recorded.
    pub fn new(data: Vec<u8>) -> (r: MemStream)
        ensures
            r.content() == data@,
            r.trace() == Seq::<IoRequest>::empty(),
    {
        MemStream { data, cursor: 0, log: Vec::new() }
    }

    /// Total length of the stream in bytes.
    pub fn len(&self) -> (r: u64)
        ensures
            r == self.content().len(),
    {
        self.data.len() as u64
    }

    /// The seeks and reads performed so far, in order.
    pub fn requests(&self) -> (r: &[IoRequest])
        ensures
            r@ == self.trace(),
    {
        self.log.as_slice()
    }

    fn seek(&mut self, pos: u64)
        ensures
            final(self).content() == old(self).content(),
            final(self).trace() == old(self).trace().push(IoRequest::Seek(pos)),
            final(self).cursor() == pos,
    {
        self.log.push(IoRequest::Seek(pos));
        self.cursor = pos;
    }

    /// Reads exactly `n` bytes at the cursor; fails, leaving the cursor
    /// where it was, when fewer remain.
    fn read_exact(&mut self, n: u64) -> (r: Option<Vec<u8>>)
        ensures
            final(self).content() == old(self).content(),
            final(self).trace() == old(self).trace().push(IoRequest::Read(n)),
            r is Some <==> old(self).cursor() + n <= old(self).content().len(),
            r matches Some(buf) ==> {
                &&& final(self).cursor() == old(self).cursor() + n
                &&& buf@ == old(self).content().subrange(
                    old(self).cursor() as int,
                    old(self).cursor() + n,
                )
            },
    {
        self.log.push(IoRequest::Read(n));
        let len: u64 = self.data.len() as u64;
        if self.cursor > len || n > len - self.cursor {
            return None;
        }
        let from: usize = self.cursor as usize;
        let to: usize = from + (n as usize);
        let r = vstd::slice::slice_to_vec(vstd::slice::slice_subrange(self.data.as_slice(), from, to));
        self.cursor = self.cursor + n;
        Some(r)
    }

    /// Performs the I/O a fresh scan asks for until it is complete.
    fn run<C: Counter>(&mut self, scan: &mut Scan<C>)
        requires
            old(scan).wf(),
            !old(scan).positioned(),
            old(scan).seen() == Seq::<u8>::empty(),
            old(scan).range().fits(old(self).content().len()),
        ensures
            final(scan).wf(),
            final(scan).pending() is None,
            final(scan).range() == old(scan).range(),
            final(scan).chunk_size() == old(scan).chunk_size(),
            final(scan).seen() == old(self).content().subrange(
                old(scan).range().start as int,
                old(scan).range().end as int,
            ),
            final(self).content() == old(self).content(),
            final(self).trace() == old(self).trace() + scan_trace(
                old(scan).range(),
                final(scan).seen(),
                old(scan).chunk_size(),
            ),
    {
        let ghost range = scan.range();
        let ghost cs = scan.chunk_size();
        let ghost log0 = self.log@;
        let ghost data = self.data@;
        loop
            invariant
                scan.wf(),
                scan.range() == range,
                scan.chunk_size() == cs,
                range.fits(data.len()),
                self.data@ == data,
                scan.seen() == data.subrange(
                    range.start as int,
                    range.start + scan.seen().len(),
                ),
                scan.positioned() ==> self.cursor() == range.start + scan.seen().len(),
                !scan.positioned() ==> scan.seen().len() == 0,
                scan.positioned() ==> range.size() > 0,
                self.log@ == log0 + if scan.positioned() {
                    seq![IoRequest::Seek(range.start)] + chunk_reads(scan.seen(), cs)
                } else {
                    Seq::<IoRequest>::empty()
                },
            ensures
                scan.wf(),
                scan.pending() is None,
                scan.range() == range,
                scan.chunk_size() == cs,
                self.data@ == data,
                scan.seen() == data.subrange(range.start as int, range.end as int),
                self.log@ == log0 + scan_trace(range, scan.seen(), cs),
            decreases range.size() - scan.seen().len(), if scan.positioned() {
                0int
            } else {
                1int
            },
        {
            proof {
                scan.lemma_wf();
            }
            match scan.next_request() {
                None => {
                    proof {
                        if range.size() == 0 {
                            assert(log0 + Seq::<IoRequest>::empty() =~= log0);
                        }
                    }
                    break ;
                },
                Some(IoRequest::Seek(pos)) => {
                    self.seek(pos);
                    scan.sought();
                    proof {
                        assert(chunks_of(scan.seen(), cs) =~= Seq::<Seq<u8>>::empty());
                        assert(chunk_reads(scan.seen(), cs) =~= Seq::<IoRequest>::empty());
                        assert(log0 + Seq::<IoRequest>::empty() =~= log0);
                        assert(self.log@ =~= log0 + (seq![IoRequest::Seek(range.start)]
                            + chunk_reads(scan.seen(), cs)));
                    }
                },
                Some(IoRequest::Read(n)) => {
                    let ghost before = scan.seen();
                    let buf = match self.read_exact(n) {
                        Some(buf) => buf,
                        None => {
                            proof {
                                assert(false);
                            }
                            break ;
                        },
                    };
                    scan.fold_chunk(buf.as_slice());
                    proof {
                        scan.lemma_wf();
                        assert(scan.seen() =~= data.subrange(
                            range.start as int,
                            range.start + scan.seen().len(),
                        ));
                        assert(chunk_reads(scan.seen(), cs) =~= chunk_reads(before, cs).push(
                            IoRequest::Read(n),
                        ));
                        assert(self.log@ =~= log0 + (seq![IoRequest::Seek(range.start)]
                            + chunk_reads(scan.seen(), cs)));
                    }
                },
            }
        }
    }

    /// The byte histogram of `[start, end)`: bucket `b` holds the number of
    /// bytes equal to `b` in the range, wrapped at the counter's width. Fails
    /// with no I/O when the range does not lie within the stream; otherwise
    /// seeks once to `start` and reads the range in one piece (no I/O at all
    /// for an empty range).
    pub fn histogram<C: Counter>(&mut self, start: u64, end: u64) -> (r: Result<
        [C; 256],
        InvalidRange,
    >)
        ensures
            final(self).content() == old(self).content(),
            r is Ok <==> start <= end && end <= old(self).content().len(),
            r matches Err(e) ==> {
                &&& e == (InvalidRange { start, end, stream_len: old(self).content().len() as u64 })
                &&& final(self).trace() == old(self).trace()
            },
            r matches Ok(h) ==> {
                let content = old(self).content().subrange(start as int, end as int);
                &&& holds(h, tally(content))
                &&& final(self).trace() == old(self).trace() + scan_trace(
                    ByteRange { start, end },
                    content,
                    content.len(),
                )
            },
    {
        let stream_len: u64 = self.data.len() as u64;
        match Scan::<C>::whole(start, end, stream_len) {
            Ok(scan) => {
                let mut scan = scan;
                self.run(&mut scan);
                Ok(scan.into_histogram())
            },
            Err(e) => Err(e),
        }
    }

    /// The histograms of `[start, end)` taken chunk by chunk, in stream
    /// order, with chunks of `accuracy` bytes (clamped to the range's size;
    /// zero means one chunk for the whole range): an empty sequence for an
    /// empty range. Fails with no I/O when the range does not lie within the
    /// stream; otherwise seeks once to `start` and then reads each chunk in
    /// turn, with no seek in between.
    pub fn histogram_delta<C: Counter>(&mut self, start: u64, end: u64, accuracy: u64) -> (r:
        Result<Vec<[C; 256]>, InvalidRange>)
        ensures
            final(self).content() == old(self).content(),
            r is Ok <==> start <= end && end <= old(self).content().len(),
            r matches Err(e) ==> {
                &&& e == (InvalidRange { start, end, stream_len: old(self).content().len() as u64 })
                &&& final(self).trace() == old(self).trace()
            },
            r matches Ok(hs) ==> {
                let content = old(self).content().subrange(start as int, end as int);
                let cs = chunk_len(content.len(), accuracy as nat);
                &&& all_hold(hs@, content, cs)
                &&& final(self).trace() == old(self).trace() + scan_trace(
                    ByteRange { start, end },
                    content,
                    cs,
                )
            },
    {
        let stream_len: u64 = self.data.len() as u64;
        match Scan::<C>::delta(start, end, accuracy, stream_len) {
            Ok(scan) => {
                let mut scan = scan;
                self.run(&mut scan);
                Ok(scan.into_histograms())
            },
            Err(e) => Err(e),
        }
    }
}

} // verus!

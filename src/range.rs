//! Checking a requested byte range against the stream's length.
use vstd::prelude::*;

verus! {

/// A half-open byte range `[start, end)`, relative to the stream's origin.
#[derive(Clone, Copy, Debug, PartialEq, Eq, Structural)]
pub struct ByteRange {
    pub start: u64,
    pub end: u64,
}

impl ByteRange {
    /// Number of bytes the range covers.
    pub open spec fn size(self) -> nat {
        (self.end - self.start) as nat
    }

    /// The range lies within a stream of `stream_len` bytes.
    pub open spec fn fits(self, stream_len: nat) -> bool {
        self.start <= self.end && self.end <= stream_len
    }

    pub fn len(&self) -> (r: u64)
        requires
            self.start <= self.end,
        ensures
            r == self.size(),
    {
        self.end - self.start
    }
}

/// A request for `[start, end)` that does not lie within the stream.
#[derive(Clone, Copy, Debug, PartialEq, Eq, Structural)]
pub struct InvalidRange {
    pub start: u64,
    pub end: u64,
    pub stream_len: u64,
}

/// Accepts `[start, end)` exactly when `start <= end <= stream_len`.
pub fn validate_range(start: u64, end: u64, stream_len: u64) -> (r: Result<ByteRange, InvalidRange>)
    ensures
        r is Ok <==> start <= end && end <= stream_len,
        r matches Ok(g) ==> g == (ByteRange { start, end }),
        r matches Err(e) ==> e == (InvalidRange { start, end, stream_len }),
{
    if start <= end && end <= stream_len {
        Ok(ByteRange { start, end })
    } else {
        Err(InvalidRange { start, end, stream_len })
    }
}

} // verus!

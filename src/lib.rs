//! Byte-frequency histograms over sub-ranges of a seekable byte stream.
//!
//! The range checks, the chunk partitioning and the counting are verified
//! here; the stream itself is driven by the caller through [`scan::Scan`],
//! which says at each step which seek or read to perform next.
use vstd::prelude::*;

pub mod counts;
pub mod laws;
pub mod chunks;
pub mod range;
pub mod scan;
pub mod stream;

verus! {

} // verus!

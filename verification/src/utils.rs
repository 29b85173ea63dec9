//! Errors that frame processing can raise, and the chunk planning used to
//! split a request for a data-parallel driver.

use vstd::prelude::*;
use crate::dimensions::DimensionsError;

verus! {

/// What a read failed on: a strip or tag pointing outside the file, a strip
/// whose byte count does not divide into whole words, or one too large for
/// the reader's accumulators.
#[derive(Debug, Clone, Copy, PartialEq, Eq, Structural)]
pub enum IoFault {
    UnexpectedEof,
    MisalignedStrip,
    StripTooLarge,
}

/// Errors that can occur due to frame processing problems, either from the
/// byte-level reader (the `IOError` variant) or the values of the requested
/// frames (incompatible dimensions, an out-of-bounds request, a malformed
/// strip, or a registration table that misses a requested frame).
#[derive(Debug, Clone)]
pub enum FramesError {
    FormatError,
    DimensionsError(DimensionsError),
    IOError(IoFault),
    RegistrationFramesMissing,
}

/// The half-open index ranges `[start, end)` that split a request of `n`
/// items into chunks of at most `chunk_size`: the work-partitioning plan a
/// parallel driver hands its workers. Consecutive, covering, and disjoint
/// by construction.
pub fn plan_chunks(n: usize, chunk_size: usize) -> (r: Vec<(usize, usize)>)
    requires
        0 < chunk_size,
    ensures
        r@.len() > 0 ==> r@[0].0 == 0,
        r@.len() > 0 ==> r@[r@.len() - 1].1 == n,
        n == 0 ==> r@.len() == 0,
        n > 0 ==> r@.len() > 0,
        forall|k: int| 0 <= k < r@.len() ==> #[trigger] r@[k].0 < r@[k].1,
        forall|k: int| 0 <= k < r@.len() ==> #[trigger] r@[k].1 - r@[k].0 <= chunk_size,
        forall|k: int| 0 < k < r@.len() ==> #[trigger] r@[k].0 == r@[k - 1].1,
        forall|k: int| 0 <= k < r@.len() ==> #[trigger] r@[k].1 <= n,
{
    let mut r: Vec<(usize, usize)> = Vec::new();
    let mut start: usize = 0;
    while start < n
        invariant
            0 < chunk_size,
            start <= n,
            r@.len() > 0 ==> r@[0].0 == 0,
            r@.len() > 0 ==> r@[r@.len() - 1].1 == start,
            start > 0 ==> r@.len() > 0,
            start == 0 ==> r@.len() == 0,
            forall|k: int| 0 <= k < r@.len() ==> #[trigger] r@[k].0 < r@[k].1,
            forall|k: int| 0 <= k < r@.len() ==> #[trigger] r@[k].1 - r@[k].0 <= chunk_size,
            forall|k: int| 0 < k < r@.len() ==> #[trigger] r@[k].0 == r@[k - 1].1,
            forall|k: int| 0 <= k < r@.len() ==> #[trigger] r@[k].1 <= start,
        decreases n - start,
    {
        let end: usize = if n - start < chunk_size {
            n
        } else {
            start + chunk_size
        };
        r.push((start, end));
        start = end;
    }
    r
}

} // verus!

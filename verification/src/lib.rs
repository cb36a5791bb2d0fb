//! Bulk image-to-WebP conversion library.
//!
//! The pipeline is: scan a directory tree for candidate image files,
//! map each input path to an output path, skip files whose output
//! already exists, convert the rest in parallel, and aggregate the
//! results into run statistics for reporting.

use vstd::prelude::*;

pub mod paths;
pub mod scan;
pub mod filter;
pub mod stats;
pub mod report;
pub mod convert;

verus! {

/// Clamp a requested encoder quality into the accepted range `1..=100`.
pub fn clamp_quality(q: u8) -> (r: u8)
    ensures
        1 <= r <= 100,
        1 <= q <= 100 ==> r == q,
        q == 0 ==> r == 1,
        q > 100 ==> r == 100,
{
    if q < 1 {
        1
    } else if q > 100 {
        100
    } else {
        q
    }
}

/// The worker count a run uses: the configured value when one was given,
/// else the detected parallelism of the host, else four.
pub open spec fn workers_spec(requested: usize, detected: Option<usize>) -> int {
    if requested > 0 {
        requested as int
    } else {
        match detected {
            Some(n) => if n > 0 {
                n as int
            } else {
                4
            },
            None => 4,
        }
    }
}

/// The number of parallel workers: an explicit request wins; otherwise
/// the detected core count, with four as the fallback.
pub fn effective_workers(requested: usize, detected: Option<usize>) -> (r: usize)
    ensures
        r as int == workers_spec(requested, detected),
        r > 0,
{
    if requested > 0 {
        requested
    } else {
        match detected {
            Some(n) => if n > 0 {
                n
            } else {
                4
            },
            None => 4,
        }
    }
}

} // verus!

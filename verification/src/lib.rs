//! Extraction core for compressed-video records embedded in a recorded
//! message log: decoding the record wire format, classifying topics,
//! detecting the codec, aggregating per-topic time spans, pacing frames,
//! and driving a single extraction run against an external frame sink.

pub mod cdr;
pub mod extract;
pub mod format;
pub mod pacer;
pub mod stream;
pub mod summary;

use vstd::prelude::*;

verus! {

/// Nanoseconds assigned to a frame when no earlier frame exists to pace
/// against: an assumed 30 frames per second.
pub const DEFAULT_FRAME_DURATION_NS: u64 = 1_000_000_000 / 30;

} // verus!

//! Frame pacing: a frame is shown at its record's publish time; its duration
//! is the spacing to the previous frame, floored at one nanosecond so that
//! equal or decreasing publish times still give a positive duration, with an
//! assumed-30fps default for the first frame.

use vstd::prelude::*;
use crate::DEFAULT_FRAME_DURATION_NS;

verus! {

/// One frame ready for the sink: when to show it, for how long, and its
/// encoded bytes.
pub struct PacedFrame {
    pub presentation_time_ns: u64,
    pub duration_ns: u64,
    pub payload: Vec<u8>,
}

/// The duration paced for a frame published at `current` after one published
/// at `prev`: their spacing, at least one nanosecond; the default when no
/// frame came before.
pub open spec fn pace_duration(prev: Option<u64>, current: u64) -> u64 {
    match prev {
        None => DEFAULT_FRAME_DURATION_NS,
        Some(p) => if current > p {
            (current - p) as u64
        } else {
            1
        },
    }
}

/// Law: every paced duration is strictly positive, whatever the spacing —
/// equal and decreasing publish times included.
pub proof fn lemma_duration_positive(prev: Option<u64>, current: u64)
    ensures
        pace_duration(prev, current) >= 1,
{
}

/// Paces one topic's frames in arrival order, carrying the previous frame's
/// publish time; fresh per extraction run, never shared across topics.
pub struct FramePacer {
    pub prev_publish: Option<u64>,
}

impl FramePacer {
    /// A pacer that has seen no frame yet.
    pub fn new() -> (s: Self)
        ensures
            s.prev_publish is None,
    {
        FramePacer { prev_publish: None }
    }

    /// Wrap one record's payload with its presentation time and a duration.
    pub fn pace(&mut self, publish_time_ns: u64, payload: Vec<u8>) -> (f: PacedFrame)
        ensures
            f.presentation_time_ns == publish_time_ns,
            f.duration_ns == pace_duration(old(self).prev_publish, publish_time_ns),
            f.payload == payload,
            final(self).prev_publish == Some(publish_time_ns),
    {
        let duration_ns: u64 = match self.prev_publish {
            None => DEFAULT_FRAME_DURATION_NS,
            Some(p) => if publish_time_ns > p {
                publish_time_ns - p
            } else {
                1
            },
        };
        self.prev_publish = Some(publish_time_ns);
        PacedFrame { presentation_time_ns: publish_time_ns, duration_ns, payload }
    }
}

} // verus!

//! One extraction run as a state machine. Detection settles the codec before
//! any sink exists; a sink is then built and started; records stream through
//! decode and pacing into it; the sink drains under a bounded wait; and
//! teardown always comes before the outcome is read, on every path that
//! built a sink. The sink itself is outside work: the caller performs each
//! action and feeds what happened back as an event.

use vstd::prelude::*;
use crate::cdr::{decode_compressed_video, decode_spec};
use crate::format::{is_hit, DetectionError, VideoFormat};
use crate::pacer::{pace_duration, FramePacer, PacedFrame};
use crate::stream::{is_video_message, str_eq, LogMessage};

verus! {

/// Why an extraction run failed.
#[derive(Debug)]
pub enum ExtractionError {
    /// The topic's first decodable record names a codec outside the
    /// supported set; carries the raw label.
    UnsupportedFormat(String),
    /// The topic has no decodable record of the target schema.
    NoVideoOnTopic,
    /// The frame sink could not be built or started.
    SinkConstruction(String),
    /// The sink rejected a pushed frame.
    PushFailed(String),
    /// The sink acknowledged a push with an unexpected, non-success signal.
    UnexpectedPush(String),
    /// The sink reported an error while draining.
    SinkReported(String),
    /// The sink reported neither completion nor error within the wait.
    DrainTimeout,
}

/// How the sink acknowledged one pushed frame.
pub enum PushResult {
    Accepted,
    Unexpected(String),
    Failed(String),
}

/// What the bounded wait for the drain produced.
pub enum DrainSignal {
    Completed,
    Failed(String),
}

/// Where a run stands.
#[derive(Debug, Clone, Copy, PartialEq, Eq, Structural)]
pub enum RunPhase {
    Detecting,
    SinkBuilding,
    Streaming,
    Draining,
    TearingDown,
    Done,
}

/// What a completed run reports.
#[derive(Debug, Clone, Copy)]
pub struct ExtractionReport {
    pub frames_pushed: u64,
    pub format: VideoFormat,
}

/// One topic's extraction run. The caller owns the sink and the stream; the
/// run owns every decision: which records become frames, their timing, when
/// streaming stops, and what the outcome is.
pub struct ExtractionRun {
    pub topic: String,
    pub phase: RunPhase,
    pub format: Option<VideoFormat>,
    pub pacer: FramePacer,
    pub frames_pushed: u64,
    pub failure: Option<ExtractionError>,
}

impl ExtractionRun {
    /// A run for one topic, about to detect its codec.
    pub fn new(topic: String) -> (s: Self)
        ensures
            s.topic == topic,
            s.phase == RunPhase::Detecting,
            s.format is None,
            s.pacer.prev_publish is None,
            s.frames_pushed == 0,
            s.failure is None,
    {
        ExtractionRun {
            topic,
            phase: RunPhase::Detecting,
            format: None,
            pacer: FramePacer::new(),
            frames_pushed: 0,
            failure: None,
        }
    }

    /// Detection settled: a supported codec moves the run to sink building; a
    /// detection failure ends the run at once, with no sink to tear down.
    pub fn set_detection(&mut self, r: Result<VideoFormat, DetectionError>)
        requires
            old(self).phase == RunPhase::Detecting,
            old(self).failure is None,
            old(self).format is None,
        ensures
            final(self).topic == old(self).topic,
            final(self).pacer == old(self).pacer,
            final(self).frames_pushed == old(self).frames_pushed,
            match r {
                Ok(f) => final(self).phase == RunPhase::SinkBuilding && final(self).format == Some(
                    f,
                ) && final(self).failure is None,
                Err(DetectionError::UnsupportedFormat(l)) => final(self).phase == RunPhase::Done
                    && final(self).format is None && final(self).failure == Some(
                    ExtractionError::UnsupportedFormat(l),
                ),
                Err(DetectionError::NoVideoOnTopic) => final(self).phase == RunPhase::Done && final(self).format is None && final(self).failure == Some(ExtractionError::NoVideoOnTopic),
            },
    {
        match r {
            Ok(f) => {
                self.format = Some(f);
                self.phase = RunPhase::SinkBuilding;
            },
            Err(DetectionError::UnsupportedFormat(l)) => {
                self.failure = Some(ExtractionError::UnsupportedFormat(l));
                self.phase = RunPhase::Done;
            },
            Err(DetectionError::NoVideoOnTopic) => {
                self.failure = Some(ExtractionError::NoVideoOnTopic);
                self.phase = RunPhase::Done;
            },
        }
    }

    /// Sink construction and start reported: success begins streaming; a
    /// failure ends the run (nothing was started, so nothing is torn down).
    pub fn on_sink_built(&mut self, r: Result<(), String>)
        requires
            old(self).phase == RunPhase::SinkBuilding,
            old(self).failure is None,
        ensures
            final(self).topic == old(self).topic,
            final(self).format == old(self).format,
            final(self).pacer == old(self).pacer,
            final(self).frames_pushed == old(self).frames_pushed,
            match r {
                Ok(u) => final(self).phase == RunPhase::Streaming && final(self).failure is None,
                Err(d) => final(self).phase == RunPhase::Done && final(self).failure == Some(
                    ExtractionError::SinkConstruction(d),
                ),
            },
    {
        match r {
            Ok(_) => {
                self.phase = RunPhase::Streaming;
            },
            Err(d) => {
                self.failure = Some(ExtractionError::SinkConstruction(d));
                self.phase = RunPhase::Done;
            },
        }
    }

    /// Offer one record from the stream, in arrival order: a record of the
    /// target schema on the run's topic that decodes becomes the next paced
    /// frame to push; every other record — other topics, other schemas,
    /// bytes that fit neither serialization — is skipped, decode failures
    /// deliberately without ending the run.
    pub fn offer(&mut self, msg: &LogMessage) -> (r: Option<PacedFrame>)
        requires
            old(self).phase == RunPhase::Streaming,
        ensures
            final(self).topic == old(self).topic,
            final(self).phase == old(self).phase,
            final(self).format == old(self).format,
            final(self).frames_pushed == old(self).frames_pushed,
            final(self).failure == old(self).failure,
            match r {
                Some(f) => is_hit(msg@, old(self).topic@) && (decode_spec(msg@.data) matches Some(
                    v,
                ) && f.payload@ == v.data) && f.presentation_time_ns == msg.publish_time
                    && f.duration_ns == pace_duration(
                    old(self).pacer.prev_publish,
                    msg.publish_time,
                ) && final(self).pacer.prev_publish == Some(msg.publish_time),
                None => !is_hit(msg@, old(self).topic@) && final(self).pacer == old(self).pacer,
            },
    {
        if !is_video_message(msg) || !str_eq(msg.topic.as_str(), self.topic.as_str()) {
            return None;
        }
        match decode_compressed_video(msg.data.as_slice()) {
            Err(_) => None,
            Ok(v) => Some(self.pacer.pace(msg.publish_time, v.data)),
        }
    }

    /// The sink acknowledged one pushed frame: accepted frames are counted;
    /// an unexpected or failed acknowledgment latches that failure and stops
    /// streaming — the run still drains, so the sink is still torn down.
    pub fn on_push_result(&mut self, r: PushResult)
        requires
            old(self).phase == RunPhase::Streaming,
            old(self).failure is None,
            old(self).frames_pushed < u64::MAX,
        ensures
            final(self).topic == old(self).topic,
            final(self).format == old(self).format,
            final(self).pacer == old(self).pacer,
            match r {
                PushResult::Accepted => final(self).phase == RunPhase::Streaming && final(self).frames_pushed == old(self).frames_pushed + 1 && final(self).failure is None,
                PushResult::Unexpected(d) => final(self).phase == RunPhase::Draining && final(self).frames_pushed == old(self).frames_pushed && final(self).failure == Some(
                    ExtractionError::UnexpectedPush(d),
                ),
                PushResult::Failed(d) => final(self).phase == RunPhase::Draining && final(self).frames_pushed == old(self).frames_pushed && final(self).failure == Some(
                    ExtractionError::PushFailed(d),
                ),
            },
    {
        match r {
            PushResult::Accepted => {
                self.frames_pushed = self.frames_pushed + 1;
            },
            PushResult::Unexpected(d) => {
                self.failure = Some(ExtractionError::UnexpectedPush(d));
                self.phase = RunPhase::Draining;
            },
            PushResult::Failed(d) => {
                self.failure = Some(ExtractionError::PushFailed(d));
                self.phase = RunPhase::Draining;
            },
        }
    }

    /// The stream is exhausted: streaming ends and the run drains the sink.
    pub fn finish_streaming(&mut self)
        requires
            old(self).phase == RunPhase::Streaming,
        ensures
            final(self).phase == RunPhase::Draining,
            final(self).topic == old(self).topic,
            final(self).format == old(self).format,
            final(self).pacer == old(self).pacer,
            final(self).frames_pushed == old(self).frames_pushed,
            final(self).failure == old(self).failure,
    {
        self.phase = RunPhase::Draining;
    }

    /// The bounded wait for the drain ended: a completion signal leaves a
    /// clean run to report success; an error signal is the sink's own failure,
    /// kept verbatim; no signal within the wait is a timeout. A failure
    /// latched during streaming stands over any of these. Teardown comes
    /// next on every one of these paths.
    pub fn on_drain_signal(&mut self, sig: Option<DrainSignal>)
        requires
            old(self).phase == RunPhase::Draining,
        ensures
            final(self).phase == RunPhase::TearingDown,
            final(self).topic == old(self).topic,
            final(self).format == old(self).format,
            final(self).pacer == old(self).pacer,
            final(self).frames_pushed == old(self).frames_pushed,
            old(self).failure is Some ==> final(self).failure == old(self).failure,
            old(self).failure is None ==> final(self).failure == (match sig {
                Some(DrainSignal::Completed) => None::<ExtractionError>,
                Some(DrainSignal::Failed(d)) => Some(ExtractionError::SinkReported(d)),
                None => Some(ExtractionError::DrainTimeout),
            }),
    {
        if self.failure.is_none() {
            match sig {
                Some(DrainSignal::Completed) => {},
                Some(DrainSignal::Failed(d)) => {
                    self.failure = Some(ExtractionError::SinkReported(d));
                },
                None => {
                    self.failure = Some(ExtractionError::DrainTimeout);
                },
            }
        }
        self.phase = RunPhase::TearingDown;
    }

    /// The sink is torn down: the run is terminal. The phases force this to
    /// happen exactly once, after the drain and before the outcome is read.
    pub fn confirm_teardown(&mut self)
        requires
            old(self).phase == RunPhase::TearingDown,
        ensures
            final(self).phase == RunPhase::Done,
            final(self).topic == old(self).topic,
            final(self).format == old(self).format,
            final(self).pacer == old(self).pacer,
            final(self).frames_pushed == old(self).frames_pushed,
            final(self).failure == old(self).failure,
    {
        self.phase = RunPhase::Done;
    }

    /// The finished run's outcome: frame count and codec on success, else the
    /// first failure, verbatim.
    pub fn into_report(self) -> (r: Result<ExtractionReport, ExtractionError>)
        requires
            self.phase == RunPhase::Done,
            self.failure is None ==> self.format is Some,
        ensures
            self.failure matches Some(e) ==> r == Err::<ExtractionReport, ExtractionError>(e),
            self.failure is None ==> (r matches Ok(rep) && rep.frames_pushed == self.frames_pushed
                && rep.format == self.format.unwrap()),
    {
        match self.failure {
            Some(e) => Err(e),
            None => match self.format {
                Some(f) => Ok(ExtractionReport { frames_pushed: self.frames_pushed, format: f }),
                None => vstd::pervasive::unreached(),
            },
        }
    }
}

} // verus!

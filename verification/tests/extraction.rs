use mcap_video_extract::extract::{
    DrainSignal, ExtractionError, ExtractionRun, PushResult, RunPhase,
};
use mcap_video_extract::format::{detect, VideoFormat};
use mcap_video_extract::stream::LogMessage;

const SCHEMA: &str = "foxglove.CompressedVideo";

fn push_u32_le(v: &mut Vec<u8>, x: u32) {
    v.extend_from_slice(&x.to_le_bytes());
}

fn pad4(v: &mut Vec<u8>) {
    while v.len() % 4 != 0 {
        v.push(0);
    }
}

fn push_str_le(v: &mut Vec<u8>, s: &[u8]) {
    push_u32_le(v, (s.len() + 1) as u32);
    v.extend_from_slice(s);
    v.push(0);
}

fn record(sec: u32, nsec: u32, data: &[u8], format: &str) -> Vec<u8> {
    let mut v = vec![0u8, 1, 0, 0];
    push_u32_le(&mut v, sec);
    push_u32_le(&mut v, nsec);
    push_str_le(&mut v, b"f");
    pad4(&mut v);
    push_u32_le(&mut v, data.len() as u32);
    v.extend_from_slice(data);
    pad4(&mut v);
    push_str_le(&mut v, format.as_bytes());
    v
}

fn msg(topic: &str, publish_time: u64, data: Vec<u8>) -> LogMessage {
    LogMessage {
        topic: topic.to_string(),
        schema: Some(SCHEMA.to_string()),
        publish_time,
        data,
    }
}

fn cam_stream() -> Vec<LogMessage> {
    vec![
        msg("/cam", 0, record(0, 0, &[1], "h264")),
        msg("/cam", 33_000_000, record(0, 33_000_000, &[2], "h264")),
        msg("/cam", 66_000_000, record(0, 66_000_000, &[3], "h264")),
    ]
}

#[test]
fn three_records_end_to_end() {
    let msgs = cam_stream();
    let mut run = ExtractionRun::new("/cam".to_string());
    run.set_detection(detect(&msgs, "/cam"));
    assert_eq!(run.phase, RunPhase::SinkBuilding);
    assert_eq!(run.format, Some(VideoFormat::H264));
    run.on_sink_built(Ok(()));
    assert_eq!(run.phase, RunPhase::Streaming);

    let mut times = Vec::new();
    let mut durations = Vec::new();
    for m in &msgs {
        if let Some(f) = run.offer(m) {
            times.push(f.presentation_time_ns);
            durations.push(f.duration_ns);
            run.on_push_result(PushResult::Accepted);
        }
    }
    run.finish_streaming();
    run.on_drain_signal(Some(DrainSignal::Completed));
    run.confirm_teardown();
    let report = run.into_report().unwrap();

    assert_eq!(report.frames_pushed, 3);
    assert_eq!(report.format, VideoFormat::H264);
    assert_eq!(times, vec![0, 33_000_000, 66_000_000]);
    assert_eq!(durations, vec![33_333_333, 33_000_000, 33_000_000]);
}

#[test]
fn offer_skips_other_topics_and_malformed_records() {
    let mut run = ExtractionRun::new("/cam".to_string());
    run.set_detection(Ok(VideoFormat::H264));
    run.on_sink_built(Ok(()));
    assert!(run.offer(&msg("/other", 5, record(0, 5, &[1], "h264"))).is_none());
    assert!(run.offer(&msg("/cam", 6, vec![1, 2, 3])).is_none());
    let mut no_schema = msg("/cam", 7, record(0, 7, &[1], "h264"));
    no_schema.schema = None;
    assert!(run.offer(&no_schema).is_none());
    // The pacer never saw those, so the next real frame is still the first.
    let f = run.offer(&msg("/cam", 8, record(0, 8, &[1], "h264"))).unwrap();
    assert_eq!(f.duration_ns, 33_333_333);
}

#[test]
fn detection_failure_ends_the_run_without_a_sink() {
    let msgs = vec![msg("/cam", 0, record(0, 0, &[1], "vp9"))];
    let mut run = ExtractionRun::new("/cam".to_string());
    run.set_detection(detect(&msgs, "/cam"));
    assert_eq!(run.phase, RunPhase::Done);
    match run.into_report() {
        Err(ExtractionError::UnsupportedFormat(l)) => assert_eq!(l, "vp9"),
        _ => panic!("expected UnsupportedFormat"),
    }
}

#[test]
fn sink_construction_failure_ends_the_run() {
    let mut run = ExtractionRun::new("/cam".to_string());
    run.set_detection(Ok(VideoFormat::H264));
    run.on_sink_built(Err("no muxer".to_string()));
    assert_eq!(run.phase, RunPhase::Done);
    match run.into_report() {
        Err(ExtractionError::SinkConstruction(d)) => assert_eq!(d, "no muxer"),
        _ => panic!("expected SinkConstruction"),
    }
}

#[test]
fn push_failure_latches_and_still_drains() {
    let msgs = cam_stream();
    let mut run = ExtractionRun::new("/cam".to_string());
    run.set_detection(Ok(VideoFormat::H264));
    run.on_sink_built(Ok(()));
    let _ = run.offer(&msgs[0]).unwrap();
    run.on_push_result(PushResult::Failed("pipe broke".to_string()));
    assert_eq!(run.phase, RunPhase::Draining);
    // The sink completed its drain, but the earlier push failure stands.
    run.on_drain_signal(Some(DrainSignal::Completed));
    run.confirm_teardown();
    match run.into_report() {
        Err(ExtractionError::PushFailed(d)) => assert_eq!(d, "pipe broke"),
        _ => panic!("expected PushFailed"),
    }
}

#[test]
fn unexpected_push_acknowledgment_latches() {
    let msgs = cam_stream();
    let mut run = ExtractionRun::new("/cam".to_string());
    run.set_detection(Ok(VideoFormat::H264));
    run.on_sink_built(Ok(()));
    let _ = run.offer(&msgs[0]).unwrap();
    run.on_push_result(PushResult::Unexpected("flushing".to_string()));
    run.on_drain_signal(Some(DrainSignal::Completed));
    run.confirm_teardown();
    match run.into_report() {
        Err(ExtractionError::UnexpectedPush(d)) => assert_eq!(d, "flushing"),
        _ => panic!("expected UnexpectedPush"),
    }
}

#[test]
fn sink_error_during_drain_is_reported_verbatim_after_one_teardown() {
    let msgs = cam_stream();
    let mut run = ExtractionRun::new("/cam".to_string());
    run.set_detection(detect(&msgs, "/cam"));
    run.on_sink_built(Ok(()));
    for m in &msgs {
        if run.offer(m).is_some() {
            run.on_push_result(PushResult::Accepted);
        }
    }
    run.finish_streaming();
    run.on_drain_signal(Some(DrainSignal::Failed(
        "Internal data stream error".to_string(),
    )));
    // Teardown happens exactly once, on the way to the terminal phase.
    assert_eq!(run.phase, RunPhase::TearingDown);
    run.confirm_teardown();
    assert_eq!(run.phase, RunPhase::Done);
    match run.into_report() {
        Err(ExtractionError::SinkReported(d)) => assert_eq!(d, "Internal data stream error"),
        _ => panic!("expected SinkReported"),
    }
}

#[test]
fn drain_timeout_is_distinct_from_a_sink_error() {
    let msgs = cam_stream();
    let mut run = ExtractionRun::new("/cam".to_string());
    run.set_detection(detect(&msgs, "/cam"));
    run.on_sink_built(Ok(()));
    run.finish_streaming();
    run.on_drain_signal(None);
    run.confirm_teardown();
    assert!(matches!(run.into_report(), Err(ExtractionError::DrainTimeout)));
}

use mcap_video_extract::format::{detect, detect_format, DetectionError, VideoFormat};
use mcap_video_extract::stream::{is_video_message, LogMessage};
use mcap_video_extract::summary::{aggregate, get_topic_durations, get_video_topics};

const SCHEMA: &str = "foxglove.CompressedVideo";

fn push_u32_le(v: &mut Vec<u8>, x: u32) {
    v.extend_from_slice(&x.to_le_bytes());
}

fn pad4(v: &mut Vec<u8>) {
    while v.len() % 4 != 0 {
        v.push(0);
    }
}

fn push_str_le(v: &mut Vec<u8>, s: &[u8]) {
    push_u32_le(v, (s.len() + 1) as u32);
    v.extend_from_slice(s);
    v.push(0);
}

fn record(sec: u32, nsec: u32, format: &str) -> Vec<u8> {
    let mut v = vec![0u8, 1, 0, 0];
    push_u32_le(&mut v, sec);
    push_u32_le(&mut v, nsec);
    push_str_le(&mut v, b"f");
    pad4(&mut v);
    push_u32_le(&mut v, 2);
    v.extend_from_slice(&[7, 8]);
    pad4(&mut v);
    push_str_le(&mut v, format.as_bytes());
    v
}

fn msg(topic: &str, schema: Option<&str>, publish_time: u64, data: Vec<u8>) -> LogMessage {
    LogMessage {
        topic: topic.to_string(),
        schema: schema.map(|s| s.to_string()),
        publish_time,
        data,
    }
}

#[test]
fn classifier_requires_exact_schema() {
    assert!(is_video_message(&msg("/a", Some(SCHEMA), 0, vec![])));
    assert!(!is_video_message(&msg("/a", None, 0, vec![])));
    assert!(!is_video_message(&msg("/a", Some("foxglove.compressedvideo"), 0, vec![])));
    assert!(!is_video_message(&msg("/a", Some("foxglove.CompressedVideo2"), 0, vec![])));
}

#[test]
fn synonym_table_is_case_insensitive() {
    assert_eq!(detect_format("h264"), Some(VideoFormat::H264));
    assert_eq!(detect_format("avc"), Some(VideoFormat::H264));
    assert_eq!(detect_format("h.264"), Some(VideoFormat::H264));
    assert_eq!(detect_format("H.264"), Some(VideoFormat::H264));
    assert_eq!(detect_format("AVC"), Some(VideoFormat::H264));
    assert_eq!(detect_format("h265"), Some(VideoFormat::H265));
    assert_eq!(detect_format("hevc"), Some(VideoFormat::H265));
    assert_eq!(detect_format("h.265"), Some(VideoFormat::H265));
    assert_eq!(detect_format("HEVC"), Some(VideoFormat::H265));
    assert_eq!(detect_format("H265"), Some(VideoFormat::H265));
    assert_eq!(detect_format("vp9"), None);
    assert_eq!(detect_format(""), None);
    assert_eq!(detect_format("h26"), None);
    assert_eq!(detect_format("h2644"), None);
}

#[test]
fn detect_settles_on_first_decodable_record() {
    let msgs = vec![
        msg("/other", Some(SCHEMA), 0, record(0, 0, "h265")),
        msg("/cam", Some("other.Schema"), 1, record(0, 0, "h265")),
        msg("/cam", Some(SCHEMA), 2, vec![1, 2, 3]),
        msg("/cam", Some(SCHEMA), 3, record(0, 0, "H264")),
        msg("/cam", Some(SCHEMA), 4, record(0, 0, "h265")),
    ];
    assert!(matches!(detect(&msgs, "/cam"), Ok(VideoFormat::H264)));
    assert!(matches!(detect(&msgs, "/other"), Ok(VideoFormat::H265)));
}

#[test]
fn detect_is_final_on_unsupported_label() {
    let msgs = vec![
        msg("/cam", Some(SCHEMA), 0, record(0, 0, "vp9")),
        msg("/cam", Some(SCHEMA), 1, record(0, 0, "h264")),
    ];
    match detect(&msgs, "/cam") {
        Err(DetectionError::UnsupportedFormat(l)) => assert_eq!(l, "vp9"),
        other => panic!("expected UnsupportedFormat, got {:?}", other.is_ok()),
    }
}

#[test]
fn detect_reports_no_video_on_empty_topic() {
    let msgs = vec![
        msg("/cam", Some(SCHEMA), 0, record(0, 0, "h264")),
        msg("/empty", Some("other.Schema"), 1, record(0, 0, "h264")),
        msg("/bad", Some(SCHEMA), 2, vec![0xff]),
    ];
    assert!(matches!(detect(&msgs, "/none"), Err(DetectionError::NoVideoOnTopic)));
    assert!(matches!(detect(&msgs, "/empty"), Err(DetectionError::NoVideoOnTopic)));
    assert!(matches!(detect(&msgs, "/bad"), Err(DetectionError::NoVideoOnTopic)));
}

#[test]
fn aggregate_omits_topics_without_decodable_records() {
    let msgs = vec![
        msg("/cam", Some(SCHEMA), 0, record(1, 0, "h264")),
        msg("/malformed", Some(SCHEMA), 1, vec![9, 9]),
        msg("/other", Some("other.Schema"), 2, record(1, 0, "h264")),
    ];
    let s = aggregate(&msgs);
    assert_eq!(s.entries.len(), 1);
    assert_eq!(s.entries[0].0, "/cam");
}

#[test]
fn aggregate_single_record_topic_has_zero_duration() {
    let msgs = vec![msg("/cam", Some(SCHEMA), 0, record(12, 34, "h264"))];
    let s = aggregate(&msgs);
    assert_eq!(s.entries.len(), 1);
    let summary = s.entries[0].1;
    assert_eq!(summary.first_timestamp_ns, Some(12_000_000_034));
    assert_eq!(summary.last_timestamp_ns, None);
    assert_eq!(summary.detected_format, Some(VideoFormat::H264));
    assert_eq!(summary.duration_seconds(), 0);
}

#[test]
fn aggregate_span_and_latched_format() {
    let msgs = vec![
        msg("/cam", Some(SCHEMA), 0, record(10, 0, "h264")),
        msg("/cam", Some(SCHEMA), 1, vec![1]),
        msg("/cam", Some(SCHEMA), 2, record(12, 500_000_000, "h265")),
    ];
    let s = aggregate(&msgs);
    assert_eq!(s.entries.len(), 1);
    let summary = s.entries[0].1;
    assert_eq!(summary.first_timestamp_ns, Some(10_000_000_000));
    assert_eq!(summary.last_timestamp_ns, Some(12_500_000_000));
    // The first record's label is latched, even though a later one differs.
    assert_eq!(summary.detected_format, Some(VideoFormat::H264));
    assert_eq!(summary.duration_seconds(), 2);
}

#[test]
fn aggregate_inverted_span_has_zero_duration() {
    let msgs = vec![
        msg("/cam", Some(SCHEMA), 0, record(20, 0, "h264")),
        msg("/cam", Some(SCHEMA), 1, record(5, 0, "h264")),
    ];
    let s = aggregate(&msgs);
    let summary = s.entries[0].1;
    assert_eq!(summary.first_timestamp_ns, Some(20_000_000_000));
    assert_eq!(summary.last_timestamp_ns, Some(5_000_000_000));
    assert_eq!(summary.duration_seconds(), 0);
}

#[test]
fn durations_follow_the_aggregate() {
    let msgs = vec![
        msg("/a", Some(SCHEMA), 0, record(0, 0, "h264")),
        msg("/b", Some(SCHEMA), 1, record(100, 0, "h265")),
        msg("/a", Some(SCHEMA), 2, record(3, 999_999_999, "h264")),
        msg("/b", Some(SCHEMA), 3, record(104, 0, "h265")),
    ];
    let d = get_topic_durations(&msgs);
    assert_eq!(d.len(), 2);
    assert_eq!(d[0], ("/a".to_string(), 3));
    assert_eq!(d[1], ("/b".to_string(), 4));
}

#[test]
fn video_topics_are_distinct_and_ordered() {
    let msgs = vec![
        msg("/b", Some(SCHEMA), 0, vec![]),
        msg("/a", Some(SCHEMA), 1, record(0, 0, "h264")),
        msg("/b", Some(SCHEMA), 2, record(0, 0, "h264")),
        msg("/c", Some("other.Schema"), 3, record(0, 0, "h264")),
    ];
    // A schema-tagged record lists its topic even when it fails to decode.
    let topics = get_video_topics(&msgs);
    assert_eq!(topics, vec!["/b".to_string(), "/a".to_string()]);
}

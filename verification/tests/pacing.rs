use mcap_video_extract::pacer::FramePacer;
use mcap_video_extract::DEFAULT_FRAME_DURATION_NS;

#[test]
fn first_frame_gets_the_default_duration() {
    let mut p = FramePacer::new();
    let f = p.pace(1_000, vec![1, 2]);
    assert_eq!(f.presentation_time_ns, 1_000);
    assert_eq!(f.duration_ns, DEFAULT_FRAME_DURATION_NS);
    assert_eq!(f.duration_ns, 33_333_333);
    assert_eq!(f.payload, vec![1, 2]);
}

#[test]
fn later_frames_get_their_spacing() {
    let mut p = FramePacer::new();
    let _ = p.pace(0, vec![]);
    let f = p.pace(33_000_000, vec![]);
    assert_eq!(f.duration_ns, 33_000_000);
    let f = p.pace(34_000_000, vec![]);
    assert_eq!(f.duration_ns, 1_000_000);
}

#[test]
fn decreasing_and_equal_publish_times_still_pace_positively() {
    // Publish times 100 then 50, 100, 100: every duration stays >= 1.
    let mut p = FramePacer::new();
    let durations = [
        p.pace(100, vec![]).duration_ns,
        p.pace(50, vec![]).duration_ns,
        p.pace(100, vec![]).duration_ns,
        p.pace(100, vec![]).duration_ns,
    ];
    assert_eq!(durations[0], DEFAULT_FRAME_DURATION_NS);
    assert_eq!(durations[1], 1);
    assert_eq!(durations[2], 50);
    assert_eq!(durations[3], 1);
    for d in durations {
        assert!(d >= 1);
    }
}

//! The supported codecs and how a record's label names one: a fixed synonym
//! table consulted case-insensitively, and detection of a topic's codec from
//! its first decodable record.

use vstd::prelude::*;
use vstd::string::StrSliceExecFns;
use crate::cdr::{decode_compressed_video, decode_spec, VideoView};
use crate::stream::{is_video, is_video_message, msgs_view, str_eq, LogMessage, MessageView};

verus! {

/// A codec this engine can hand to the frame sink.
#[derive(Debug, Clone, Copy, PartialEq, Eq, Structural)]
pub enum VideoFormat {
    H264,
    H265,
}

/// Why no codec could be settled for a topic.
#[derive(Debug)]
pub enum DetectionError {
    /// The first decodable record's label, which names no supported codec.
    UnsupportedFormat(String),
    /// The topic has no decodable record of the target schema.
    NoVideoOnTopic,
}

/// A character folded to lower case within ASCII, as a scalar value.
pub open spec fn lower_scalar(c: char) -> int {
    if 65 <= c as u32 && c as u32 <= 90 {
        c as u32 + 32
    } else {
        c as u32 as int
    }
}

/// The label equals the synonym up to ASCII case.
pub open spec fn label_matches(l: Seq<char>, syn: Seq<char>) -> bool {
    l.len() == syn.len() && forall|i: int|
        0 <= i < l.len() ==> lower_scalar(l[i]) == lower_scalar(syn[i])
}

/// The codec a label names: `h264`, `avc` and `h.264` name H264, `h265`,
/// `hevc` and `h.265` name H265, all case-insensitively; any other label
/// names none.
pub open spec fn spec_format_of(l: Seq<char>) -> Option<VideoFormat> {
    if label_matches(l, "h264"@) || label_matches(l, "avc"@) || label_matches(l, "h.264"@) {
        Some(VideoFormat::H264)
    } else if label_matches(l, "h265"@) || label_matches(l, "hevc"@) || label_matches(l, "h.265"@) {
        Some(VideoFormat::H265)
    } else {
        None
    }
}

fn label_matches_exec(l: &str, syn: &str) -> (r: bool)
    ensures
        r == label_matches(l@, syn@),
{
    let n = l.unicode_len();
    if n != syn.unicode_len() {
        return false;
    }
    let mut i: usize = 0;
    while i < n
        invariant
            i <= n,
            n == l@.len(),
            n == syn@.len(),
            forall|j: int| 0 <= j < i ==> lower_scalar(l@[j]) == lower_scalar(syn@[j]),
        decreases n - i,
    {
        let a: u32 = l.get_char(i) as u32;
        let b: u32 = syn.get_char(i) as u32;
        let la: u32 = if 65 <= a && a <= 90 {
            a + 32
        } else {
            a
        };
        let lb: u32 = if 65 <= b && b <= 90 {
            b + 32
        } else {
            b
        };
        if la != lb {
            return false;
        }
        i = i + 1;
    }
    true
}

/// Map a codec label through the synonym table.
pub fn detect_format(label: &str) -> (r: Option<VideoFormat>)
    ensures
        r == spec_format_of(label@),
{
    if label_matches_exec(label, "h264") || label_matches_exec(label, "avc")
        || label_matches_exec(label, "h.264") {
        Some(VideoFormat::H264)
    } else if label_matches_exec(label, "h265") || label_matches_exec(label, "hevc")
        || label_matches_exec(label, "h.265") {
        Some(VideoFormat::H265)
    } else {
        None
    }
}

/// A message on the given topic that carries the target schema and decodes.
pub open spec fn is_hit(m: MessageView, topic: Seq<char>) -> bool {
    m.topic == topic && is_video(m) && decode_spec(m.data) is Some
}

/// The decoded image of the first such message, in arrival order.
pub open spec fn first_video_decoded(msgs: Seq<MessageView>, topic: Seq<char>) -> Option<
    VideoView,
>
    decreases msgs.len(),
{
    if msgs.len() == 0 {
        None
    } else if is_hit(msgs[0], topic) {
        decode_spec(msgs[0].data)
    } else {
        first_video_decoded(msgs.drop_first(), topic)
    }
}

proof fn lemma_first_video_skip(msgs: Seq<MessageView>, topic: Seq<char>, i: int)
    requires
        0 <= i <= msgs.len(),
        forall|j: int| 0 <= j < i ==> !is_hit(msgs[j], topic),
    ensures
        first_video_decoded(msgs, topic) == first_video_decoded(msgs.skip(i), topic),
    decreases i,
{
    if i == 0 {
        assert(msgs.skip(0) =~= msgs);
    } else {
        assert(!is_hit(msgs[0], topic));
        lemma_first_video_skip(msgs.drop_first(), topic, i - 1);
        assert(msgs.drop_first().skip(i - 1) =~= msgs.skip(i));
    }
}

/// Settle the codec of `topic` on the first record there that carries the
/// target schema and decodes: its label decides, finally; a topic with no
/// such record has no video.
pub fn detect(msgs: &Vec<LogMessage>, topic: &str) -> (r: Result<VideoFormat, DetectionError>)
    ensures
        match r {
            Ok(f) => first_video_decoded(msgs_view(msgs@), topic@) matches Some(v)
                && spec_format_of(v.format) == Some(f),
            Err(DetectionError::NoVideoOnTopic) => first_video_decoded(msgs_view(msgs@), topic@)
                is None,
            Err(DetectionError::UnsupportedFormat(l)) => first_video_decoded(
                msgs_view(msgs@),
                topic@,
            ) matches Some(v) && spec_format_of(v.format) is None && l@ == v.format,
        },
{
    let ghost mv = msgs_view(msgs@);
    let n = msgs.len();
    let mut i: usize = 0;
    while i < n
        invariant
            i <= n,
            n == msgs@.len(),
            mv == msgs_view(msgs@),
            forall|j: int| 0 <= j < i ==> !is_hit(mv[j], topic@),
        decreases n - i,
    {
        let msg = &msgs[i];
        assert(mv[i as int] == msg@);
        if is_video_message(msg) && str_eq(msg.topic.as_str(), topic) {
            match decode_compressed_video(msg.data.as_slice()) {
                Ok(v) => {
                    proof {
                        lemma_first_video_skip(mv, topic@, i as int);
                        assert(mv.skip(i as int)[0] == mv[i as int]);
                        assert(first_video_decoded(mv, topic@) == Some(v@));
                    }
                    match detect_format(v.format.as_str()) {
                        Some(f) => {
                            return Ok(f);
                        },
                        None => {
                            return Err(DetectionError::UnsupportedFormat(v.format));
                        },
                    }
                },
                Err(_) => {},
            }
        }
        i = i + 1;
    }
    proof {
        lemma_first_video_skip(mv, topic@, n as int);
        assert(mv.skip(n as int) =~= Seq::<MessageView>::empty());
    }
    Err(DetectionError::NoVideoOnTopic)
}

} // verus!

verus! {

/// A run of messages with no hit on a topic detects nothing there.
pub proof fn lemma_first_video_none(msgs: Seq<MessageView>, topic: Seq<char>)
    requires
        forall|j: int| 0 <= j < msgs.len() ==> !is_hit(#[trigger] msgs[j], topic),
    ensures
        first_video_decoded(msgs, topic) is None,
{
    lemma_first_video_skip(msgs, topic, msgs.len() as int);
    assert(msgs.skip(msgs.len() as int) =~= Seq::<MessageView>::empty());
}

} // verus!

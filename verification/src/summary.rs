//! Per-topic span aggregation: one pass over the log collects, for every
//! topic with at least one decodable video record, the first and last
//! publish timestamps and the codec named by the first record. Records that
//! fail to decode never affect a summary.

use vstd::prelude::*;
use crate::cdr::{decode_compressed_video, decode_spec, timestamp_nanos};
use crate::format::{first_video_decoded, is_hit, spec_format_of, VideoFormat};
use crate::stream::{is_video, is_video_message, msgs_view, str_eq, LogMessage, MessageView};

verus! {

/// What one topic's decodable video records span. The first such record sets
/// `first_timestamp_ns` and `detected_format`, latched; every later one
/// updates `last_timestamp_ns`, which a one-record topic leaves unset.
#[derive(Debug, Clone, Copy, PartialEq, Eq)]
pub struct ChannelSummary {
    pub first_timestamp_ns: Option<u64>,
    pub last_timestamp_ns: Option<u64>,
    pub detected_format: Option<VideoFormat>,
}

/// A summary's elapsed time in whole seconds: last minus first, truncated;
/// zero for a topic with fewer than two records or an inverted span.
pub open spec fn duration_spec(s: ChannelSummary) -> u64 {
    match (s.first_timestamp_ns, s.last_timestamp_ns) {
        (Some(f), Some(l)) => if l >= f {
            ((l - f) / 1_000_000_000) as u64
        } else {
            0
        },
        _ => 0,
    }
}

impl ChannelSummary {
    /// The summary's elapsed time in whole seconds.
    pub fn duration_seconds(&self) -> (d: u64)
        ensures
            d == duration_spec(*self),
    {
        match (self.first_timestamp_ns, self.last_timestamp_ns) {
            (Some(f), Some(l)) => if l >= f {
                (l - f) / 1_000_000_000
            } else {
                0
            },
            _ => 0,
        }
    }
}

/// The publish time the decoded record of a hit carries.
pub open spec fn hit_nanos(m: MessageView) -> u64 {
    timestamp_nanos(decode_spec(m.data).unwrap().sec, decode_spec(m.data).unwrap().nsec)
}

/// The record timestamps of a topic's hits, in arrival order.
pub open spec fn hit_times(msgs: Seq<MessageView>, topic: Seq<char>) -> Seq<u64>
    decreases msgs.len(),
{
    if msgs.len() == 0 {
        Seq::empty()
    } else {
        let rest = hit_times(msgs.drop_last(), topic);
        if is_hit(msgs.last(), topic) {
            rest.push(hit_nanos(msgs.last()))
        } else {
            rest
        }
    }
}

/// The summary a run of messages builds for one topic: none while the topic
/// has no hit; the first hit opens it, each later hit moves its last
/// timestamp.
pub open spec fn summary_spec(msgs: Seq<MessageView>, topic: Seq<char>) -> Option<ChannelSummary>
    decreases msgs.len(),
{
    if msgs.len() == 0 {
        None
    } else {
        let rest = summary_spec(msgs.drop_last(), topic);
        let m = msgs.last();
        if is_hit(m, topic) {
            match rest {
                None => Some(
                    ChannelSummary {
                        first_timestamp_ns: Some(hit_nanos(m)),
                        last_timestamp_ns: None,
                        detected_format: spec_format_of(decode_spec(m.data).unwrap().format),
                    },
                ),
                Some(s) => Some(
                    ChannelSummary {
                        first_timestamp_ns: s.first_timestamp_ns,
                        last_timestamp_ns: Some(hit_nanos(m)),
                        detected_format: s.detected_format,
                    },
                ),
            }
        } else {
            rest
        }
    }
}

/// The topics with at least one hit, in order of their first hit.
pub open spec fn summarized_topics(msgs: Seq<MessageView>) -> Seq<Seq<char>>
    decreases msgs.len(),
{
    if msgs.len() == 0 {
        Seq::empty()
    } else {
        let rest = summarized_topics(msgs.drop_last());
        let m = msgs.last();
        if is_video(m) && decode_spec(m.data) is Some && !rest.contains(m.topic) {
            rest.push(m.topic)
        } else {
            rest
        }
    }
}

/// A topic is summarized exactly when it has a hit.
pub proof fn lemma_summary_iff_seen(msgs: Seq<MessageView>, topic: Seq<char>)
    ensures
        summary_spec(msgs, topic) is Some <==> summarized_topics(msgs).contains(topic),
    decreases msgs.len(),
{
    if msgs.len() > 0 {
        lemma_summary_iff_seen(msgs.drop_last(), topic);
        let m = msgs.last();
        let rest = summarized_topics(msgs.drop_last());
        if is_video(m) && decode_spec(m.data) is Some && !rest.contains(m.topic) {
            assert forall|t: Seq<char>| rest.push(m.topic).contains(t) implies rest.contains(t)
                || t == m.topic by {
                let k = choose|k: int| 0 <= k < rest.push(m.topic).len() && rest.push(m.topic)[k]
                    == t;
                if k < rest.len() {
                    assert(rest[k] == t);
                }
            }
            if summary_spec(msgs, topic) is Some {
                if is_hit(m, topic) {
                    assert(rest.push(m.topic)[rest.len() as int] == m.topic);
                } else {
                    assert(rest.contains(topic));
                    let k = choose|k: int| 0 <= k < rest.len() && rest[k] == topic;
                    assert(rest.push(m.topic)[k] == topic);
                }
            } else {
                assert(!rest.contains(topic));
            }
        } else {
            if is_hit(m, topic) {
                assert(rest.contains(m.topic));
            }
            if summarized_topics(msgs).contains(topic) {
                assert(rest.contains(topic));
            }
        }
    }
}

/// Summarized topics never repeat.
pub proof fn lemma_summarized_topics_distinct(msgs: Seq<MessageView>)
    ensures
        forall|k1: int, k2: int|
            0 <= k1 < k2 < summarized_topics(msgs).len() ==> summarized_topics(msgs)[k1]
                != summarized_topics(msgs)[k2],
    decreases msgs.len(),
{
    if msgs.len() > 0 {
        lemma_summarized_topics_distinct(msgs.drop_last());
        let rest = summarized_topics(msgs.drop_last());
        let whole = summarized_topics(msgs);
        if whole.len() > rest.len() {
            assert forall|k1: int, k2: int| 0 <= k1 < k2 < whole.len() implies whole[k1]
                != whole[k2] by {
                if k2 == rest.len() {
                    assert(!rest.contains(msgs.last().topic));
                    assert(rest[k1] == whole[k1]);
                }
            }
        }
    }
}

} // verus!

verus! {

/// The topics of a run of summary entries, in entry order.
pub open spec fn topics_of(entries: Seq<(String, ChannelSummary)>) -> Seq<Seq<char>> {
    entries.map_values(|e: (String, ChannelSummary)| e.0@)
}

/// One summary per topic that has a decodable video record, keyed by topic
/// and ordered by first appearance.
pub struct TopicSummaries {
    pub entries: Vec<(String, ChannelSummary)>,
}

impl TopicSummaries {
    /// The summarized topics, in entry order.
    pub open spec fn topics(&self) -> Seq<Seq<char>> {
        topics_of(self.entries@)
    }
}

fn find_topic(entries: &Vec<(String, ChannelSummary)>, topic: &str) -> (r: Option<usize>)
    ensures
        match r {
            Some(k) => k < entries@.len() && entries@[k as int].0@ == topic@,
            None => forall|k: int| 0 <= k < entries@.len() ==> entries@[k].0@ != topic@,
        },
{
    let n = entries.len();
    let mut k: usize = 0;
    while k < n
        invariant
            k <= n,
            n == entries@.len(),
            forall|j: int| 0 <= j < k ==> entries@[j].0@ != topic@,
        decreases n - k,
    {
        if str_eq(entries[k].0.as_str(), topic) {
            return Some(k);
        }
        k = k + 1;
    }
    None
}

/// One pass over the log: every record that carries the target schema and
/// decodes opens or extends its topic's summary; everything else is skipped.
pub fn aggregate(msgs: &Vec<LogMessage>) -> (r: TopicSummaries)
    ensures
        r.topics() == summarized_topics(msgs_view(msgs@)),
        forall|k: int|
            0 <= k < r.entries@.len() ==> summary_spec(msgs_view(msgs@), (#[trigger] r.entries@[k]).0@)
                == Some(r.entries@[k].1),
{
    let ghost mv = msgs_view(msgs@);
    let mut entries: Vec<(String, ChannelSummary)> = Vec::new();
    let n = msgs.len();
    let mut i: usize = 0;
    while i < n
        invariant
            i <= n,
            n == msgs@.len(),
            mv == msgs_view(msgs@),
            topics_of(entries@) == summarized_topics(mv.take(i as int)),
            forall|k: int|
                0 <= k < entries@.len() ==> summary_spec(mv.take(i as int), (#[trigger] entries@[k]).0@)
                    == Some(entries@[k].1),
        decreases n - i,
    {
        let ghost prefix = mv.take(i as int);
        let ghost prefix1 = mv.take(i as int + 1);
        let msg = &msgs[i];
        proof {
            assert(mv[i as int] == msg@);
            assert(prefix1.drop_last() =~= prefix);
            assert(prefix1.last() == msg@);
            lemma_summarized_topics_distinct(prefix);
        }
        let mut advanced = false;
        if is_video_message(msg) {
            match decode_compressed_video(msg.data.as_slice()) {
                Ok(v) => {
                    advanced = true;
                    let ts = v.timestamp.as_nanos();
                    proof {
                        assert(decode_spec(msg@.data) == Some(v@));
                        assert(hit_nanos(msg@) == ts);
                    }
                    match find_topic(&entries, msg.topic.as_str()) {
                        Some(k) => {
                            proof {
                                assert(topics_of(entries@)[k as int] == entries@[k as int].0@);
                                assert(summarized_topics(prefix).contains(msg@.topic));
                            }
                            let prev = entries[k].1;
                            let updated = ChannelSummary {
                                first_timestamp_ns: prev.first_timestamp_ns,
                                last_timestamp_ns: Some(ts),
                                detected_format: prev.detected_format,
                            };
                            let ghost old_entries = entries@;
                            entries[k].1 = updated;
                            proof {
                                assert(entries@[k as int].0@ == msg@.topic);
                                assert(topics_of(entries@) =~= topics_of(old_entries));
                                assert(summarized_topics(prefix1) == summarized_topics(prefix));
                                assert forall|j: int| 0 <= j < entries@.len() implies summary_spec(
                                    prefix1,
                                    (#[trigger] entries@[j]).0@,
                                ) == Some(entries@[j].1) by {
                                    let t = entries@[j].0@;
                                    assert(old_entries[j].0@ == t);
                                    if j == k {
                                        assert(is_hit(msg@, t));
                                        assert(summary_spec(prefix, t) == Some(prev));
                                    } else {
                                        assert(topics_of(old_entries)[j] == t);
                                        assert(topics_of(old_entries)[k as int] == msg@.topic);
                                        assert(t != msg@.topic);
                                        assert(!is_hit(msg@, t));
                                        assert(summary_spec(prefix1, t) == summary_spec(prefix, t));
                                        assert(entries@[j] == old_entries[j]);
                                    }
                                }
                            }
                        },
                        None => {
                            proof {
                                assert forall|t: Seq<char>| summarized_topics(prefix).contains(t)
                                    implies t != msg@.topic by {
                                    let j = choose|j: int|
                                        0 <= j < summarized_topics(prefix).len()
                                            && summarized_topics(prefix)[j] == t;
                                    assert(topics_of(entries@)[j] == t);
                                    assert(entries@[j].0@ == t);
                                }
                                assert(!summarized_topics(prefix).contains(msg@.topic));
                                lemma_summary_iff_seen(prefix, msg@.topic);
                            }
                            let fmt = crate::format::detect_format(v.format.as_str());
                            let fresh = ChannelSummary {
                                first_timestamp_ns: Some(ts),
                                last_timestamp_ns: None,
                                detected_format: fmt,
                            };
                            let ghost old_entries = entries@;
                            let topic_owned = msg.topic.clone();
                            entries.push((topic_owned, fresh));
                            proof {
                                assert(topics_of(entries@) =~= topics_of(old_entries).push(
                                    msg@.topic,
                                ));
                                assert(summarized_topics(prefix1) == summarized_topics(
                                    prefix,
                                ).push(msg@.topic));
                                assert forall|j: int| 0 <= j < entries@.len() implies summary_spec(
                                    prefix1,
                                    (#[trigger] entries@[j]).0@,
                                ) == Some(entries@[j].1) by {
                                    let t = entries@[j].0@;
                                    if j < old_entries.len() {
                                        assert(entries@[j] == old_entries[j]);
                                        assert(topics_of(old_entries)[j] == t);
                                        assert(summarized_topics(prefix)[j] == t);
                                        assert(summarized_topics(prefix).contains(t));
                                        assert(t != msg@.topic);
                                        assert(!is_hit(msg@, t));
                                        assert(summary_spec(prefix1, t) == summary_spec(prefix, t));
                                    } else {
                                        assert(t == msg@.topic);
                                        assert(is_hit(msg@, t));
                                        assert(summary_spec(prefix, t) is None);
                                        assert(entries@[j].1 == fresh);
                                    }
                                }
                            }
                        },
                    }
                },
                Err(_) => {},
            }
        }
        proof {
            if !advanced {
                assert(!(is_video(msg@) && decode_spec(msg@.data) is Some));
                assert(summarized_topics(prefix1) == summarized_topics(prefix));
                assert forall|k: int| 0 <= k < entries@.len() implies summary_spec(
                    prefix1,
                    (#[trigger] entries@[k]).0@,
                ) == Some(entries@[k].1) by {
                    assert(!is_hit(msg@, entries@[k].0@));
                    assert(summary_spec(prefix1, entries@[k].0@) == summary_spec(
                        prefix,
                        entries@[k].0@,
                    ));
                }
            }
        }
        i = i + 1;
    }
    proof {
        assert(mv.take(n as int) =~= mv);
    }
    TopicSummaries { entries }
}

} // verus!

verus! {

/// A topic's summary holds exactly the first and, past the first, the last
/// of its hit timestamps.
pub proof fn lemma_summary_times(msgs: Seq<MessageView>, topic: Seq<char>)
    ensures
        (summary_spec(msgs, topic) is Some) == (hit_times(msgs, topic).len() > 0),
        summary_spec(msgs, topic) matches Some(s) ==> s.first_timestamp_ns == Some(
            hit_times(msgs, topic)[0],
        ) && (if hit_times(msgs, topic).len() > 1 {
            s.last_timestamp_ns == Some(hit_times(msgs, topic).last())
        } else {
            s.last_timestamp_ns is None
        }),
    decreases msgs.len(),
{
    if msgs.len() > 0 {
        lemma_summary_times(msgs.drop_last(), topic);
        let m = msgs.last();
        let rest_times = hit_times(msgs.drop_last(), topic);
        if is_hit(m, topic) {
            assert(hit_times(msgs, topic) == rest_times.push(hit_nanos(m)));
            assert(rest_times.push(hit_nanos(m))[0] == if rest_times.len() == 0 {
                hit_nanos(m)
            } else {
                rest_times[0]
            });
        }
    }
}

/// Law: a topic with no record of the target schema is absent from the
/// aggregate, and detection finds no video on it.
pub proof fn lemma_topic_without_video(msgs: Seq<MessageView>, topic: Seq<char>)
    requires
        forall|j: int|
            0 <= j < msgs.len() ==> !((#[trigger] msgs[j]).topic == topic && is_video(msgs[j])),
    ensures
        summary_spec(msgs, topic) is None,
        first_video_decoded(msgs, topic) is None,
    decreases msgs.len(),
{
    crate::format::lemma_first_video_none(msgs, topic);
    if msgs.len() > 0 {
        lemma_topic_without_video(msgs.drop_last(), topic);
        assert(!is_hit(msgs.last(), topic));
    }
}

/// Law: a topic with exactly one decodable video record spans no time: its
/// aggregated duration is zero.
pub proof fn lemma_single_record_duration(msgs: Seq<MessageView>, topic: Seq<char>)
    requires
        hit_times(msgs, topic).len() == 1,
    ensures
        summary_spec(msgs, topic) matches Some(s) && duration_spec(s) == 0,
{
    lemma_summary_times(msgs, topic);
}

/// The topics carrying the target schema (decodable or not), in order of
/// first appearance.
pub open spec fn video_topics(msgs: Seq<MessageView>) -> Seq<Seq<char>>
    decreases msgs.len(),
{
    if msgs.len() == 0 {
        Seq::empty()
    } else {
        let rest = video_topics(msgs.drop_last());
        let m = msgs.last();
        if is_video(m) && !rest.contains(m.topic) {
            rest.push(m.topic)
        } else {
            rest
        }
    }
}

fn vec_contains_topic(topics: &Vec<String>, topic: &str) -> (r: bool)
    ensures
        r == topics@.map_values(|t: String| t@).contains(topic@),
{
    let n = topics.len();
    let mut k: usize = 0;
    while k < n
        invariant
            k <= n,
            n == topics@.len(),
            forall|j: int| 0 <= j < k ==> topics@[j]@ != topic@,
        decreases n - k,
    {
        if str_eq(topics[k].as_str(), topic) {
            proof {
                assert(topics@.map_values(|t: String| t@)[k as int] == topic@);
            }
            return true;
        }
        k = k + 1;
    }
    proof {
        let mapped = topics@.map_values(|t: String| t@);
        if mapped.contains(topic@) {
            let j = choose|j: int| 0 <= j < mapped.len() && mapped[j] == topic@;
            assert(topics@[j]@ == topic@);
        }
    }
    false
}

/// The distinct topics that carry the target schema, in order of first
/// appearance (a record need not decode to list its topic).
pub fn get_video_topics(msgs: &Vec<LogMessage>) -> (r: Vec<String>)
    ensures
        r@.map_values(|t: String| t@) == video_topics(msgs_view(msgs@)),
{
    let ghost mv = msgs_view(msgs@);
    let mut out: Vec<String> = Vec::new();
    let n = msgs.len();
    let mut i: usize = 0;
    while i < n
        invariant
            i <= n,
            n == msgs@.len(),
            mv == msgs_view(msgs@),
            out@.map_values(|t: String| t@) == video_topics(mv.take(i as int)),
        decreases n - i,
    {
        let ghost prefix = mv.take(i as int);
        let ghost prefix1 = mv.take(i as int + 1);
        let msg = &msgs[i];
        proof {
            assert(mv[i as int] == msg@);
            assert(prefix1.drop_last() =~= prefix);
            assert(prefix1.last() == msg@);
        }
        if is_video_message(msg) && !vec_contains_topic(&out, msg.topic.as_str()) {
            let ghost old_out = out@;
            out.push(msg.topic.clone());
            proof {
                assert(out@.map_values(|t: String| t@) =~= old_out.map_values(|t: String| t@).push(
                    msg@.topic,
                ));
            }
        }
        i = i + 1;
    }
    proof {
        assert(mv.take(n as int) =~= mv);
    }
    out
}

/// Every summarized topic with its elapsed seconds, in the aggregate's order.
pub fn get_topic_durations(msgs: &Vec<LogMessage>) -> (r: Vec<(String, u64)>)
    ensures
        r@.map_values(|e: (String, u64)| e.0@) == summarized_topics(msgs_view(msgs@)),
        forall|k: int|
            0 <= k < r@.len() ==> (summary_spec(msgs_view(msgs@), (#[trigger] r@[k]).0@) matches Some(
                s,
            ) && r@[k].1 == duration_spec(s)),
{
    let summaries = aggregate(msgs);
    let mut out: Vec<(String, u64)> = Vec::new();
    let n = summaries.entries.len();
    let mut i: usize = 0;
    while i < n
        invariant
            i <= n,
            n == summaries.entries@.len(),
            topics_of(summaries.entries@) == summarized_topics(msgs_view(msgs@)),
            forall|k: int|
                0 <= k < n ==> summary_spec(msgs_view(msgs@), (#[trigger] summaries.entries@[k]).0@)
                    == Some(summaries.entries@[k].1),
            out@.len() == i,
            forall|j: int|
                0 <= j < i ==> (#[trigger] out@[j]).0@ == summaries.entries@[j].0@ && out@[j].1
                    == duration_spec(summaries.entries@[j].1),
        decreases n - i,
    {
        let topic = summaries.entries[i].0.clone();
        let d = summaries.entries[i].1.duration_seconds();
        out.push((topic, d));
        i = i + 1;
    }
    proof {
        assert(out@.map_values(|e: (String, u64)| e.0@) =~= topics_of(summaries.entries@));
        assert forall|k: int| 0 <= k < out@.len() implies (summary_spec(
            msgs_view(msgs@),
            (#[trigger] out@[k]).0@,
        ) matches Some(s) && out@[k].1 == duration_spec(s)) by {
            assert(out@[k].0@ == summaries.entries@[k].0@);
        }
    }
    out
}

} // verus!

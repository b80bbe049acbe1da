//! Messages as the recorded log's stream hands them over, and the classifier
//! that picks out the ones carrying the video record schema.

use vstd::prelude::*;
use vstd::string::StrSliceExecFns;

verus! {

/// One record of the message log: its topic, the channel's schema name (when
/// the channel declares one), its publish time in nanoseconds, and its raw
/// payload bytes.
pub struct LogMessage {
    pub topic: String,
    pub schema: Option<String>,
    pub publish_time: u64,
    pub data: Vec<u8>,
}

/// Mathematical image of a log message.
pub ghost struct MessageView {
    pub topic: Seq<char>,
    pub schema: Option<Seq<char>>,
    pub publish_time: u64,
    pub data: Seq<u8>,
}

impl View for LogMessage {
    type V = MessageView;

    open spec fn view(&self) -> MessageView {
        MessageView {
            topic: self.topic@,
            schema: match self.schema {
                Some(s) => Some(s@),
                None => None,
            },
            publish_time: self.publish_time,
            data: self.data@,
        }
    }
}

/// The images of a run of log messages.
pub open spec fn msgs_view(msgs: Seq<LogMessage>) -> Seq<MessageView> {
    msgs.map_values(|m: LogMessage| m@)
}

/// Name of the one record schema this engine understands.
pub open spec fn target_schema() -> Seq<char> {
    "foxglove.CompressedVideo"@
}

/// True of a message that carries the target schema, compared exactly; a
/// message whose channel has no schema is never a target.
pub open spec fn is_video(m: MessageView) -> bool {
    m.schema matches Some(s) && s == target_schema()
}

/// Character-for-character equality of two strings.
pub fn str_eq(a: &str, b: &str) -> (r: bool)
    ensures
        r == (a@ == b@),
{
    let n = a.unicode_len();
    if n != b.unicode_len() {
        return false;
    }
    let mut i: usize = 0;
    while i < n
        invariant
            i <= n,
            n == a@.len(),
            n == b@.len(),
            forall|j: int| 0 <= j < i ==> a@[j] == b@[j],
        decreases n - i,
    {
        if a.get_char(i) != b.get_char(i) {
            return false;
        }
        i = i + 1;
    }
    proof {
        assert(a@ =~= b@);
    }
    true
}

/// Whether a message carries the target schema.
pub fn is_video_message(msg: &LogMessage) -> (b: bool)
    ensures
        b == is_video(msg@),
{
    match &msg.schema {
        None => false,
        Some(s) => str_eq(s.as_str(), "foxglove.CompressedVideo"),
    }
}

} // verus!

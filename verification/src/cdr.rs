//! Wire format of a compressed-video record and its decoder.
//!
//! A record carries a timestamp (two `u32` fields), a frame identifier
//! (length-prefixed, NUL-terminated string), the encoded frame bytes
//! (length-prefixed byte array) and a codec label (length-prefixed,
//! NUL-terminated string), in that order. A canonical serialization puts a
//! 4-byte encapsulation header in front (a representation identifier naming
//! the byte order, then two option bytes), and every 4-byte field is padded
//! to a 4-byte boundary. Some producers omit the header and write the same
//! field sequence in little-endian order, so decoding first tries the
//! canonical form and then falls back to the raw little-endian form.

use vstd::prelude::*;
use vstd::slice::{slice_subrange, slice_to_vec};
use vstd::utf8::{decode_utf8, valid_utf8};
use vstd::assert_seqs_equal;

verus! {

/// A record's bytes fit neither the canonical nor the raw serialization.
#[derive(Debug, Clone, Copy, PartialEq, Eq, Structural)]
pub enum DecodeError {
    Malformed,
}

/// Publication time of one frame, split into whole seconds and the
/// nanosecond remainder.
#[derive(Debug, Clone, Copy, PartialEq, Eq, Structural)]
pub struct Timestamp {
    pub sec: u32,
    pub nsec: u32,
}

/// Nanosecond count denoted by a (seconds, nanoseconds) pair.
pub open spec fn timestamp_nanos(sec: u32, nsec: u32) -> u64 {
    (sec * 1_000_000_000 + nsec) as u64
}

impl Timestamp {
    /// The timestamp as a single nanosecond count.
    pub fn as_nanos(&self) -> (n: u64)
        ensures
            n == timestamp_nanos(self.sec, self.nsec),
    {
        (self.sec as u64) * 1_000_000_000 + (self.nsec as u64)
    }
}

/// One decoded video record: a timestamp, a frame identifier (unused
/// downstream), the encoded frame payload, and the codec label.
#[derive(Debug, Clone)]
pub struct CompressedVideo {
    pub timestamp: Timestamp,
    pub frame_id: String,
    pub data: Vec<u8>,
    pub format: String,
}

/// Mathematical image of a decoded record.
pub ghost struct VideoView {
    pub sec: u32,
    pub nsec: u32,
    pub frame_id: Seq<char>,
    pub data: Seq<u8>,
    pub format: Seq<char>,
}

impl View for CompressedVideo {
    type V = VideoView;

    open spec fn view(&self) -> VideoView {
        VideoView {
            sec: self.timestamp.sec,
            nsec: self.timestamp.nsec,
            frame_id: self.frame_id@,
            data: self.data@,
            format: self.format@,
        }
    }
}

/// The raw fields of a record before its strings are checked as UTF-8.
pub ghost struct RawRecord {
    pub sec: u32,
    pub nsec: u32,
    pub frame_id: Seq<u8>,
    pub data: Seq<u8>,
    pub format: Seq<u8>,
}

/// The `u32` denoted by four bytes in little-endian order.
pub open spec fn u32_le(b0: u8, b1: u8, b2: u8, b3: u8) -> u32 {
    (b0 + b1 * 0x100 + b2 * 0x1_0000 + b3 * 0x100_0000) as u32
}

/// The `u32` at offset `off`, little-endian when `le`, else big-endian.
pub open spec fn u32_at(b: Seq<u8>, off: int, le: bool) -> u32
    recommends
        0 <= off,
        off + 4 <= b.len(),
{
    if le {
        u32_le(b[off], b[off + 1], b[off + 2], b[off + 3])
    } else {
        u32_le(b[off + 3], b[off + 2], b[off + 1], b[off])
    }
}

/// Smallest multiple of 4 that is at least `off`.
pub open spec fn align4(off: int) -> int
    recommends
        0 <= off,
{
    if off % 4 == 0 {
        off
    } else {
        off + 4 - off % 4
    }
}

/// Parse a length-prefixed, NUL-terminated string field at `off`: the prefix
/// counts the terminator, which is dropped from the result. Returns the
/// string's bytes and the offset just past the field.
pub open spec fn spec_parse_string_at(b: Seq<u8>, off: int, le: bool) -> Option<(Seq<u8>, int)>
    recommends
        0 <= off,
{
    if off + 4 <= b.len() {
        let l = u32_at(b, off, le) as int;
        if l >= 1 && off + 4 + l <= b.len() && b[off + 4 + l - 1] == 0 {
            Some((b.subrange(off + 4, off + 4 + l - 1), off + 4 + l))
        } else {
            None
        }
    } else {
        None
    }
}

/// Parse a length-prefixed byte array field at `off`: returns the bytes and
/// the offset just past the field.
pub open spec fn spec_parse_bytes_at(b: Seq<u8>, off: int, le: bool) -> Option<(Seq<u8>, int)>
    recommends
        0 <= off,
{
    if off + 4 <= b.len() {
        let l = u32_at(b, off, le) as int;
        if off + 4 + l <= b.len() {
            Some((b.subrange(off + 4, off + 4 + l), off + 4 + l))
        } else {
            None
        }
    } else {
        None
    }
}

/// Parse the field sequence of a record beginning at `start` (0 for the raw
/// form, 4 for the canonical form; both are 4-byte aligned, so padding can be
/// computed from absolute offsets). Trailing bytes are ignored.
pub open spec fn spec_parse_body(b: Seq<u8>, start: int, le: bool) -> Option<RawRecord>
    recommends
        0 <= start,
        start % 4 == 0,
{
    if start + 8 <= b.len() {
        let sec = u32_at(b, start, le);
        let nsec = u32_at(b, start + 4, le);
        match spec_parse_string_at(b, start + 8, le) {
            None => None,
            Some((frame_id, o1)) => match spec_parse_bytes_at(b, align4(o1), le) {
                None => None,
                Some((data, o2)) => match spec_parse_string_at(b, align4(o2), le) {
                    None => None,
                    Some((format, _o3)) => Some(
                        RawRecord { sec, nsec, frame_id, data, format },
                    ),
                },
            },
        }
    } else {
        None
    }
}

/// Parse the canonical form: a 4-byte encapsulation header whose first two
/// bytes name the byte order (0 0 big-endian, 0 1 little-endian; the two
/// option bytes are not interpreted), then the field sequence.
pub open spec fn spec_parse_canonical(b: Seq<u8>) -> Option<RawRecord> {
    if b.len() >= 4 && b[0] == 0 && (b[1] == 0 || b[1] == 1) {
        spec_parse_body(b, 4, b[1] == 1)
    } else {
        None
    }
}

/// Parse a record: the canonical form if its header is present and its body
/// parses, otherwise the raw little-endian form.
pub open spec fn spec_parse_record(b: Seq<u8>) -> Option<RawRecord> {
    match spec_parse_canonical(b) {
        Some(r) => Some(r),
        None => spec_parse_body(b, 0, true),
    }
}

/// What decoding yields: the parsed fields, with both strings read as UTF-8;
/// bytes whose strings are not valid UTF-8 do not decode.
pub open spec fn decode_spec(b: Seq<u8>) -> Option<VideoView> {
    match spec_parse_record(b) {
        None => None,
        Some(raw) => if valid_utf8(raw.frame_id) && valid_utf8(raw.format) {
            Some(
                VideoView {
                    sec: raw.sec,
                    nsec: raw.nsec,
                    frame_id: decode_utf8(raw.frame_id),
                    data: raw.data,
                    format: decode_utf8(raw.format),
                },
            )
        } else {
            None
        },
    }
}

/// Relies on `String::from_utf8`: it returns `Ok` exactly when the bytes are
/// valid UTF-8, and the returned string holds the characters those bytes
/// encode.
#[verifier::external_body]
fn string_from_utf8(v: Vec<u8>) -> (r: Option<String>)
    ensures
        r is Some <==> valid_utf8(v@),
        r matches Some(s) ==> s@ == decode_utf8(v@),
{
    match String::from_utf8(v) {
        Ok(s) => Some(s),
        Err(_) => None,
    }
}

/// The raw fields of a record, before UTF-8 conversion of its strings.
struct RawParts {
    sec: u32,
    nsec: u32,
    frame_id: Vec<u8>,
    payload: Vec<u8>,
    format: Vec<u8>,
}

impl RawParts {
    spec fn as_record(&self) -> RawRecord {
        RawRecord {
            sec: self.sec,
            nsec: self.nsec,
            frame_id: self.frame_id@,
            data: self.payload@,
            format: self.format@,
        }
    }
}

fn read_u32_at(b: &[u8], off: usize, le: bool) -> (r: u32)
    requires
        off + 4 <= b@.len(),
    ensures
        r == u32_at(b@, off as int, le),
{
    let b0: u8 = b[off];
    let b1: u8 = b[off + 1];
    let b2: u8 = b[off + 2];
    let b3: u8 = b[off + 3];
    if le {
        (b0 as u32) + (b1 as u32) * 0x100 + (b2 as u32) * 0x1_0000 + (b3 as u32) * 0x100_0000
    } else {
        (b3 as u32) + (b2 as u32) * 0x100 + (b1 as u32) * 0x1_0000 + (b0 as u32) * 0x100_0000
    }
}

fn parse_string_field(b: &[u8], off: usize, le: bool) -> (r: Option<(Vec<u8>, usize)>)
    requires
        off <= b@.len(),
    ensures
        r is Some <==> spec_parse_string_at(b@, off as int, le) is Some,
        r matches Some(p) ==> spec_parse_string_at(b@, off as int, le) matches Some(q) && p.0@
            == q.0 && p.1 as int == q.1 && q.1 <= b@.len(),
{
    if b.len() - off < 4 {
        return None;
    }
    let l: u32 = read_u32_at(b, off, le);
    if l == 0 {
        return None;
    }
    let l: usize = l as usize;
    if l > b.len() - (off + 4) {
        return None;
    }
    if b[off + 4 + l - 1] != 0 {
        return None;
    }
    let v = slice_to_vec(slice_subrange(b, off + 4, off + 4 + l - 1));
    Some((v, off + 4 + l))
}

fn parse_bytes_field(b: &[u8], off: usize, le: bool) -> (r: Option<(Vec<u8>, usize)>)
    requires
        off <= b@.len(),
    ensures
        r is Some <==> spec_parse_bytes_at(b@, off as int, le) is Some,
        r matches Some(p) ==> spec_parse_bytes_at(b@, off as int, le) matches Some(q) && p.0@
            == q.0 && p.1 as int == q.1 && q.1 <= b@.len(),
{
    if b.len() - off < 4 {
        return None;
    }
    let l: u32 = read_u32_at(b, off, le);
    let l: usize = l as usize;
    if l > b.len() - (off + 4) {
        return None;
    }
    let v = slice_to_vec(slice_subrange(b, off + 4, off + 4 + l));
    Some((v, off + 4 + l))
}

/// Round `off` up to the next 4-byte boundary; `None` when that passes the
/// end of the buffer (in which case no further field can be parsed there).
fn align_up4(off: usize, len: usize) -> (r: Option<usize>)
    requires
        off <= len,
    ensures
        match r {
            Some(a) => a as int == align4(off as int) && a <= len,
            None => align4(off as int) > len,
        },
{
    let rem: usize = off % 4;
    if rem == 0 {
        Some(off)
    } else {
        let pad: usize = 4 - rem;
        if pad <= len - off {
            Some(off + pad)
        } else {
            None
        }
    }
}

fn parse_raw_body(b: &[u8], start: usize, le: bool) -> (r: Option<RawParts>)
    requires
        start <= b@.len(),
    ensures
        r is Some <==> spec_parse_body(b@, start as int, le) is Some,
        r matches Some(p) ==> spec_parse_body(b@, start as int, le) == Some(p.as_record()),
{
    if b.len() - start < 8 {
        return None;
    }
    let sec: u32 = read_u32_at(b, start, le);
    let nsec: u32 = read_u32_at(b, start + 4, le);
    let (frame_id, o1) = match parse_string_field(b, start + 8, le) {
        Some(x) => x,
        None => {
            return None;
        },
    };
    let o1a = match align_up4(o1, b.len()) {
        Some(x) => x,
        None => {
            return None;
        },
    };
    let (payload, o2) = match parse_bytes_field(b, o1a, le) {
        Some(x) => x,
        None => {
            return None;
        },
    };
    let o2a = match align_up4(o2, b.len()) {
        Some(x) => x,
        None => {
            return None;
        },
    };
    let (format, _o3) = match parse_string_field(b, o2a, le) {
        Some(x) => x,
        None => {
            return None;
        },
    };
    Some(RawParts { sec, nsec, frame_id, payload, format })
}

/// Decode one record's bytes: try the canonical, header-led form first, then
/// the raw little-endian form; reject bytes that fit neither.
pub fn decode_compressed_video(data: &[u8]) -> (r: Result<CompressedVideo, DecodeError>)
    ensures
        match r {
            Ok(v) => decode_spec(data@) == Some(v@),
            Err(e) => decode_spec(data@) is None && e == DecodeError::Malformed,
        },
{
    let canonical = if data.len() >= 4 && data[0] == 0u8 && (data[1] == 0u8 || data[1] == 1u8) {
        parse_raw_body(data, 4, data[1] == 1u8)
    } else {
        None
    };
    let raw = match canonical {
        Some(p) => Some(p),
        None => parse_raw_body(data, 0, true),
    };
    match raw {
        None => Err(DecodeError::Malformed),
        Some(p) => {
            let RawParts { sec, nsec, frame_id, payload, format } = p;
            let frame_id = match string_from_utf8(frame_id) {
                Some(s) => s,
                None => {
                    return Err(DecodeError::Malformed);
                },
            };
            let format = match string_from_utf8(format) {
                Some(s) => s,
                None => {
                    return Err(DecodeError::Malformed);
                },
            };
            Ok(CompressedVideo { timestamp: Timestamp { sec, nsec }, frame_id, data: payload, format })
        },
    }
}

} // verus!

verus! {

/// The four bytes of `x` in little-endian order.
pub open spec fn le_bytes(x: u32) -> Seq<u8> {
    seq![
        (x % 0x100) as u8,
        ((x / 0x100) % 0x100) as u8,
        ((x / 0x1_0000) % 0x100) as u8,
        ((x / 0x100_0000) % 0x100) as u8,
    ]
}

/// `s` followed by the zero bytes that pad it to a 4-byte boundary.
pub open spec fn pad4(s: Seq<u8>) -> Seq<u8> {
    s + Seq::new(((4 - s.len() % 4) % 4) as nat, |i: int| 0u8)
}

/// A string field's serialization: a length prefix counting the NUL
/// terminator, the string's bytes, and the terminator.
pub open spec fn enc_str(s: Seq<u8>) -> Seq<u8> {
    le_bytes((s.len() + 1) as u32) + s + seq![0u8]
}

/// A byte-array field's serialization: a length prefix, then the bytes.
pub open spec fn enc_bytes(s: Seq<u8>) -> Seq<u8> {
    le_bytes(s.len() as u32) + s
}

/// A record's field sequence serialized in little-endian order with 4-byte
/// padding before each length prefix (the raw form, and the body of the
/// canonical form).
pub open spec fn encode_body_le(r: RawRecord) -> Seq<u8> {
    let part1 = le_bytes(r.sec) + le_bytes(r.nsec) + enc_str(r.frame_id);
    let part2 = pad4(part1) + enc_bytes(r.data);
    pad4(part2) + enc_str(r.format)
}

/// The canonical serialization: a little-endian encapsulation header, then
/// the field sequence.
pub open spec fn encode_canonical(r: RawRecord) -> Seq<u8> {
    seq![0u8, 1u8, 0u8, 0u8] + encode_body_le(r)
}

/// Field lengths small enough for their 32-bit length prefixes.
pub open spec fn wf_record(r: RawRecord) -> bool {
    &&& r.frame_id.len() + 1 <= u32::MAX
    &&& r.data.len() <= u32::MAX
    &&& r.format.len() + 1 <= u32::MAX
}

proof fn lemma_le_bytes_roundtrip(x: u32)
    ensures
        u32_le(
            (x % 0x100) as u8,
            ((x / 0x100) % 0x100) as u8,
            ((x / 0x1_0000) % 0x100) as u8,
            ((x / 0x100_0000) % 0x100) as u8,
        ) == x,
{
    assert(((x % 0x100) as u8) as int + (((x / 0x100) % 0x100) as u8) as int * 0x100 + (((x
        / 0x1_0000) % 0x100) as u8) as int * 0x1_0000 + (((x / 0x100_0000) % 0x100) as u8) as int
        * 0x100_0000 == x as int) by (bit_vector);
}

proof fn lemma_u32_at_le_bytes(b: Seq<u8>, off: int, x: u32)
    requires
        0 <= off,
        off + 4 <= b.len(),
        b.subrange(off, off + 4) == le_bytes(x),
    ensures
        u32_at(b, off, true) == x,
{
    assert(b[off] == le_bytes(x)[0]);
    assert(b[off + 1] == le_bytes(x)[1]);
    assert(b[off + 2] == le_bytes(x)[2]);
    assert(b[off + 3] == le_bytes(x)[3]);
    lemma_le_bytes_roundtrip(x);
}

proof fn lemma_parse_string_encoded(b: Seq<u8>, off: int, s: Seq<u8>)
    requires
        0 <= off,
        s.len() + 1 <= u32::MAX,
        off + 4 + s.len() + 1 <= b.len(),
        b.subrange(off, off + 4) == le_bytes((s.len() + 1) as u32),
        b.subrange(off + 4, off + 4 + s.len()) == s,
        b[off + 4 + s.len() as int] == 0,
    ensures
        spec_parse_string_at(b, off, true) == Some((s, off + 5 + s.len())),
{
    lemma_u32_at_le_bytes(b, off, (s.len() + 1) as u32);
}

proof fn lemma_parse_bytes_encoded(b: Seq<u8>, off: int, s: Seq<u8>)
    requires
        0 <= off,
        s.len() <= u32::MAX,
        off + 4 + s.len() <= b.len(),
        b.subrange(off, off + 4) == le_bytes(s.len() as u32),
        b.subrange(off + 4, off + 4 + s.len()) == s,
    ensures
        spec_parse_bytes_at(b, off, true) == Some((s, off + 4 + s.len())),
{
    lemma_u32_at_le_bytes(b, off, s.len() as u32);
}

} // verus!

verus! {

proof fn lemma_pad4_len(s: Seq<u8>)
    ensures
        pad4(s).len() == align4(s.len() as int),
        pad4(s).len() % 4 == 0,
{
}

proof fn lemma_align4_shift(p: int, x: int)
    requires
        0 <= p,
        0 <= x,
        p % 4 == 0,
    ensures
        align4(p + x) == p + align4(x),
{
    assert((p + x) % 4 == x % 4) by (nonlinear_arith)
        requires
            p % 4 == 0,
            0 <= p,
            0 <= x,
    ;
}

/// Parsing the little-endian field sequence of a well-formed record, laid
/// down after any 4-byte-aligned prefix, recovers the record exactly.
#[verifier::rlimit(100)]
pub proof fn lemma_parse_encoded_body(r: RawRecord, prefix: Seq<u8>)
    requires
        wf_record(r),
        prefix.len() % 4 == 0,
    ensures
        spec_parse_body(prefix + encode_body_le(r), prefix.len() as int, true) == Some(r),
{
    let n1 = r.frame_id.len() as int;
    let nd = r.data.len() as int;
    let n2 = r.format.len() as int;
    let part1 = le_bytes(r.sec) + le_bytes(r.nsec) + enc_str(r.frame_id);
    let p1 = pad4(part1);
    let part2 = p1 + enc_bytes(r.data);
    let p2 = pad4(part2);
    let body = p2 + enc_str(r.format);
    let b = prefix + body;
    let start = prefix.len() as int;
    assert(encode_body_le(r) == body);
    assert(part1.len() == 13 + n1);
    lemma_pad4_len(part1);
    lemma_pad4_len(part2);
    assert(part2.len() == p1.len() + 4 + nd);
    assert(body.len() == p2.len() + 4 + n2 + 1);
    let a1 = start + p1.len() as int;
    let a2 = start + p2.len() as int;

    assert_seqs_equal!(b.subrange(start, start + 4), le_bytes(r.sec));
    assert_seqs_equal!(b.subrange(start + 4, start + 8), le_bytes(r.nsec));
    assert(u32_at(b, start, true) == r.sec) by {
        lemma_u32_at_le_bytes(b, start, r.sec);
    }
    assert(u32_at(b, start + 4, true) == r.nsec) by {
        lemma_u32_at_le_bytes(b, start + 4, r.nsec);
    }

    assert_seqs_equal!(b.subrange(start + 8, start + 12), le_bytes((n1 + 1) as u32));
    assert_seqs_equal!(b.subrange(start + 12, start + 12 + n1), r.frame_id);
    assert(b[start + 12 + n1] == 0);
    assert(spec_parse_string_at(b, start + 8, true) == Some((r.frame_id, start + 13 + n1))) by {
        lemma_parse_string_encoded(b, start + 8, r.frame_id);
    }

    assert(align4(start + 13 + n1) == a1) by {
        lemma_align4_shift(start, 13 + n1);
    }
    assert_seqs_equal!(b.subrange(a1, a1 + 4), le_bytes(nd as u32));
    assert_seqs_equal!(b.subrange(a1 + 4, a1 + 4 + nd), r.data);
    assert(spec_parse_bytes_at(b, a1, true) == Some((r.data, a1 + 4 + nd))) by {
        lemma_parse_bytes_encoded(b, a1, r.data);
    }

    assert(align4(a1 + 4 + nd) == a2) by {
        lemma_align4_shift(start, part2.len() as int);
    }
    assert_seqs_equal!(b.subrange(a2, a2 + 4), le_bytes((n2 + 1) as u32));
    assert_seqs_equal!(b.subrange(a2 + 4, a2 + 4 + n2), r.format);
    assert(b[a2 + 4 + n2] == 0);
    assert(spec_parse_string_at(b, a2, true) == Some((r.format, a2 + 5 + n2))) by {
        lemma_parse_string_encoded(b, a2, r.format);
    }

    assert(spec_parse_body(b, start, true) == Some(r));
}

/// Law: parsing the canonical serialization of a well-formed record recovers
/// every field exactly.
#[verifier::rlimit(100)]
pub proof fn lemma_parse_canonical_roundtrip(r: RawRecord)
    requires
        wf_record(r),
    ensures
        spec_parse_record(encode_canonical(r)) == Some(r),
{
    let hdr = seq![0u8, 1u8, 0u8, 0u8];
    let b = encode_canonical(r);
    assert(b == hdr + encode_body_le(r));
    assert(b.len() == 4 + encode_body_le(r).len());
    assert(b[0] == 0 && b[1] == 1) by {
        assert(b[0] == hdr[0] && b[1] == hdr[1]);
    }
    assert(spec_parse_body(b, 4, true) == Some(r)) by {
        lemma_parse_encoded_body(r, hdr);
    }
    assert(spec_parse_canonical(b) == Some(r));
}

/// Law: parsing the raw little-endian serialization of a well-formed record
/// recovers every field exactly, whenever those bytes do not themselves pass
/// as a canonical serialization (the canonical attempt runs first, so such
/// bytes are read as header-led).
pub proof fn lemma_parse_fallback_roundtrip(r: RawRecord)
    requires
        wf_record(r),
        spec_parse_canonical(encode_body_le(r)) is None,
    ensures
        spec_parse_record(encode_body_le(r)) == Some(r),
{
    lemma_parse_encoded_body(r, Seq::empty());
    assert(Seq::<u8>::empty() + encode_body_le(r) =~= encode_body_le(r));
}

/// A record whose seconds field does not mimic an encapsulation header in its
/// two low bytes never has its raw serialization read as canonical, so the
/// fallback law applies to it.
pub proof fn lemma_fallback_applies(r: RawRecord)
    requires
        wf_record(r),
        r.sec % 0x1_0000 != 0,
        r.sec % 0x1_0000 != 0x100,
    ensures
        spec_parse_canonical(encode_body_le(r)) is None,
{
    let b = encode_body_le(r);
    assert(b[0] == le_bytes(r.sec)[0] && b[1] == le_bytes(r.sec)[1]);
    let x = r.sec;
    assert(!(x % 0x100 == 0 && ((x / 0x100) % 0x100 == 0 || (x / 0x100) % 0x100 == 1)))
        by (bit_vector)
        requires
            x % 0x1_0000 != 0,
            x % 0x1_0000 != 0x100,
    ;
}

} // verus!

verus! {

/// The raw fields a record with the given decoded image serializes to: its
/// strings written out as UTF-8.
pub open spec fn raw_of(v: VideoView) -> RawRecord {
    RawRecord {
        sec: v.sec,
        nsec: v.nsec,
        frame_id: vstd::utf8::encode_utf8(v.frame_id),
        data: v.data,
        format: vstd::utf8::encode_utf8(v.format),
    }
}

/// Law: decoding the canonical serialization of a well-formed record yields
/// byte-identical payload and timestamp and character-identical frame
/// identifier and codec label.
pub proof fn lemma_decode_canonical_roundtrip(v: VideoView)
    requires
        wf_record(raw_of(v)),
    ensures
        decode_spec(encode_canonical(raw_of(v))) == Some(v),
{
    broadcast use vstd::utf8::encode_utf8_valid_utf8, vstd::utf8::encode_utf8_decode_utf8;

    lemma_parse_canonical_roundtrip(raw_of(v));
}

/// Law: decoding the raw little-endian serialization of a well-formed record
/// yields the same values through the fallback parse, whenever those bytes do
/// not themselves pass as a canonical serialization.
pub proof fn lemma_decode_fallback_roundtrip(v: VideoView)
    requires
        wf_record(raw_of(v)),
        spec_parse_canonical(encode_body_le(raw_of(v))) is None,
    ensures
        decode_spec(encode_body_le(raw_of(v))) == Some(v),
{
    broadcast use vstd::utf8::encode_utf8_valid_utf8, vstd::utf8::encode_utf8_decode_utf8;

    lemma_parse_fallback_roundtrip(raw_of(v));
}

} // verus!

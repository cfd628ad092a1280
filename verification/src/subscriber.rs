//! Log subscriber's frame extraction: recognizing the marker that announces
//! an embedded event frame in a log line, base64-decoding it, and splitting
//! it into tag and payload.
//!
//! Lines without the marker are ignored; a line whose decoded frame is
//! shorter than the 8-byte tag is dropped as too short, never fatal.

use crate::events::{Event, FrameView};
use vstd::prelude::*;
use vstd::slice::{slice_subrange, slice_to_vec};

verus! {

/// What decoding a byte string as base64 (standard alphabet, padded) yields;
/// fixed by the input alone, `None` on invalid input.
pub uninterp spec fn base64_decoding(s: Seq<u8>) -> Option<Seq<u8>>;

/// Relies on base64's `STANDARD` engine `decode`: the result is a function
/// of the input bytes alone, and invalid input is reported, not a panic.
#[verifier::external_body]
fn base64_decode(s: &[u8]) -> (r: Option<Vec<u8>>)
    ensures
        r is Some <==> base64_decoding(s@) is Some,
        r matches Some(v) ==> base64_decoding(s@) == Some(v@),
{
    match base64::Engine::decode(&base64::engine::general_purpose::STANDARD, s) {
        Ok(v) => Some(v),
        Err(_) => None,
    }
}

/// The fixed textual marker that announces an embedded event frame: the
/// bytes of `"Program data: "`.
pub open spec fn log_marker() -> Seq<u8> {
    seq![80u8, 114u8, 111u8, 103u8, 114u8, 97u8, 109u8, 32u8, 100u8, 97u8, 116u8, 97u8, 58u8, 32u8]
}

/// Whether a log line starts with the marker.
pub open spec fn has_marker(line: Seq<u8>) -> bool {
    line.len() >= 14 && line.take(14) == log_marker()
}

/// The frame a log line carries, if any: marker recognized, base64 decoded,
/// at least 8 bytes, split into tag and payload.
pub open spec fn frame_of_line(line: Seq<u8>) -> Option<FrameView> {
    if !has_marker(line) {
        None
    } else {
        match base64_decoding(line.skip(14)) {
            None => None,
            Some(bytes) => if bytes.len() < 8 {
                None
            } else {
                Some(FrameView { discriminator: bytes.take(8), data: bytes.skip(8) })
            },
        }
    }
}

/// The outcome of looking at one log line.
#[derive(Debug)]
pub enum ExtractOutcome {
    /// The line does not carry the marker; it is ignored.
    NoMarker,
    /// The text after the marker is not valid base64; the line is dropped.
    InvalidBase64,
    /// The decoded frame is shorter than the 8-byte tag; it is dropped.
    FrameTooShort,
    /// A raw frame was extracted.
    Frame(Event),
}

/// The marker bytes as a vector.
fn log_marker_bytes() -> (r: Vec<u8>)
    ensures
        r@ == log_marker(),
{
    let mut v: Vec<u8> = Vec::new();
    v.push(80u8);
    v.push(114u8);
    v.push(111u8);
    v.push(103u8);
    v.push(114u8);
    v.push(97u8);
    v.push(109u8);
    v.push(32u8);
    v.push(100u8);
    v.push(97u8);
    v.push(116u8);
    v.push(97u8);
    v.push(58u8);
    v.push(32u8);
    assert(v@ =~= log_marker());
    v
}

/// Examines one log line. Exactly the lines that carry the marker, decode as
/// base64 and hold at least the 8-byte tag yield a frame; the frame is the
/// decoded bytes split after the tag.
pub fn extract_frame(line: &[u8]) -> (r: ExtractOutcome)
    ensures
        match r {
            ExtractOutcome::NoMarker => !has_marker(line@),
            ExtractOutcome::InvalidBase64 => has_marker(line@) && base64_decoding(line@.skip(14))
                is None,
            ExtractOutcome::FrameTooShort => has_marker(line@) && base64_decoding(line@.skip(14))
                is Some && base64_decoding(line@.skip(14)).unwrap().len() < 8,
            ExtractOutcome::Frame(f) => frame_of_line(line@) == Some(f@) && f@.wf(),
        },
        (r matches ExtractOutcome::Frame(f) ==> frame_of_line(line@) == Some(f@)) && (!(r
            matches ExtractOutcome::Frame(f)) ==> frame_of_line(line@) is None),
{
    let marker = log_marker_bytes();
    if line.len() < 14 {
        return ExtractOutcome::NoMarker;
    }
    let head = slice_subrange(line, 0, 14);
    if !crate::registry::bytes_eq(head, marker.as_slice()) {
        return ExtractOutcome::NoMarker;
    }
    let rest = slice_subrange(line, 14, line.len());
    assert(rest@ =~= line@.skip(14));
    match base64_decode(rest) {
        None => ExtractOutcome::InvalidBase64,
        Some(bytes) => {
            if bytes.len() < 8 {
                ExtractOutcome::FrameTooShort
            } else {
                let discriminator = slice_to_vec(slice_subrange(bytes.as_slice(), 0, 8));
                let data = slice_to_vec(slice_subrange(bytes.as_slice(), 8, bytes.len()));
                assert(discriminator@ =~= bytes@.take(8));
                assert(data@ =~= bytes@.skip(8));
                ExtractOutcome::Frame(Event { discriminator, data })
            }
        },
    }
}

/// The frames carried by a batch of log lines, in order.
pub open spec fn frames_of_lines(lines: Seq<Seq<u8>>) -> Seq<FrameView>
    decreases lines.len(),
{
    if lines.len() == 0 {
        Seq::empty()
    } else {
        let rest = frames_of_lines(lines.drop_last());
        match frame_of_line(lines.last()) {
            Some(f) => rest.push(f),
            None => rest,
        }
    }
}

/// Extracts, in order, every frame carried by a batch of log lines; lines
/// without a frame are skipped.
pub fn extract_frames(lines: &Vec<Vec<u8>>) -> (r: Vec<Event>)
    ensures
        r@.map_values(|f: Event| f@) == frames_of_lines(lines@.map_values(|l: Vec<u8>| l@)),
        forall|i: int| 0 <= i < r@.len() ==> (#[trigger] r@[i])@.wf(),
{
    let ghost lviews = lines@.map_values(|l: Vec<u8>| l@);
    let mut r: Vec<Event> = Vec::new();
    let mut i: usize = 0;
    assert(r@.map_values(|f: Event| f@) =~= frames_of_lines(lviews.take(0)));
    while i < lines.len()
        invariant
            i <= lines@.len(),
            lviews == lines@.map_values(|l: Vec<u8>| l@),
            r@.map_values(|f: Event| f@) == frames_of_lines(lviews.take(i as int)),
            forall|k: int| 0 <= k < r@.len() ==> (#[trigger] r@[k])@.wf(),
        decreases lines@.len() - i,
    {
        let outcome = extract_frame(lines[i].as_slice());
        proof {
            assert(lviews.take(i + 1).drop_last() =~= lviews.take(i as int));
            assert(lviews.take(i + 1).last() == lviews[i as int]);
        }
        match outcome {
            ExtractOutcome::Frame(f) => {
                r.push(f);
                assert(r@.map_values(|f: Event| f@) =~= frames_of_lines(lviews.take(i + 1)));
            },
            _ => {
                assert(r@.map_values(|f: Event| f@) =~= frames_of_lines(lviews.take(i + 1)));
            },
        }
        i = i + 1;
    }
    assert(lviews.take(lines@.len() as int) =~= lviews);
    r
}

} // verus!

//! The fields read from ffprobe's JSON report of a video.

use vstd::prelude::*;

use crate::json::{json_array_at, json_is_array_at, json_parses, json_str_at, json_string_at, json_u64_at, json_u64_value_at, json_valid};

verus! {

/// What a probe report says of a video, before its numbers with decimals
/// are read.
#[derive(Debug, Clone)]
pub struct ProbeFields {
    /// The container's duration as text, if the report gives it as text.
    pub duration_text: Option<String>,
    pub width: u32,
    pub height: u32,
    /// The first stream's frame rate as a fraction, `"0/1"` when absent.
    pub rate_text: String,
}

/// The unsigned integer `field` of the report's first stream, 0 when the
/// report has no stream array or the field is no such integer.
pub open spec fn stream_u64(report: Seq<char>, pointer: Seq<char>) -> u64 {
    if json_is_array_at(report, "/streams"@) {
        match json_u64_at(report, pointer) {
            Some(v) => v,
            None => 0,
        }
    } else {
        0
    }
}

/// The frame rate text of the report's first stream, `"0/1"` when there is
/// none.
pub open spec fn stream_rate(report: Seq<char>) -> Seq<char> {
    if json_is_array_at(report, "/streams"@) && json_str_at(report, "/streams/0/r_frame_rate"@) is Some {
        json_str_at(report, "/streams/0/r_frame_rate"@).unwrap()
    } else {
        "0/1"@
    }
}

/// Reads ffprobe's JSON report: `None` when it is not JSON; otherwise the
/// duration text of the format, and the width, height (each truncated to
/// 32 bits, 0 when absent) and frame-rate text of the first stream.
pub fn probe_fields(report: &str) -> (r: Option<ProbeFields>)
    ensures
        r is None <==> !json_valid(report@),
        r matches Some(f) ==> {
            &&& f.duration_text is Some == json_str_at(report@, "/format/duration"@) is Some
            &&& f.duration_text is Some ==> f.duration_text.unwrap()@ == json_str_at(
                report@,
                "/format/duration"@,
            ).unwrap()
            &&& f.width == stream_u64(report@, "/streams/0/width"@) as u32
            &&& f.height == stream_u64(report@, "/streams/0/height"@) as u32
            &&& f.rate_text@ == stream_rate(report@)
        },
{
    if !json_parses(report) {
        return None;
    }
    let duration_text = json_string_at(report, "/format/duration");
    let has_streams = json_array_at(report, "/streams");
    let width: u64 = if has_streams {
        match json_u64_value_at(report, "/streams/0/width") {
            Some(v) => v,
            None => 0,
        }
    } else {
        0
    };
    let height: u64 = if has_streams {
        match json_u64_value_at(report, "/streams/0/height") {
            Some(v) => v,
            None => 0,
        }
    } else {
        0
    };
    let rate = if has_streams {
        json_string_at(report, "/streams/0/r_frame_rate")
    } else {
        None
    };
    let rate_text = match rate {
        Some(t) => t,
        None => String::from_str("0/1"),
    };
    Some(ProbeFields { duration_text, width: width as u32, height: height as u32, rate_text })
}

} // verus!

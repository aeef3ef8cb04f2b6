//! Rules for the model's requests for more evidence (video frames and audio
//! clips), and the limits text the model is given.

use vstd::prelude::*;

use crate::text::{decimal, decimal_string};

verus! {

/// The program's answer to a segment request.
#[derive(Debug, Clone)]
pub enum AgentResponse {
    /// The request was served: the extracted frame and audio files.
    Granted { frames: Vec<String>, audio: Vec<String> },
    /// The request was refused.

    Error { code: String, message: String },
}

/// The refusal of a segment request, as `(code, message)`, or `None` when
/// the request is within the limits. The checks run in this order: image
/// count, audio count, timestamp range, audio clip length.
pub open spec fn segment_request_refusal(
    n_frames: nat,
    n_audio: nat,
    max_images: nat,
    max_audio_segments: nat,
    timestamps_in_range: bool,
    duration_text: Seq<char>,
    clip_length_accepted: bool,
) -> Option<(Seq<char>, Seq<char>)> {
    if n_frames > max_images {
        Some(
            (
                "too_many_images"@,
                "requested "@ + decimal(n_frames) + " images, limit is "@ + decimal(max_images),
            ),
        )
    } else if n_audio > max_audio_segments {
        Some(
            (
                "too_many_audio_segments"@,
                "requested "@ + decimal(n_audio) + " audio segments, limit is "@ + decimal(
                    max_audio_segments,
                ),
            ),
        )
    } else if !timestamps_in_range {
        Some(("timestamp_out_of_range"@, "timestamp must be between 0 and "@ + duration_text))
    } else if !clip_length_accepted {
        Some(("invalid_audio_clip_length"@, "audio_clip_seconds must be greater than 0"@))
    } else {
        None
    }
}

/// A request within both count limits is refused as out of range whenever
/// one of its times is out of range, whatever it asks for: a request for
/// audio only included.
pub proof fn law_out_of_range_refused(
    n_frames: nat,
    n_audio: nat,
    max_images: nat,
    max_audio_segments: nat,
    duration_text: Seq<char>,
    clip_length_accepted: bool,
)
    requires
        n_frames <= max_images,
        n_audio <= max_audio_segments,
    ensures
        segment_request_refusal(
            n_frames,
            n_audio,
            max_images,
            max_audio_segments,
            false,
            duration_text,
            clip_length_accepted,
        ) == Some(("timestamp_out_of_range"@, "timestamp must be between 0 and "@ + duration_text)),
{
}

/// A request is served exactly when it keeps both count limits, all its
/// times are in range and the clip length is accepted.
pub proof fn law_served_exactly_within_limits(
    n_frames: nat,
    n_audio: nat,
    max_images: nat,
    max_audio_segments: nat,
    timestamps_in_range: bool,
    duration_text: Seq<char>,
    clip_length_accepted: bool,
)
    ensures
        segment_request_refusal(
            n_frames,
            n_audio,
            max_images,
            max_audio_segments,
            timestamps_in_range,
            duration_text,
            clip_length_accepted,
        ) is None <==> (n_frames <= max_images && n_audio <= max_audio_segments
            && timestamps_in_range && clip_length_accepted),
{
}

/// Checks a segment request that asks for `n_frames` frames and `n_audio`
/// audio clips. `timestamps_in_range` tells whether every requested time
/// lies between 0 and the duration, `duration_text` is the duration as the
/// refusal shows it, and `clip_length_accepted` whether the configured clip
/// length is not at or below zero. The result is the refusal, or `None` when the
/// request may be served.
pub fn check_segment_request(
    n_frames: usize,
    n_audio: usize,
    max_images: usize,
    max_audio_segments: usize,
    timestamps_in_range: bool,
    duration_text: &str,
    clip_length_accepted: bool,
) -> (r: Option<AgentResponse>)
    ensures
        match segment_request_refusal(
            n_frames as nat,
            n_audio as nat,
            max_images as nat,
            max_audio_segments as nat,
            timestamps_in_range,
            duration_text@,
            clip_length_accepted,
        ) {
            None => r is None,
            Some((code, message)) => r matches Some(AgentResponse::Error { code: c, message: m })
                && c@ == code && m@ == message,
        },
{
    if n_frames > max_images {
        let mut m = String::from_str("requested ");
        m.append(decimal_string(n_frames as u64).as_str());
        m.append(" images, limit is ");
        m.append(decimal_string(max_images as u64).as_str());
        return Some(
            AgentResponse::Error { code: String::from_str("too_many_images"), message: m },
        );
    }
    if n_audio > max_audio_segments {
        let mut m = String::from_str("requested ");
        m.append(decimal_string(n_audio as u64).as_str());
        m.append(" audio segments, limit is ");
        m.append(decimal_string(max_audio_segments as u64).as_str());
        return Some(
            AgentResponse::Error {
                code: String::from_str("too_many_audio_segments"),
                message: m,
            },
        );
    }
    if !timestamps_in_range {
        let mut m = String::from_str("timestamp must be between 0 and ");
        m.append(duration_text);
        return Some(
            AgentResponse::Error { code: String::from_str("timestamp_out_of_range"), message: m },
        );
    }
    if !clip_length_accepted {
        return Some(
            AgentResponse::Error {
                code: String::from_str("invalid_audio_clip_length"),
                message: String::from_str("audio_clip_seconds must be greater than 0"),
            },
        );
    }
    None
}

/// The limits message that opens an agent conversation.
pub open spec fn constraints_message(
    duration_text: Seq<char>,
    max_images: nat,
    max_audio_segments: nat,
    clip_seconds_text: Seq<char>,
    image_pixel_limit: nat,
    max_context_tokens: nat,
) -> Seq<char> {
    "Video total duration: "@ + duration_text + "s. Limits: max_images="@ + decimal(max_images)
        + ", max_audio_segments="@ + decimal(max_audio_segments) + ", audio_clip_seconds="@
        + clip_seconds_text + "s, image_pixel_limit="@ + decimal(image_pixel_limit)
        + ", max_context_tokens="@ + decimal(max_context_tokens) + CONSTRAINTS_RULES@
}

/// The fixed rules that end the limits message.
pub const CONSTRAINTS_RULES: &'static str = ". Audio requests must use audio_centers. Each center creates one mono WAV clip near that timestamp, and the clip length is capped by audio_clip_seconds. Do not cover the full media timeline with a single audio request. You may request at most max_audio_segments audio clips per turn. Use only the standard JSON agent request format for additional data.";

/// The limits message that opens an agent conversation: the duration (as
/// `duration_text`) and every limit, then the request rules.
pub fn build_initial_constraints_message(
    duration_text: &str,
    max_images: usize,
    max_audio_segments: usize,
    clip_seconds_text: &str,
    image_pixel_limit: u32,
    max_context_tokens: usize,
) -> (r: String)
    ensures
        r@ == constraints_message(
            duration_text@,
            max_images as nat,
            max_audio_segments as nat,
            clip_seconds_text@,
            image_pixel_limit as nat,
            max_context_tokens as nat,
        ),
{
    let mut m = String::from_str("Video total duration: ");
    m.append(duration_text);
    m.append("s. Limits: max_images=");
    m.append(decimal_string(max_images as u64).as_str());
    m.append(", max_audio_segments=");
    m.append(decimal_string(max_audio_segments as u64).as_str());
    m.append(", audio_clip_seconds=");
    m.append(clip_seconds_text);
    m.append("s, image_pixel_limit=");
    m.append(decimal_string(image_pixel_limit as u64).as_str());
    m.append(", max_context_tokens=");
    m.append(decimal_string(max_context_tokens as u64).as_str());
    m.append(CONSTRAINTS_RULES);
    m
}

} // verus!

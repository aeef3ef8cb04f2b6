//! Names of the cached thumbnails, frames and audio clips, and the
//! parameters the extraction uses.

use vstd::prelude::*;

use crate::text::{decimal, decimal_string};

verus! {

/// Where the cache keeps the files of one video.
#[derive(Debug, Clone)]
pub struct CachePaths {
    pub root: String,
    pub thumb: String,
    pub frames_dir: String,
    pub audio: String,
}

/// The lowest pixel budget of an extracted frame.
pub const MIN_PIXEL_LIMIT: u32 = 1;

/// The lowest sample rate of an extracted audio clip.
pub const MIN_SAMPLE_RATE: u32 = 8000;

/// `n` in decimal, padded with zeros to at least `width` digits.
pub open spec fn zero_padded(n: nat, width: nat) -> Seq<char> {
    let d = decimal(n);
    if d.len() < width {
        Seq::new((width - d.len()) as nat, |i: int| '0') + d
    } else {
        d
    }
}

/// `n` in decimal, padded with zeros to at least three digits (`{:03}`).
pub fn zero_padded3(n: u64) -> (r: String)
    ensures
        r@ == zero_padded(n as nat, 3),
{
    let d = decimal_string(n);
    let len = d.as_str().unicode_len();
    if len >= 3 {
        return d;
    }
    let mut r = String::new();
    let mut k: usize = 0;
    while k < 3 - len
        invariant
            len < 3,
            k <= 3 - len,
            r@ == Seq::new(k as nat, |i: int| '0'),
        decreases 3 - len - k,
    {
        proof {
            reveal_strlit("0");
        }
        r.append("0");
        assert(r@ =~= Seq::new((k + 1) as nat, |i: int| '0'));
        k = k + 1;
    }
    r.append(d.as_str());
    r
}

/// The thumbnail's file name.
pub fn thumb_file_name(video_hash: &str) -> (r: String)
    ensures
        r@ == video_hash@ + ".jpg"@,
{
    let mut r = String::from_str(video_hash);
    r.append(".jpg");
    r
}

/// The file name of a video's whole audio track.
pub fn audio_file_name(video_hash: &str) -> (r: String)
    ensures
        r@ == video_hash@ + ".wav"@,
{
    let mut r = String::from_str(video_hash);
    r.append(".wav");
    r
}

/// The file name of frame number `index`, taken at `millis` milliseconds.
pub fn frame_file_name(index: u64, millis: u64) -> (r: String)
    ensures
        r@ == "frame_"@ + zero_padded(index as nat, 3) + "_"@ + decimal(millis as nat) + "ms.jpg"@,
{
    let mut r = String::from_str("frame_");
    r.append(zero_padded3(index).as_str());
    r.append("_");
    r.append(decimal_string(millis).as_str());
    r.append("ms.jpg");
    r
}

/// The sample rate an audio clip is extracted at: the configured one, but
/// at least `MIN_SAMPLE_RATE`.
pub fn effective_sample_rate(sample_rate: u32) -> (r: u32)
    ensures
        r == if sample_rate < MIN_SAMPLE_RATE {
            MIN_SAMPLE_RATE
        } else {
            sample_rate
        },
{
    if sample_rate < MIN_SAMPLE_RATE {
        MIN_SAMPLE_RATE
    } else {
        sample_rate
    }
}

/// The pixel budget a frame is scaled to: the configured one, but at least
/// `MIN_PIXEL_LIMIT`.
pub fn effective_pixel_limit(pixel_limit: u32) -> (r: u32)
    ensures
        r == if pixel_limit < MIN_PIXEL_LIMIT {
            MIN_PIXEL_LIMIT
        } else {
            pixel_limit
        },
{
    if pixel_limit < MIN_PIXEL_LIMIT {
        MIN_PIXEL_LIMIT
    } else {
        pixel_limit
    }
}

/// The file name of the audio clip centred `millis` milliseconds into a
/// video, at `sample_rate` (already raised to the minimum).
pub fn audio_segment_file_name(video_hash: &str, millis: u64, sample_rate: u32) -> (r: String)
    ensures
        r@ == video_hash@ + "_"@ + decimal(millis as nat) + "ms_"@ + decimal(sample_rate as nat)
            + "hz.wav"@,
{
    let mut r = String::from_str(video_hash);
    r.append("_");
    r.append(decimal_string(millis).as_str());
    r.append("ms_");
    r.append(decimal_string(sample_rate as u64).as_str());
    r.append("hz.wav");
    r
}

/// The ffmpeg filter that scales a frame down, keeping its aspect and even
/// dimensions, when it has more than `pixel_limit` pixels.
pub open spec fn scale_filter_text(p: Seq<char>) -> Seq<char> {
    "scale='if(gt(iw*ih,"@ + p + "),trunc(iw*sqrt("@ + p + "/(iw*ih))/2)*2,iw)':'if(gt(iw*ih,"@
        + p + "),trunc(ih*sqrt("@ + p + "/(iw*ih))/2)*2,ih)'"@
}

/// The ffmpeg scale filter for frames of at most `pixel_limit` pixels (the
/// limit raised to at least `MIN_PIXEL_LIMIT`).
pub fn frame_scale_filter(pixel_limit: u32) -> (r: String)
    ensures
        r@ == scale_filter_text(
            decimal(
                (if pixel_limit < MIN_PIXEL_LIMIT {
                    MIN_PIXEL_LIMIT
                } else {
                    pixel_limit
                }) as nat,
            ),
        ),
{
    let p = decimal_string(effective_pixel_limit(pixel_limit) as u64);
    let mut r = String::from_str("scale='if(gt(iw*ih,");
    r.append(p.as_str());
    r.append("),trunc(iw*sqrt(");
    r.append(p.as_str());
    r.append("/(iw*ih))/2)*2,iw)':'if(gt(iw*ih,");
    r.append(p.as_str());
    r.append("),trunc(ih*sqrt(");
    r.append(p.as_str());
    r.append("/(iw*ih))/2)*2,ih)'");
    r
}

} // verus!

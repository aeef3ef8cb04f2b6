//! What the chat client builds and reads: chat messages, the content of a
//! multimodal request, and the text carried by a streamed reply.

use base64::Engine;
use vstd::prelude::*;

use crate::json::{json_array_at, json_is_array_at, json_parses, json_str_at, json_string_at, json_valid};
use crate::text::{chars_of, is_blank, str_equal, str_is_blank, trim_seq, trim_str};

verus! {

/// One message of a chat conversation.
#[derive(Debug, Clone)]
pub struct ChatMessage {
    pub role: String,
    pub content: String,
}

/// One part of the content of a multimodal user message.
#[derive(Debug, Clone)]
pub enum ContentPart {
    Text { text: String },
    ImageUrl { url: String },
    InputAudio { data: String, format: String },
}

/// What one line of a streamed reply holds.
#[derive(Debug, Clone)]
pub enum StreamLine {
    /// Not a data line.
    Skip,
    /// The end-of-stream marker.
    Done,
    /// The payload of a data line.
    Data(String),
}

/// Input lengths that `base64` can encode without its size computation
/// overflowing.
pub open spec fn base64_encodable(n: nat) -> bool {
    n <= usize::MAX / 4 * 3
}

/// The character of the standard base64 alphabet for `v < 64`.
pub open spec fn base64_char(v: int) -> char {
    if v < 26 {
        (65 + v) as char
    } else if v < 52 {
        (97 + v - 26) as char
    } else if v < 62 {
        (48 + v - 52) as char
    } else if v == 62 {
        '+'
    } else {
        '/'
    }
}

/// Standard base64 (RFC 4648 alphabet, with `=` padding) of `d`.
pub open spec fn base64_standard(d: Seq<u8>) -> Seq<char>
    decreases d.len(),
{
    if d.len() == 0 {
        Seq::empty()
    } else if d.len() == 1 {
        seq![base64_char((d[0] as int) / 4), base64_char(((d[0] as int) % 4) * 16), '=', '=']
    } else if d.len() == 2 {
        seq![
            base64_char((d[0] as int) / 4),
            base64_char(((d[0] as int) % 4) * 16 + (d[1] as int) / 16),
            base64_char(((d[1] as int) % 16) * 4),
            '=',
        ]
    } else {
        seq![
            base64_char((d[0] as int) / 4),
            base64_char(((d[0] as int) % 4) * 16 + (d[1] as int) / 16),
            base64_char(((d[1] as int) % 16) * 4 + (d[2] as int) / 64),
            base64_char((d[2] as int) % 64),
        ] + base64_standard(d.skip(3))
    }
}

/// `base64::engine::general_purpose::STANDARD.encode`: standard base64 with
/// padding. The input length stays where the encoder's output size fits in
/// `usize`; beyond that the encoder panics.
#[verifier::external_body]
fn base64_encode(data: &[u8]) -> (r: String)
    requires
        base64_encodable(data@.len()),
    ensures
        r@ == base64_standard(data@),
{
    base64::engine::general_purpose::STANDARD.encode(data)
}

/// Where a streamed chunk carries new text.
pub const DELTA_POINTER: &'static str = "/choices/0/delta/content";

/// Where a streamed chunk carries a whole message.
pub const MESSAGE_POINTER: &'static str = "/choices/0/message/content";

/// The text that a streamed chunk adds: its delta content, else its message
/// content.
pub open spec fn chunk_text(data: Seq<char>) -> Option<Seq<char>> {
    match json_str_at(data, DELTA_POINTER@) {
        Some(t) => Some(t),
        None => json_str_at(data, MESSAGE_POINTER@),
    }
}

/// The text that a streamed chunk adds, if any.
pub fn chunk_content(data: &str) -> (r: Option<String>)
    ensures
        r is Some == chunk_text(data@) is Some,
        r is Some ==> r.unwrap()@ == chunk_text(data@).unwrap(),
{
    match json_string_at(data, DELTA_POINTER) {
        Some(t) => Some(t),
        None => json_string_at(data, MESSAGE_POINTER),
    }
}

/// The prefix of a data line.
pub open spec fn data_prefix() -> Seq<char> {
    seq!['d', 'a', 't', 'a', ':']
}

/// Whether `s` starts with `p`.
pub open spec fn starts_with(s: Seq<char>, p: Seq<char>) -> bool {
    s.len() >= p.len() && s.take(p.len() as int) == p
}

/// `s` with every leading repetition of the data prefix removed
/// (`str::trim_start_matches`).
pub open spec fn strip_data_prefixes(s: Seq<char>) -> Seq<char>
    decreases s.len(),
{
    if starts_with(s, data_prefix()) {
        strip_data_prefixes(s.skip(5))
    } else {
        s
    }
}

/// The payload of a data line: after the prefixes, trimmed.
pub open spec fn line_payload(line: Seq<char>) -> Seq<char> {
    trim_seq(strip_data_prefixes(trim_seq(line)))
}

/// Whether a trimmed line is a data line.
pub open spec fn is_data_line(line: Seq<char>) -> bool {
    let t = trim_seq(line);
    t.len() > 0 && starts_with(t, data_prefix())
}

fn has_data_prefix_at(v: &Vec<char>, i: usize) -> (b: bool)
    requires
        i <= v@.len(),
    ensures
        b == starts_with(v@.skip(i as int), data_prefix()),
{
    let n = v.len();
    let r = n - i >= 5 && v[i] == 'd' && v[i + 1] == 'a' && v[i + 2] == 't' && v[i + 3] == 'a'
        && v[i + 4] == ':';
    proof {
        let s = v@.skip(i as int);
        if r {
            assert(s.take(5) =~= data_prefix());
        } else if s.len() >= 5 {
            if s.take(5) == data_prefix() {
                assert(s.take(5)[0] == v@[i as int]);
                assert(s.take(5)[1] == v@[i + 1]);
                assert(s.take(5)[2] == v@[i + 2]);
                assert(s.take(5)[3] == v@[i + 3]);
                assert(s.take(5)[4] == v@[i + 4]);
            }
        }
    }
    r
}

/// Sorts one line of a streamed reply: a line that trims to nothing or does
/// not start with `data:` is skipped; otherwise the payload after the
/// `data:` prefixes, trimmed, is the end marker when it reads `[DONE]`, and
/// data otherwise.
pub fn classify_stream_line(line: &str) -> (r: StreamLine)
    ensures
        !is_data_line(line@) ==> r is Skip,
        is_data_line(line@) && line_payload(line@) == "[DONE]"@ ==> r is Done,
        is_data_line(line@) && line_payload(line@) != "[DONE]"@ ==> (r matches StreamLine::Data(d)
            && d@ == line_payload(line@)),
{
    let t = trim_str(line);
    let v = chars_of(t);
    if v.len() == 0 || !has_data_prefix_at(&v, 0) {
        proof {
            assert(v@.skip(0) =~= v@);
        }
        return StreamLine::Skip;
    }
    assert(v@.skip(0) =~= v@);
    let n = v.len();
    let mut i: usize = 0;
    while has_data_prefix_at(&v, i)
        invariant
            i <= n == v@.len(),
            v@ == t@,
            strip_data_prefixes(v@.skip(i as int)) == strip_data_prefixes(t@),
        decreases n - i,
    {
        proof {
            assert(v@.skip(i as int).skip(5) =~= v@.skip(i + 5));
        }
        i = i + 5;
    }
    let rest = t.substring_char(i, n);
    assert(rest@ =~= v@.skip(i as int));
    let payload = trim_str(rest);
    if str_equal(payload, "[DONE]") {
        StreamLine::Done
    } else {
        StreamLine::Data(String::from_str(payload))
    }
}

/// Collects the text of a streamed reply, line by line.
pub struct StreamCollector {
    out: String,
    done: bool,
}

/// What one fed line did.
#[derive(Debug, Clone)]
pub struct FeedResult {
    /// Whether to read on.
    pub more: bool,
    /// The text the line added.
    pub delta: Option<String>,
}

/// The text collected after one more line.
pub open spec fn collected_after(out: Seq<char>, line: Seq<char>) -> Seq<char> {
    if is_data_line(line) && line_payload(line) != "[DONE]"@ {
        match chunk_text(line_payload(line)) {
            Some(t) => out + t,
            None => out,
        }
    } else {
        out
    }
}

/// The text that ends a stream's reply.
pub const EMPTY_REPLY: &'static str = "AI returned empty response";

impl StreamCollector {
    /// The text collected so far.
    pub closed spec fn text(&self) -> Seq<char> {
        self.out@
    }

    /// Whether the end marker was seen.
    pub closed spec fn is_done(&self) -> bool {
        self.done
    }

    /// A collector with nothing collected.
    pub fn new() -> (c: Self)
        ensures
            c.text() == Seq::<char>::empty(),
            !c.is_done(),
    {
        StreamCollector { out: String::new(), done: false }
    }

    /// Takes one line of the stream. Data lines add the text their chunk
    /// carries, which is handed back as `delta`; the end marker stops the
    /// stream; once stopped, lines are ignored. `more` tells whether to read
    /// on.
    pub fn feed(&mut self, line: &str) -> (r: FeedResult)
        ensures
            old(self).is_done() ==> (!r.more && r.delta is None && final(self).text() == old(self).text()
                && final(self).is_done()),
            !old(self).is_done() ==> ({
                let stop = is_data_line(line@) && line_payload(line@) == "[DONE]"@;
                &&& r.more == !stop
                &&& final(self).is_done() == stop
                &&& final(self).text() == collected_after(old(self).text(), line@)
                &&& r.delta is Some == (!stop && is_data_line(line@) && chunk_text(line_payload(line@)) is Some)
                &&& r.delta is Some ==> r.delta.unwrap()@ == chunk_text(line_payload(line@)).unwrap()
            }),
    {
        if self.done {
            return FeedResult { more: false, delta: None };
        }
        match classify_stream_line(line) {
            StreamLine::Skip => FeedResult { more: true, delta: None },
            StreamLine::Done => {
                self.done = true;
                FeedResult { more: false, delta: None }
            },
            StreamLine::Data(data) => {
                let delta = chunk_content(data.as_str());
                match &delta {
                    Some(t) => self.out.append(t.as_str()),
                    None => {},
                }
                FeedResult { more: true, delta }
            },
        }
    }

    /// The collected text; a reply that is blank is an error.
    pub fn finish(self) -> (r: Result<String, String>)
        ensures
            is_blank(self.text()) ==> (r matches Err(e) && e@ == EMPTY_REPLY@),
            !is_blank(self.text()) ==> (r matches Ok(t) && t@ == self.text()),
    {
        if str_is_blank(self.out.as_str()) {
            Err(String::from_str(EMPTY_REPLY))
        } else {
            Ok(self.out)
        }
    }
}

/// The text of a whole chat reply: the content of its first choice's
/// message, or empty when there is none. The body must be JSON.
pub open spec fn message_text(body: Seq<char>) -> Seq<char> {
    if json_is_array_at(body, "/choices"@) && json_str_at(body, MESSAGE_POINTER@) is Some {
        json_str_at(body, MESSAGE_POINTER@).unwrap()
    } else {
        Seq::empty()
    }
}

/// The text of a whole (not streamed) chat reply `body`: `None` when the
/// body is not JSON; otherwise the string content of the message of the
/// first entry of the `choices` array, or empty when there is no such
/// string.
pub fn message_content(body: &str) -> (r: Option<String>)
    ensures
        r is None <==> !json_valid(body@),
        r matches Some(t) ==> t@ == message_text(body@),
{
    if !json_parses(body) {
        return None;
    }
    if json_array_at(body, "/choices") {
        match json_string_at(body, MESSAGE_POINTER) {
            Some(t) => {
                return Some(t);
            },
            None => {},
        }
    }
    Some(String::new())
}

/// The data URL of a JPEG image in base64.
pub open spec fn jpeg_data_url(image: Seq<u8>) -> Seq<char> {
    "data:image/jpeg;base64,"@ + base64_standard(image)
}

/// Where the user text stands in a multimodal message: after the system
/// prompt, which is left out when blank.
pub open spec fn content_offset(system_prompt: Seq<char>) -> int {
    if is_blank(system_prompt) {
        0
    } else {
        1
    }
}

/// The content of a multimodal user message: the system prompt as text
/// unless it is blank, the user text, each image as a JPEG data URL, and
/// each audio clip as base64 WAV data, in that order.
pub fn multimodal_content(
    system_prompt: &str,
    user_text: &str,
    images: &Vec<Vec<u8>>,
    audio: &Vec<Vec<u8>>,
) -> (r: Vec<ContentPart>)
    requires
        forall|i: int| 0 <= i < images@.len() ==> base64_encodable(#[trigger] images@[i]@.len()),
        forall|i: int| 0 <= i < audio@.len() ==> base64_encodable(#[trigger] audio@[i]@.len()),
    ensures
        r@.len() == content_offset(system_prompt@) + 1 + images@.len() + audio@.len(),
        content_offset(system_prompt@) == 1 ==> (r@[0] matches ContentPart::Text { text }
            && text@ == system_prompt@),
        r@[content_offset(system_prompt@)] matches ContentPart::Text { text } && text@
            == user_text@,
        forall|j: int|
            content_offset(system_prompt@) + 1 <= j < content_offset(system_prompt@) + 1
                + images@.len() ==> (#[trigger] r@[j] matches ContentPart::ImageUrl { url } && url@
                == jpeg_data_url(images@[j - content_offset(system_prompt@) - 1]@)),
        forall|j: int|
            content_offset(system_prompt@) + 1 + images@.len() <= j < r@.len() ==> (
            #[trigger] r@[j] matches ContentPart::InputAudio { data, format } && data@
                == base64_standard(audio@[j - content_offset(system_prompt@) - 1 - images@.len()]@)
                && format@ == "wav"@),
{
    let mut parts: Vec<ContentPart> = Vec::new();
    if !str_is_blank(system_prompt) {
        parts.push(ContentPart::Text { text: String::from_str(system_prompt) });
    }
    parts.push(ContentPart::Text { text: String::from_str(user_text) });
    let ghost off: int = content_offset(system_prompt@);
    let ni = images.len();
    for i in 0..ni
        invariant
            ni == images@.len(),
            off == content_offset(system_prompt@),
            parts@.len() == off + 1 + i,
            forall|k: int| 0 <= k < images@.len() ==> base64_encodable(#[trigger] images@[k]@.len()),
            off == 1 ==> (parts@[0] matches ContentPart::Text { text } && text@ == system_prompt@),
            parts@[off] matches ContentPart::Text { text } && text@ == user_text@,
            forall|j: int|
                off + 1 <= j < off + 1 + i ==> (#[trigger] parts@[j] matches ContentPart::ImageUrl {
                    url,
                } && url@ == jpeg_data_url(images@[j - off - 1]@)),
    {
        let mut url = String::from_str("data:image/jpeg;base64,");
        url.append(base64_encode(images[i].as_slice()).as_str());
        parts.push(ContentPart::ImageUrl { url });
    }
    let na = audio.len();
    for i in 0..na
        invariant
            na == audio@.len(),
            ni == images@.len(),
            off == content_offset(system_prompt@),
            parts@.len() == off + 1 + ni + i,
            forall|k: int| 0 <= k < audio@.len() ==> base64_encodable(#[trigger] audio@[k]@.len()),
            off == 1 ==> (parts@[0] matches ContentPart::Text { text } && text@ == system_prompt@),
            parts@[off] matches ContentPart::Text { text } && text@ == user_text@,
            forall|j: int|
                off + 1 <= j < off + 1 + ni ==> (#[trigger] parts@[j] matches ContentPart::ImageUrl {
                    url,
                } && url@ == jpeg_data_url(images@[j - off - 1]@)),
            forall|j: int|
                off + 1 + ni <= j < off + 1 + ni + i ==> (#[trigger] parts@[j] matches ContentPart::InputAudio {
                    data,
                    format,
                } && data@ == base64_standard(audio@[j - off - 1 - ni]@) && format@ == "wav"@),
    {
        let data = base64_encode(audio[i].as_slice());
        parts.push(ContentPart::InputAudio { data, format: String::from_str("wav") });
    }
    parts
}

} // verus!

//! The text of the analysis and question-answering conversations, the
//! decision taken on the agent's first reply, and the plain-text rendering
//! of a summary. Numbers that the conversation shows with a fixed number of
//! decimals arrive already written out.

use vstd::prelude::*;

use crate::ai::agent::AgentResponse;
use crate::ai::client::ChatMessage;
use crate::media::video_manager::VideoMeta;
use crate::text::{decimal, decimal_string, join_from, join_seqs, texts};

verus! {

/// A scene of a summary, its times written out with one decimal.
#[derive(Debug, Clone)]
pub struct SceneText {
    pub start: String,
    pub end: String,
    pub description: String,
}

/// The prompt that asks for a video summary.
pub open spec fn analysis_prompt_text(
    instructions: Seq<char>,
    name: Seq<char>,
    duration_text: Seq<char>,
    width: nat,
    height: nat,
    fps_text: Seq<char>,
    frame_times_text: Seq<char>,
    schema: Seq<char>,
) -> Seq<char> {
    instructions + "\n\n# 当前视频输入\n"@ + "文件名："@ + name + "\n"@ + "时长："@ + duration_text
        + "s，分辨率："@ + decimal(width) + "x"@ + decimal(height) + "，fps："@ + fps_text
        + "\n"@ + "抽帧时间点："@ + frame_times_text + "\n"@ + "\n\n# 输出格式约束\n"@ + schema
}

/// The prompt that asks for a summary of `video`: the analysis
/// instructions, the video's name, duration, resolution, frame rate and
/// sampled frame times, then the response schema.
pub fn analysis_prompt(
    instructions: &str,
    video: &VideoMeta,
    duration_text: &str,
    fps_text: &str,
    frame_times_text: &str,
    schema: &str,
) -> (r: String)
    ensures
        r@ == analysis_prompt_text(
            instructions@,
            video.name@,
            duration_text@,
            video.width as nat,
            video.height as nat,
            fps_text@,
            frame_times_text@,
            schema@,
        ),
{
    let mut p = String::from_str(instructions);
    p.append("\n\n# 当前视频输入\n");
    p.append("文件名：");
    p.append(video.name.as_str());
    p.append("\n");
    p.append("时长：");
    p.append(duration_text);
    p.append("s，分辨率：");
    p.append(decimal_string(video.width as u64).as_str());
    p.append("x");
    p.append(decimal_string(video.height as u64).as_str());
    p.append("，fps：");
    p.append(fps_text);
    p.append("\n");
    p.append("抽帧时间点：");
    p.append(frame_times_text);
    p.append("\n");
    p.append("\n\n# 输出格式约束\n");
    p.append(schema);
    p
}

/// The first prompt of a question about a video.
pub open spec fn question_prompt_text(
    agent_rules: Seq<char>,
    video: VideoMeta,
    duration_text: Seq<char>,
    max_images: nat,
    max_audio_segments: nat,
    question: Seq<char>,
) -> Seq<char> {
    agent_rules + "\n\n# 当前视频\n视频名："@ + video.name@ + "\n视频路径："@ + video.path@
        + "\n视频 hash："@ + video.hash@ + "\n视频时长："@ + duration_text + "s\n最大图片数："@
        + decimal(max_images) + "\n最大音频段数："@ + decimal(max_audio_segments) + "\n用户问题："@
        + question
}

/// The first prompt of a question about `video`: the agent rules, the
/// video's name, path, hash and duration, the request limits, and the
/// question.
pub fn question_prompt(
    agent_rules: &str,
    video: &VideoMeta,
    duration_text: &str,
    max_images: usize,
    max_audio_segments: usize,
    question: &str,
) -> (r: String)
    ensures
        r@ == question_prompt_text(
            agent_rules@,
            *video,
            duration_text@,
            max_images as nat,
            max_audio_segments as nat,
            question@,
        ),
{
    let mut p = String::from_str(agent_rules);
    p.append("\n\n# 当前视频\n视频名：");
    p.append(video.name.as_str());
    p.append("\n视频路径：");
    p.append(video.path.as_str());
    p.append("\n视频 hash：");
    p.append(video.hash.as_str());
    p.append("\n视频时长：");
    p.append(duration_text);
    p.append("s\n最大图片数：");
    p.append(decimal_string(max_images as u64).as_str());
    p.append("\n最大音频段数：");
    p.append(decimal_string(max_audio_segments as u64).as_str());
    p.append("\n用户问题：");
    p.append(question);
    p
}

/// The prompt that hands the model the evidence it asked for.
pub open spec fn evidence_prompt_text(question: Seq<char>, name: Seq<char>, duration_text: Seq<
    char,
>) -> Seq<char> {
    "用户问题："@ + question + "\n\n程序已按你的 JSON 请求准备证据。请只根据这些证据和视频元数据回答。\n视频名："@
        + name + "\n视频时长："@ + duration_text + "s\n请用中文简洁回答。如果证据不足，直接说明不足。"@
}

/// The prompt that hands the model the evidence it asked for: the question,
/// the video's name and duration, and how to answer.
pub fn evidence_prompt(question: &str, name: &str, duration_text: &str) -> (r: String)
    ensures
        r@ == evidence_prompt_text(question@, name@, duration_text@),
{
    let mut p = String::from_str("用户问题：");
    p.append(question);
    p.append("\n\n程序已按你的 JSON 请求准备证据。请只根据这些证据和视频元数据回答。\n视频名：");
    p.append(name);
    p.append("\n视频时长：");
    p.append(duration_text);
    p.append("s\n请用中文简洁回答。如果证据不足，直接说明不足。");
    p
}

/// The prompt that tells the model its request was refused.
pub open spec fn repair_prompt_text(code: Seq<char>, message: Seq<char>, question: Seq<char>) -> Seq<
    char,
> {
    "你的上一条片段请求被程序拒绝。错误代码："@ + code + "。错误信息："@ + message
        + "。请在限制范围内重新请求更少数据，或者直接说明无法回答。用户问题："@ + question
}

/// What the agent's first reply leads to.
#[derive(Debug, Clone)]
pub enum FirstReplyPlan {
    /// The reply is not a segment request: it is the answer.
    ShowReply,
    /// The request is within the limits: extract the evidence and send it.
    ServeRequest,
    /// The request was refused: send this conversation, which ends with the
    /// refusal.
    Repair { messages: Vec<ChatMessage> },
}

/// Decides what follows the agent's first reply `first` to `first_prompt`.
/// `is_request` tells whether the reply reads as a segment request, and
/// `refusal` is what `check_segment_request` said of it.
pub fn plan_first_reply(
    first_prompt: &str,
    first: &str,
    question: &str,
    is_request: bool,
    refusal: Option<AgentResponse>,
) -> (r: FirstReplyPlan)
    ensures
        !is_request ==> r is ShowReply,
        is_request && !(refusal matches Some(AgentResponse::Error { .. })) ==> r is ServeRequest,
        is_request ==> (refusal matches Some(AgentResponse::Error { code, message }) ==> (
        r matches FirstReplyPlan::Repair { messages } && messages@.len() == 3 && messages@[0].role@
            == "user"@ && messages@[0].content@ == first_prompt@ && messages@[1].role@
            == "assistant"@ && messages@[1].content@ == first@ && messages@[2].role@ == "user"@
            && messages@[2].content@ == repair_prompt_text(code@, message@, question@))),
{
    if !is_request {
        return FirstReplyPlan::ShowReply;
    }
    match refusal {
        Some(AgentResponse::Error { code, message }) => {
            let mut repair = String::from_str("你的上一条片段请求被程序拒绝。错误代码：");
            repair.append(code.as_str());
            repair.append("。错误信息：");
            repair.append(message.as_str());
            repair.append("。请在限制范围内重新请求更少数据，或者直接说明无法回答。用户问题：");
            repair.append(question);
            let mut messages: Vec<ChatMessage> = Vec::new();
            messages.push(
                ChatMessage {
                    role: String::from_str("user"),
                    content: String::from_str(first_prompt),
                },
            );
            messages.push(
                ChatMessage { role: String::from_str("assistant"), content: String::from_str(first) },
            );
            messages.push(ChatMessage { role: String::from_str("user"), content: repair });
            FirstReplyPlan::Repair { messages }
        },
        _ => FirstReplyPlan::ServeRequest,
    }
}

/// The opening conversation of a question: one user message.
pub fn first_messages(first_prompt: &str) -> (r: Vec<ChatMessage>)
    ensures
        r@.len() == 1,
        r@[0].role@ == "user"@,
        r@[0].content@ == first_prompt@,
{
    let mut messages: Vec<ChatMessage> = Vec::new();
    messages.push(
        ChatMessage { role: String::from_str("user"), content: String::from_str(first_prompt) },
    );
    messages
}

/// The line that shows one scene.
pub open spec fn scene_line(s: SceneText) -> Seq<char> {
    "  "@ + s.start@ + "s-"@ + s.end@ + "s："@ + s.description@ + "\n"@
}

/// The lines that show `scenes`, in order.
pub open spec fn scene_lines(scenes: Seq<SceneText>) -> Seq<char>
    decreases scenes.len(),
{
    if scenes.len() == 0 {
        Seq::empty()
    } else {
        scene_lines(scenes.drop_last()) + scene_line(scenes.last())
    }
}

/// The plain-text rendering of a summary.
pub open spec fn analysis_text(
    title: Seq<char>,
    summary: Seq<char>,
    tags: Seq<Seq<char>>,
    scenes: Seq<SceneText>,
) -> Seq<char> {
    "标题："@ + title + "\n"@ + "简介："@ + summary + "\n"@ + (if tags.len() > 0 {
        "标签："@ + join_seqs(tags, " / "@) + "\n"@
    } else {
        Seq::empty()
    }) + (if scenes.len() > 0 {
        "场景：\n"@ + scene_lines(scenes)
    } else {
        Seq::empty()
    })
}

/// Joining one text gives that text.
pub proof fn law_join_single(t: Seq<char>, sep: Seq<char>)
    ensures
        join_seqs(seq![t], sep) == t,
{
}

/// A rendering with tags is the rendering without tags with the line
/// "标签：" and the tags joined by " / " put in after the summary line; this
/// holds for every non-empty tag list, a single tag included.
pub proof fn law_tag_line(
    title: Seq<char>,
    summary: Seq<char>,
    tags: Seq<Seq<char>>,
    scenes: Seq<SceneText>,
)
    requires
        tags.len() > 0,
    ensures
        ({
            let head = "标题："@ + title + "\n"@ + "简介："@ + summary + "\n"@;
            let plain = analysis_text(title, summary, Seq::empty(), scenes);
            &&& plain.take(head.len() as int) == head
            &&& analysis_text(title, summary, tags, scenes) == head + "标签："@ + join_seqs(
                tags,
                " / "@,
            ) + "\n"@ + plain.skip(head.len() as int)
        }),
{
    let head = "标题："@ + title + "\n"@ + "简介："@ + summary + "\n"@;
    let plain = analysis_text(title, summary, Seq::empty(), scenes);
    let rest = if scenes.len() > 0 {
        "场景：\n"@ + scene_lines(scenes)
    } else {
        Seq::empty()
    };
    assert(plain =~= head + rest);
    assert(plain.take(head.len() as int) =~= head);
    assert(plain.skip(head.len() as int) =~= rest);
    assert(analysis_text(title, summary, tags, scenes) =~= head + "标签："@ + join_seqs(tags, " / "@)
        + "\n"@ + rest);
}

/// Renders a summary as plain text: title, summary, the tags joined with
/// " / " when there are any, and one line per scene when there are any.
pub fn render_analysis_text(
    title: &str,
    summary: &str,
    tags: &Vec<String>,
    scenes: &Vec<SceneText>,
) -> (r: String)
    ensures
        r@ == analysis_text(title@, summary@, texts(tags@), scenes@),
{
    let mut out = String::from_str("标题：");
    out.append(title);
    out.append("\n");
    out.append("简介：");
    out.append(summary);
    out.append("\n");
    let ghost head = out@;
    if tags.len() > 0 {
        out.append("标签：");
        let joined = join_from(tags, 0, " / ");
        assert(texts(tags@).skip(0) =~= texts(tags@));
        out.append(joined.as_str());
        out.append("\n");
    }
    let ghost with_tags = out@;
    if scenes.len() > 0 {
        out.append("场景：\n");
        let ghost base = out@;
        let n = scenes.len();
        for i in 0..n
            invariant
                n == scenes@.len(),
                out@ == base + scene_lines(scenes@.take(i as int)),
        {
            let s = &scenes[i];
            out.append("  ");
            out.append(s.start.as_str());
            out.append("s-");
            out.append(s.end.as_str());
            out.append("s：");
            out.append(s.description.as_str());
            out.append("\n");
            proof {
                assert(scenes@.take(i + 1).drop_last() =~= scenes@.take(i as int));
                assert(scenes@.take(i + 1).last() == scenes@[i as int]);
            }
        }
        assert(scenes@.take(n as int) =~= scenes@);
    }
    out
}

} // verus!

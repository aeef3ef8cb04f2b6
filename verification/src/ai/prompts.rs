//! Names of the editable prompt files and the built-in prompt texts used
//! when a file cannot be read.

use vstd::prelude::*;

use crate::text::str_equal;

verus! {

pub const VIDEO_ANALYSIS_PROMPT: &'static str = "video_analysis_prompt.md";

pub const VIDEO_QA_AGENT_PROMPT: &'static str = "video_qa_agent_prompt.md";

pub const RESPONSE_SCHEMA_PROMPT: &'static str = "response_schema_prompt.md";

/// Built-in video summary prompt.
pub const DEFAULT_VIDEO_ANALYSIS_PROMPT: &'static str = r#"# 视频简介生成提示词

你是本地视频内容分析模型。程序会提供视频元数据、抽帧时间点、图片缓存文件路径、音频 wav 文件路径。

目标：生成中文、结构化、可搜索的视频简介。

要求：
1. 只根据提供的采样内容和元数据判断，不要编造没有证据的细节。
2. 简介要适合本地视频库搜索。
3. 标签应短、稳定、便于检索。
4. 场景描述应包含时间范围、画面主体、动作、环境、可见文字或音频线索。
5. 画质字段应描述清晰度、亮度、模糊、失真、稳定性等。
6. 音频字段应描述是否有人声、音乐、噪声、对白或旁白。
7. 必须严格遵循 response_schema_prompt.md 中的 JSON 格式。
8. 不要输出 markdown，不要输出解释，只输出 JSON。
"#;

/// Built-in rules of the question-answering agent.
pub const DEFAULT_VIDEO_QA_AGENT_PROMPT: &'static str = r#"# 当前视频问答 Agent 限制文本

你正在回答用户针对当前视频的问题。

程序会给你：
- 视频总时长
- 最大可请求图片数量
- 最大可请求音频段数量
- 用户问题

当你需要更多证据时，输出标准 JSON 请求，让程序抽取指定时间段的数据。请求必须符合：

{
  "type": "request_segment",
  "video_path": "程序提供的视频路径",
  "video_hash": "程序提供的视频 hash",
  "frame_times": [0.0],
  "audio_centers": [0.0]
}

规则：
1. frame_times 数量不能超过程序给出的最大图片数。
2. audio_centers 数量不能超过程序给出的最大音频段数。
3. 所有时间点必须在 0 到视频总时长之间。
4. 如果用户问“最后讲了什么”，应优先请求靠近视频结尾的图片和音频。
5. 如果用户问全局内容，应均匀请求少量图片和音频。
6. 如果已有信息足够回答，则直接用中文回答，不要请求数据。
"#;

/// Built-in JSON schema of the summary.
pub const DEFAULT_RESPONSE_SCHEMA_PROMPT: &'static str = r#"# AI 简介 JSON Schema

必须只输出严格 JSON，结构如下：

{
  "title": "string",
  "summary": "string",
  "tags": ["string"],
  "scenes": [
    {
      "start": 0.0,
      "end": 0.0,
      "description": "string",
      "tags": ["string"]
    }
  ],
  "quality": {
    "resolution_quality": "string or null",
    "blur": "string or null",
    "distortion": "string or null",
    "brightness": "string or null"
  },
  "audio": {
    "has_audio": true,
    "speech": "string or null",
    "music": "string or null",
    "noise": "string or null"
  }
}

禁止输出 markdown 代码块。禁止输出 JSON 以外的解释文本。
"#;

/// The built-in text of the prompt file `file_name`; empty for an unknown
/// name.
pub open spec fn default_prompt_text(file_name: Seq<char>) -> Seq<char> {
    if file_name == VIDEO_ANALYSIS_PROMPT@ {
        DEFAULT_VIDEO_ANALYSIS_PROMPT@
    } else if file_name == VIDEO_QA_AGENT_PROMPT@ {
        DEFAULT_VIDEO_QA_AGENT_PROMPT@
    } else if file_name == RESPONSE_SCHEMA_PROMPT@ {
        DEFAULT_RESPONSE_SCHEMA_PROMPT@
    } else {
        ""@
    }
}

/// The text of prompt `file_name`: what was read from its file, else the
/// built-in text.
pub open spec fn prompt_text(file_name: Seq<char>, stored: Option<String>) -> Seq<char> {
    match stored {
        Some(text) => text@,
        None => default_prompt_text(file_name),
    }
}

/// The built-in text of the prompt file `file_name`.
pub fn default_prompt(file_name: &str) -> (r: &'static str)
    ensures
        r@ == default_prompt_text(file_name@),
{
    if str_equal(file_name, VIDEO_ANALYSIS_PROMPT) {
        DEFAULT_VIDEO_ANALYSIS_PROMPT
    } else if str_equal(file_name, VIDEO_QA_AGENT_PROMPT) {
        DEFAULT_VIDEO_QA_AGENT_PROMPT
    } else if str_equal(file_name, RESPONSE_SCHEMA_PROMPT) {
        DEFAULT_RESPONSE_SCHEMA_PROMPT
    } else {
        ""
    }
}

/// The text of prompt `file_name`, given what reading its file gave.
pub fn prompt_or_default(file_name: &str, stored: Option<String>) -> (r: String)
    ensures
        r@ == prompt_text(file_name@, stored),
{
    match stored {
        Some(text) => text,
        None => String::from_str(default_prompt(file_name)),
    }
}

} // verus!

use ai_video::ai::agent::{build_initial_constraints_message, check_segment_request, AgentResponse};
use ai_video::ai::analyzer::{
    analysis_prompt, evidence_prompt, first_messages, plan_first_reply, question_prompt,
    render_analysis_text, FirstReplyPlan, SceneText,
};
use ai_video::ai::client::{
    message_content, chunk_content, classify_stream_line, multimodal_content, ContentPart, StreamCollector,
    StreamLine, EMPTY_REPLY,
};
use ai_video::media::video_manager::VideoMeta;

fn refusal(r: Option<AgentResponse>) -> (String, String) {
    match r {
        Some(AgentResponse::Error { code, message }) => (code, message),
        other => panic!("unexpected {other:?}"),
    }
}

#[test]
fn segment_request_within_limits_is_served() {
    assert!(check_segment_request(2, 1, 10, 10, true, "12.500", true).is_none());
    assert!(check_segment_request(10, 10, 10, 10, true, "12.500", true).is_none());
}

#[test]
fn segment_request_refusals_in_order() {
    let (c, m) = refusal(check_segment_request(11, 20, 10, 10, false, "12.500", false));
    assert_eq!(c, "too_many_images");
    assert_eq!(m, "requested 11 images, limit is 10");
    let (c, m) = refusal(check_segment_request(3, 4, 10, 3, false, "12.500", false));
    assert_eq!(c, "too_many_audio_segments");
    assert_eq!(m, "requested 4 audio segments, limit is 3");
    let (c, m) = refusal(check_segment_request(3, 3, 10, 3, false, "12.500", false));
    assert_eq!(c, "timestamp_out_of_range");
    assert_eq!(m, "timestamp must be between 0 and 12.500");
    let (c, m) = refusal(check_segment_request(0, 0, 0, 0, true, "1.000", false));
    assert_eq!(c, "invalid_audio_clip_length");
    assert_eq!(m, "audio_clip_seconds must be greater than 0");
}

#[test]
fn constraints_message_lists_limits() {
    let m = build_initial_constraints_message("61.250", 10, 4, "5", 24000, 8192);
    assert!(m.starts_with("Video total duration: 61.250s. Limits: max_images=10, max_audio_segments=4, audio_clip_seconds=5s, image_pixel_limit=24000, max_context_tokens=8192. Audio requests must use audio_centers."));
    assert!(m.ends_with("Use only the standard JSON agent request format for additional data."));
}

fn meta() -> VideoMeta {
    VideoMeta {
        path: "/v/猫.mp4".to_string(),
        name: "猫.mp4".to_string(),
        hash: "h1".to_string(),
        duration_bits: 3.0f64.to_bits(),
        width: 640,
        height: 360,
        fps_bits: 25.0f64.to_bits(),
        size: 1,
        mtime: 2,
    }
}

#[test]
fn analysis_prompt_text() {
    let p = analysis_prompt("RULES", &meta(), "3.000", "25.000", "[0.0, 3.0]", "SCHEMA");
    assert_eq!(
        p,
        "RULES\n\n# 当前视频输入\n文件名：猫.mp4\n时长：3.000s，分辨率：640x360，fps：25.000\n抽帧时间点：[0.0, 3.0]\n\n\n# 输出格式约束\nSCHEMA"
    );
}

#[test]
fn question_and_evidence_prompts() {
    let p = question_prompt("AGENT", &meta(), "3.000", 10, 2, "谁？");
    assert_eq!(
        p,
        "AGENT\n\n# 当前视频\n视频名：猫.mp4\n视频路径：/v/猫.mp4\n视频 hash：h1\n视频时长：3.000s\n最大图片数：10\n最大音频段数：2\n用户问题：谁？"
    );
    let e = evidence_prompt("谁？", "猫.mp4", "3.000");
    assert_eq!(
        e,
        "用户问题：谁？\n\n程序已按你的 JSON 请求准备证据。请只根据这些证据和视频元数据回答。\n视频名：猫.mp4\n视频时长：3.000s\n请用中文简洁回答。如果证据不足，直接说明不足。"
    );
    let m = first_messages("P");
    assert_eq!(m.len(), 1);
    assert_eq!(m[0].role, "user");
    assert_eq!(m[0].content, "P");
}

#[test]
fn first_reply_plans() {
    assert!(matches!(plan_first_reply("P", "answer", "Q", false, None), FirstReplyPlan::ShowReply));
    assert!(matches!(plan_first_reply("P", "{}", "Q", true, None), FirstReplyPlan::ServeRequest));
    let refused = check_segment_request(11, 0, 10, 10, true, "3.000", true);
    match plan_first_reply("P", "{req}", "Q", true, refused) {
        FirstReplyPlan::Repair { messages } => {
            assert_eq!(messages.len(), 3);
            assert_eq!((messages[0].role.as_str(), messages[0].content.as_str()), ("user", "P"));
            assert_eq!((messages[1].role.as_str(), messages[1].content.as_str()), ("assistant", "{req}"));
            assert_eq!(messages[2].role, "user");
            assert_eq!(
                messages[2].content,
                "你的上一条片段请求被程序拒绝。错误代码：too_many_images。错误信息：requested 11 images, limit is 10。请在限制范围内重新请求更少数据，或者直接说明无法回答。用户问题：Q"
            );
        }
        other => panic!("unexpected {other:?}"),
    }
}

#[test]
fn render_analysis_text_examples() {
    let tags = vec!["猫".to_string(), "室内".to_string()];
    let scenes = vec![
        SceneText { start: "0.0".to_string(), end: "1.5".to_string(), description: "猫跳".to_string() },
        SceneText { start: "1.5".to_string(), end: "3.0".to_string(), description: "睡觉".to_string() },
    ];
    assert_eq!(
        render_analysis_text("标题A", "简介B", &tags, &scenes),
        "标题：标题A\n简介：简介B\n标签：猫 / 室内\n场景：\n  0.0s-1.5s：猫跳\n  1.5s-3.0s：睡觉\n"
    );
    assert_eq!(render_analysis_text("T", "S", &Vec::new(), &Vec::new()), "标题：T\n简介：S\n");
}

#[test]
fn stream_lines_are_classified() {
    assert!(matches!(classify_stream_line(""), StreamLine::Skip));
    assert!(matches!(classify_stream_line(": keep-alive"), StreamLine::Skip));
    assert!(matches!(classify_stream_line("  data: [DONE]  "), StreamLine::Done));
    match classify_stream_line("data:data:  {\"x\":1} ") {
        StreamLine::Data(d) => assert_eq!(d, "{\"x\":1}"),
        other => panic!("unexpected {other:?}"),
    }
    match classify_stream_line("data: data:  {\"x\":1} ") {
        StreamLine::Data(d) => assert_eq!(d, "data:  {\"x\":1}"),
        other => panic!("unexpected {other:?}"),
    }
    match classify_stream_line("data:") {
        StreamLine::Data(d) => assert_eq!(d, ""),
        other => panic!("unexpected {other:?}"),
    }
}

#[test]
fn chunk_content_prefers_delta() {
    assert_eq!(chunk_content(r#"{"choices":[{"delta":{"content":"你"}}]}"#), Some("你".to_string()));
    assert_eq!(chunk_content(r#"{"choices":[{"message":{"content":"all"}}]}"#), Some("all".to_string()));
    assert_eq!(
        chunk_content(r#"{"choices":[{"delta":{"content":null},"message":{"content":"m"}}]}"#),
        Some("m".to_string())
    );
    assert_eq!(chunk_content(r#"{"choices":[]}"#), None);
    assert_eq!(chunk_content("not json"), None);
}

#[test]
fn stream_collector_gathers_until_done() {
    let mut c = StreamCollector::new();
    let r = c.feed(r#"data: {"choices":[{"delta":{"content":"你"}}]}"#);
    assert!(r.more);
    assert_eq!(r.delta, Some("你".to_string()));
    assert!(c.feed("").more);
    assert_eq!(c.feed("event: x").delta, None);
    assert!(c.feed(r#"data: {"choices":[{"delta":{"content":"好"}}]}"#).more);
    assert!(c.feed(r#"data: {"choices":[]}"#).more);
    assert!(!c.feed("data: [DONE]").more);
    let r = c.feed(r#"data: {"choices":[{"delta":{"content":"!"}}]}"#);
    assert!(!r.more);
    assert_eq!(r.delta, None);
    assert_eq!(c.finish(), Ok("你好".to_string()));
}

#[test]
fn stream_collector_rejects_blank_reply() {
    let mut c = StreamCollector::new();
    assert!(c.feed(r#"data: {"choices":[{"delta":{"content":"  "}}]}"#).more);
    assert_eq!(c.finish(), Err(EMPTY_REPLY.to_string()));
    assert_eq!(EMPTY_REPLY, "AI returned empty response");
}

#[test]
fn multimodal_content_parts() {
    let images = vec![b"Man".to_vec(), b"M".to_vec()];
    let audio = vec![vec![0xff, 0x00, 0x10, b'h', b'e', b'l', b'l', b'o']];
    let parts = multimodal_content("  ", "看图", &images, &audio);
    assert_eq!(parts.len(), 4);
    assert!(matches!(&parts[0], ContentPart::Text { text } if text == "看图"));
    assert!(matches!(&parts[1], ContentPart::ImageUrl { url } if url == "data:image/jpeg;base64,TWFu"));
    assert!(matches!(&parts[2], ContentPart::ImageUrl { url } if url == "data:image/jpeg;base64,TQ=="));
    assert!(matches!(&parts[3], ContentPart::InputAudio { data, format } if data == "/wAQaGVsbG8=" && format == "wav"));
    let parts = multimodal_content("SYS", "U", &Vec::new(), &Vec::new());
    assert_eq!(parts.len(), 2);
    assert!(matches!(&parts[0], ContentPart::Text { text } if text == "SYS"));
}

#[test]
fn message_content_reads_first_choice() {
    assert_eq!(
        message_content(r#"{"choices":[{"message":{"content":"答案"}},{"message":{"content":"x"}}]}"#),
        Some("答案".to_string())
    );
    assert_eq!(message_content(r#"{"choices":[]}"#), Some(String::new()));
    assert_eq!(message_content(r#"{"choices":{"0":{"message":{"content":"no"}}}}"#), Some(String::new()));
    assert_eq!(message_content(r#"{"choices":[{"message":{"content":7}}]}"#), Some(String::new()));
    assert_eq!(message_content("not json"), None);
}

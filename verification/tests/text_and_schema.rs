use ai_video::ai::prompts::{
    default_prompt, prompt_or_default, DEFAULT_RESPONSE_SCHEMA_PROMPT, DEFAULT_VIDEO_ANALYSIS_PROMPT,
    DEFAULT_VIDEO_QA_AGENT_PROMPT, RESPONSE_SCHEMA_PROMPT, VIDEO_ANALYSIS_PROMPT,
    VIDEO_QA_AGENT_PROMPT,
};
use ai_video::ai::schema::{can_clean, clean_model_output, response_schema_prompt};
use ai_video::text::{decimal_string, join_from, str_equal, str_is_blank, trim_str};

#[test]
fn decimal_string_writes_digits() {
    assert_eq!(decimal_string(0), "0");
    assert_eq!(decimal_string(7), "7");
    assert_eq!(decimal_string(10), "10");
    assert_eq!(decimal_string(24000), "24000");
    assert_eq!(decimal_string(u64::MAX), u64::MAX.to_string());
}

#[test]
fn trim_removes_unicode_white_space() {
    assert_eq!(trim_str("  a b \n"), "a b");
    assert_eq!(trim_str("\u{3000}视频\u{a0}"), "视频");
    assert_eq!(trim_str(" \t "), "");
    assert_eq!(trim_str(""), "");
    assert!(str_is_blank(" \r\n\u{2003}"));
    assert!(!str_is_blank(" x "));
}

#[test]
fn str_equal_compares_characters() {
    assert!(str_equal("视频", "视频"));
    assert!(!str_equal("视频", "视"));
    assert!(!str_equal("ab", "ac"));
}

#[test]
fn join_from_joins_the_tail() {
    let parts = vec!["a".to_string(), "b".to_string(), "c".to_string()];
    assert_eq!(join_from(&parts, 0, " -> "), "a -> b -> c");
    assert_eq!(join_from(&parts, 2, " -> "), "c");
    assert_eq!(join_from(&parts, 3, " -> "), "");
}

#[test]
fn clean_model_output_keeps_the_json_span() {
    assert_eq!(clean_model_output("  ```json\n{\"a\": {\"b\": 1}}\n```  "), "{\"a\": {\"b\": 1}}");
    assert_eq!(clean_model_output("说明：{\"title\":\"x\"} 结束"), "{\"title\":\"x\"}");
    assert_eq!(clean_model_output("  plain answer \n"), "plain answer");
    assert_eq!(clean_model_output("only { open"), "only { open");
    assert_eq!(clean_model_output(""), "");
}

#[test]
fn clean_model_output_is_idempotent_on_examples() {
    for raw in ["  x {\"a\":1} y ", "no braces", " {} ", "a}b"] {
        let once = clean_model_output(raw);
        assert!(can_clean(&once));
        assert_eq!(clean_model_output(&once), once);
    }
}

#[test]
fn can_clean_rejects_reversed_braces() {
    assert!(!can_clean("} then {"));
    assert!(can_clean("}{"));
    assert!(can_clean(" x }{ y "));
    assert_eq!(clean_model_output("}{"), "");
    assert_eq!(clean_model_output(" x }{ y "), "");
    assert!(can_clean("{ then }"));
    assert!(can_clean("no braces"));
    assert!(can_clean("} only"));
}

#[test]
fn default_prompt_by_file_name() {
    assert_eq!(default_prompt(VIDEO_ANALYSIS_PROMPT), DEFAULT_VIDEO_ANALYSIS_PROMPT);
    assert_eq!(default_prompt(VIDEO_QA_AGENT_PROMPT), DEFAULT_VIDEO_QA_AGENT_PROMPT);
    assert_eq!(default_prompt(RESPONSE_SCHEMA_PROMPT), DEFAULT_RESPONSE_SCHEMA_PROMPT);
    assert_eq!(default_prompt("other.md"), "");
    assert!(DEFAULT_RESPONSE_SCHEMA_PROMPT.contains("\"title\": \"string\""));
}

#[test]
fn stored_prompt_wins_over_default() {
    assert_eq!(prompt_or_default(VIDEO_ANALYSIS_PROMPT, Some("mine".to_string())), "mine");
    assert_eq!(prompt_or_default(VIDEO_ANALYSIS_PROMPT, None), DEFAULT_VIDEO_ANALYSIS_PROMPT);
    assert_eq!(response_schema_prompt(None), DEFAULT_RESPONSE_SCHEMA_PROMPT);
    assert_eq!(response_schema_prompt(Some("schema".to_string())), "schema");
}

use ai_video::media::cache_manager::{
    audio_file_name, audio_segment_file_name, effective_pixel_limit, effective_sample_rate,
    frame_file_name, frame_scale_filter, thumb_file_name, zero_padded3,
};
use ai_video::media::media_probe::probe_fields;
use ai_video::media::settings::CacheSwitchPolicy;
use ai_video::media::video_manager::{
    is_video_extension, is_video_path, sort_by_path, stable_video_hash, text_less, VideoMeta,
};
use ai_video::models::LocalModelConfig;

fn at(path: &str) -> VideoMeta {
    VideoMeta {
        path: path.to_string(),
        name: path.to_string(),
        hash: String::new(),
        duration_bits: 0,
        width: 0,
        height: 0,
        fps_bits: 0,
        size: 0,
        mtime: 0,
    }
}

#[test]
fn video_extensions_ignore_ascii_case() {
    for ext in ["mp4", "MKV", "Avi", "mov", "webm", "FLV", "m4v", "wmv"] {
        assert!(is_video_extension(ext), "{ext}");
    }
    for ext in ["txt", "mp", "mp44", "", "jpg"] {
        assert!(!is_video_extension(ext), "{ext}");
    }
}

#[test]
fn video_paths_by_extension() {
    assert!(is_video_path("/videos/Clip.MKV"));
    assert!(is_video_path("relative/视频.mp4"));
    assert!(!is_video_path("/videos/readme"));
    assert!(!is_video_path("/videos/notes.mp4.txt"));
    assert!(!is_video_path("/videos/.mp4"));
}

#[test]
fn full_paths_by_extension() {
    assert!(is_video_path("/v/Movie.MP4"));
    assert!(!is_video_path("/v/a.mp4.txt"));
    assert!(!is_video_path("/v/mp4"));
    assert!(!is_video_path("/v/.mp4"));
    assert!(is_video_path("/v/a.mp4/"));
    assert!(is_video_path("/v/a.webm/."));
    assert!(!is_video_path("/v/a.mp4/.."));
    assert!(is_video_path("./v//b.flv"));
}

#[test]
fn sort_by_path_keeps_equal_paths_in_order() {
    let mut a = at("/v/same");
    a.name = "first".to_string();
    let mut b = at("/v/same");
    b.name = "second".to_string();
    let sorted = sort_by_path(vec![at("/v/z"), a, at("/v/a"), b]);
    let names: Vec<&str> = sorted.iter().map(|v| v.name.as_str()).collect();
    assert_eq!(names, vec!["/v/a", "first", "second", "/v/z"]);
}

#[test]
fn plain_file_names_by_extension() {
    assert!(is_video_path("clip.MOV"));
    assert!(is_video_path("a..mp4"));
    assert!(!is_video_path(".mp4"));
    assert!(!is_video_path(".."));
    assert!(!is_video_path("."));
    assert!(!is_video_path("clip"));
    assert!(!is_video_path("mp4."));
}

#[test]
fn stable_video_hash_matches_sha256_prefix() {
    assert_eq!(stable_video_hash("/videos/a.mp4", 1024, -5), "eff7c6f568422ffaaa5291c3b4cd682a");
    assert_eq!(stable_video_hash("/v/视频.mkv", 0, 1700000000), "9203e61901583d396d997dbbc6d76477");
    assert_eq!(stable_video_hash("x", 1, 1).len(), 32);
}

#[test]
fn paths_order_like_strings() {
    assert!(text_less("a", "b"));
    assert!(text_less("a", "ab"));
    assert!(!text_less("ab", "a"));
    assert!(!text_less("a", "a"));
    assert!(text_less("Z", "a"));
    assert!(text_less("z", "视"));
}

#[test]
fn sort_by_path_orders_videos() {
    let sorted = sort_by_path(vec![at("/v/c"), at("/v/a"), at("/v/b"), at("/v/a0")]);
    let paths: Vec<&str> = sorted.iter().map(|v| v.path.as_str()).collect();
    assert_eq!(paths, vec!["/v/a", "/v/a0", "/v/b", "/v/c"]);
    assert!(sort_by_path(Vec::new()).is_empty());
}

#[test]
fn cache_file_names() {
    assert_eq!(thumb_file_name("abc"), "abc.jpg");
    assert_eq!(audio_file_name("abc"), "abc.wav");
    assert_eq!(frame_file_name(7, 1500), "frame_007_1500ms.jpg");
    assert_eq!(frame_file_name(1234, 0), "frame_1234_0ms.jpg");
    assert_eq!(zero_padded3(0), "000");
    assert_eq!(zero_padded3(45), "045");
    assert_eq!(audio_segment_file_name("abc", 2500, 16000), "abc_2500ms_16000hz.wav");
}

#[test]
fn extraction_parameters_have_floors() {
    assert_eq!(effective_sample_rate(4000), 8000);
    assert_eq!(effective_sample_rate(16000), 16000);
    assert_eq!(effective_pixel_limit(0), 1);
    assert_eq!(effective_pixel_limit(24000), 24000);
    assert_eq!(
        frame_scale_filter(0),
        "scale='if(gt(iw*ih,1),trunc(iw*sqrt(1/(iw*ih))/2)*2,iw)':'if(gt(iw*ih,1),trunc(ih*sqrt(1/(iw*ih))/2)*2,ih)'"
    );
    let p = 24000;
    assert_eq!(
        frame_scale_filter(p),
        format!("scale='if(gt(iw*ih,{0}),trunc(iw*sqrt({0}/(iw*ih))/2)*2,iw)':'if(gt(iw*ih,{0}),trunc(ih*sqrt({0}/(iw*ih))/2)*2,ih)'", p)
    );
}

#[test]
fn local_model_default() {
    let c = LocalModelConfig::default();
    assert_eq!(c.name, "local-llamacpp");
    assert_eq!(c.endpoint, "http://127.0.0.1:7080/v1/chat/completions");
    assert!(c.launch_script.is_none());
    assert!(c.supports_images);
    assert!(!c.supports_audio);
    assert!(CacheSwitchPolicy::Keep != CacheSwitchPolicy::ClearOnFolderChange);
}

#[test]
fn probe_report_fields() {
    let report = r#"{"streams":[{"width":1920,"height":1080,"r_frame_rate":"30000/1001"}],"format":{"duration":"12.345"}}"#;
    let f = probe_fields(report).unwrap();
    assert_eq!(f.duration_text.as_deref(), Some("12.345"));
    assert_eq!((f.width, f.height), (1920, 1080));
    assert_eq!(f.rate_text, "30000/1001");
    let f = probe_fields(r#"{"streams":[],"format":{"duration":12}}"#).unwrap();
    assert_eq!(f.duration_text, None);
    assert_eq!((f.width, f.height), (0, 0));
    assert_eq!(f.rate_text, "0/1");
    let f = probe_fields(r#"{"streams":{"0":{"width":5}}}"#).unwrap();
    assert_eq!(f.width, 0);
    let f = probe_fields(r#"{"streams":[{"width":4294967297,"height":-3}]}"#).unwrap();
    assert_eq!((f.width, f.height), (1, 0));
    assert!(probe_fields("{oops").is_none());
}

#[test]
fn windows_style_paths_by_extension() {
    assert!(is_video_path("C:\\v\\Movie.MP4"));
    assert!(!is_video_path("C:\\v\\a.mp4.txt"));
    assert!(is_video_path("/home/u/a:b/clip.mkv"));
}

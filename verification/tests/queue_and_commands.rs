use ai_video::ai::queue::{AnalysisQueue, QueueState};
use ai_video::media::video_manager::VideoMeta;
use ai_video::ui::commands::{
    ask_current_video, pause_analysis_queue, search_plan, start_analysis_queue, SearchPlan,
    ASK_REFUSAL,
};

fn video(name: &str) -> VideoMeta {
    VideoMeta {
        path: format!("/videos/{name}"),
        name: name.to_string(),
        hash: format!("hash-{name}"),
        duration_bits: 12.5f64.to_bits(),
        width: 1920,
        height: 1080,
        fps_bits: 30.0f64.to_bits(),
        size: 100,
        mtime: 1,
    }
}

fn names(v: &[&str]) -> Vec<VideoMeta> {
    v.iter().map(|n| video(n)).collect()
}

#[test]
fn new_queue_is_idle_and_empty() {
    let q = AnalysisQueue::new();
    assert_eq!(q.state(), QueueState::Idle);
    assert_eq!(q.remaining_len(), 0);
    assert!(q.current().is_none());
    assert!(!q.can_user_ask());
}

#[test]
fn load_from_skips_the_first_videos() {
    let q = AnalysisQueue::load_from(names(&["a", "b", "c"]), 1);
    assert_eq!(q.state(), QueueState::Idle);
    assert_eq!(q.remaining_len(), 2);
    let q = AnalysisQueue::load_from(names(&["a", "b"]), 5);
    assert_eq!(q.remaining_len(), 0);
}

#[test]
fn start_takes_the_first_job_and_runs() {
    let mut q = AnalysisQueue::load_from(names(&["a", "b", "c"]), 1);
    q.start();
    assert_eq!(q.state(), QueueState::Running);
    assert_eq!(q.current().unwrap().video.name, "b");
    assert_eq!(q.remaining_len(), 2);
}

#[test]
fn start_on_empty_queue_finishes() {
    let mut q = AnalysisQueue::new();
    q.start();
    assert_eq!(q.state(), QueueState::Finished);
}

#[test]
fn jobs_complete_in_load_order() {
    let mut q = AnalysisQueue::load_from(names(&["a", "b", "c"]), 0);
    q.start();
    assert_eq!(q.complete_current().unwrap().video.name, "a");
    assert_eq!(q.current().unwrap().video.name, "b");
    assert_eq!(q.state(), QueueState::Running);
    assert_eq!(q.complete_current().unwrap().video.name, "b");
    assert_eq!(q.complete_current().unwrap().video.name, "c");
    assert_eq!(q.state(), QueueState::Finished);
    assert_eq!(q.remaining_len(), 0);
    assert!(q.complete_current().is_none());
}

#[test]
fn complete_on_idle_queue_moves_next_job_in() {
    let mut q = AnalysisQueue::load_from(names(&["a", "b"]), 0);
    assert!(q.complete_current().is_none());
    assert_eq!(q.current().unwrap().video.name, "a");
    assert_eq!(q.state(), QueueState::Idle);
    assert_eq!(q.remaining_len(), 2);
}

#[test]
fn pause_and_resume() {
    let mut q = AnalysisQueue::load_from(names(&["a"]), 0);
    q.pause();
    assert_eq!(q.state(), QueueState::Idle);
    q.resume();
    assert_eq!(q.state(), QueueState::Idle);
    q.start();
    q.pause();
    assert_eq!(q.state(), QueueState::Paused);
    assert!(q.can_user_ask());
    q.pause();
    assert_eq!(q.state(), QueueState::Paused);
    q.resume();
    assert_eq!(q.state(), QueueState::Running);
    assert!(!q.can_user_ask());
}

#[test]
fn next_job_only_while_running() {
    let mut q = AnalysisQueue::load_from(names(&["a", "b"]), 0);
    assert!(q.next_job().is_none());
    q.start();
    assert_eq!(q.next_job().unwrap().video.name, "a");
    assert_eq!(q.next_job().unwrap().video.name, "a");
    q.pause();
    assert!(q.next_job().is_none());
    assert_eq!(q.state(), QueueState::Paused);
}

#[test]
fn start_analysis_queue_starts_from_index() {
    let q = start_analysis_queue(names(&["a", "b", "c"]), 2);
    assert_eq!(q.state(), QueueState::Running);
    assert_eq!(q.current().unwrap().video.name, "c");
    let q = start_analysis_queue(names(&["a"]), 1);
    assert_eq!(q.state(), QueueState::Finished);
}

#[test]
fn pause_analysis_queue_reports_state() {
    let mut q = start_analysis_queue(names(&["a"]), 0);
    assert_eq!(pause_analysis_queue(&mut q), QueueState::Paused);
    let mut idle = AnalysisQueue::new();
    assert_eq!(pause_analysis_queue(&mut idle), QueueState::Idle);
}

#[test]
fn ask_current_video_only_when_paused() {
    let mut q = start_analysis_queue(names(&["clip.mp4"]), 0);
    assert_eq!(ask_current_video(&q, "谁在说话"), Err(ASK_REFUSAL.to_string()));
    assert_eq!(ASK_REFUSAL, "后台分析未暂停，当前禁止用户提问");
    q.pause();
    assert_eq!(
        ask_current_video(&q, "谁在说话"),
        Ok("已接收针对 clip.mp4 的问题：谁在说话".to_string())
    );
}

#[test]
fn search_plan_chooses_latest_for_blank_query() {
    match search_plan("  ", None) {
        SearchPlan::Latest { limit } => assert_eq!(limit, 50),
        other => panic!("unexpected {other:?}"),
    }
    match search_plan("猫 狗", Some(7)) {
        SearchPlan::FullText { query, limit } => {
            assert_eq!(query, "猫 狗");
            assert_eq!(limit, 7);
        }
        other => panic!("unexpected {other:?}"),
    }
}

#[test]
fn every_loaded_video_completes_in_order() {
    let vs = names(&["a", "b", "c", "d"]);
    let mut q = AnalysisQueue::load_from(vs.clone(), 1);
    q.start();
    for expected in ["b", "c", "d"] {
        assert_eq!(q.complete_current().unwrap().video.name, expected);
    }
    assert!(q.current().is_none());
    assert_eq!(q.remaining_len(), 0);
    assert_eq!(q.state(), QueueState::Finished);
    assert!(q.complete_current().is_none());
    assert!(q.complete_current().is_none());
}

//! The decisions behind the application's commands: starting and pausing
//! the analysis queue, answering a question about the current video, and
//! choosing how a library search runs.

use vstd::prelude::*;

use crate::ai::queue::{jobs_from, AnalysisQueue, QueueState};
use crate::media::video_manager::VideoMeta;
use crate::text::str_is_blank;
use crate::text::is_blank;

verus! {

/// One row of a library search.
#[derive(Debug, Clone)]
pub struct SearchResult {
    pub video_id: i64,
    pub path: String,
    pub name: String,
    pub title: Option<String>,
    pub summary: Option<String>,
}

/// How a library search runs.
#[derive(Debug, Clone)]
pub enum SearchPlan {
    /// The most recently updated videos.
    Latest { limit: usize },
    /// A full-text match of `query`.
    FullText { query: String, limit: usize },
}

/// The number of rows a search returns when no limit is given.
pub const DEFAULT_SEARCH_LIMIT: usize = 50;

/// The refusal given while the queue is not paused on a video.
pub const ASK_REFUSAL: &'static str = "后台分析未暂停，当前禁止用户提问";

/// A search for `query` with at most `limit` rows (50 when none is given):
/// a blank query lists the latest videos, any other runs a full-text match.
pub fn search_plan(query: &str, limit: Option<usize>) -> (r: SearchPlan)
    ensures
        ({
            let n = match limit {
                Some(l) => l,
                None => DEFAULT_SEARCH_LIMIT,
            };
            if is_blank(query@) {
                r == SearchPlan::Latest { limit: n }
            } else {
                r matches SearchPlan::FullText { query: q, limit: m } && q@ == query@ && m == n
            }
        }),
{
    let n = match limit {
        Some(l) => l,
        None => DEFAULT_SEARCH_LIMIT,
    };
    if str_is_blank(query) {
        SearchPlan::Latest { limit: n }
    } else {
        SearchPlan::FullText { query: String::from_str(query), limit: n }
    }
}

/// A new queue of the videos from `start_index` on, started.
pub fn start_analysis_queue(videos: Vec<VideoMeta>, start_index: usize) -> (q: AnalysisQueue)
    requires
        videos@.len() < usize::MAX,
    ensures
        q.wf(),
        q.job_order() == jobs_from(videos@, start_index as int),
        q.queue_state() == (if jobs_from(videos@, start_index as int).len() > 0 {
            QueueState::Running
        } else {
            QueueState::Finished
        }),
{
    let mut q = AnalysisQueue::load_from(videos, start_index);
    q.start();
    q
}

/// Pauses the queue and returns its state afterwards.
pub fn pause_analysis_queue(queue: &mut AnalysisQueue) -> (s: QueueState)
    requires
        old(queue).wf(),
    ensures
        final(queue).wf(),
        final(queue).pending() == old(queue).pending(),
        final(queue).current_job() == old(queue).current_job(),
        final(queue).queue_state() == crate::ai::queue::paused_state(old(queue).queue_state()),
        s == final(queue).queue_state(),
{
    queue.pause();
    queue.state()
}

/// The reply to a question about the current video: accepted only while
/// the queue is paused on a video, naming that video; refused otherwise.
pub fn ask_current_video(queue: &AnalysisQueue, question: &str) -> (r: Result<String, String>)
    ensures
        !(queue.queue_state() == QueueState::Paused && queue.current_job() is Some) ==> (r matches Err(
            e,
        ) && e@ == ASK_REFUSAL@),
        queue.queue_state() == QueueState::Paused && queue.current_job() is Some ==> (r matches Ok(
            m,
        ) && m@ == "已接收针对 "@ + queue.current_job().unwrap().video.name@ + " 的问题："@
            + question@),
{
    if !queue.can_user_ask() {
        return Err(String::from_str(ASK_REFUSAL));
    }
    let mut m = String::from_str("已接收针对 ");
    match queue.current() {
        Some(job) => m.append(job.video.name.as_str()),
        None => m.append("当前视频"),
    }
    m.append(" 的问题：");
    m.append(question);
    Ok(m)
}

} // verus!

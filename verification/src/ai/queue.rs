//! The single-threaded analysis queue: jobs are handed out one at a time in
//! the order they were loaded, and the user may ask questions about the
//! current job only while the queue is paused.

use vstd::prelude::*;

use crate::media::video_manager::VideoMeta;

verus! {

/// One video waiting for, or under, analysis.
#[derive(Debug)]
pub struct AnalysisJob {
    pub video: VideoMeta,
}

impl Clone for AnalysisJob {
    fn clone(&self) -> (r: Self)
        ensures
            r == *self,
    {
        AnalysisJob { video: self.video.clone() }
    }
}

/// Where the queue stands.
#[derive(Debug, Clone, Copy, PartialEq, Eq, Structural)]
pub enum QueueState {
    Idle,
    Running,
    Paused,
    Finished,
}

/// The analysis queue: the jobs not yet started, the job under analysis,
/// and the state.
#[derive(Debug)]
pub struct AnalysisQueue {
    jobs: std::collections::VecDeque<AnalysisJob>,
    current: Option<AnalysisJob>,
    state: QueueState,
}

/// The jobs of `current` followed by `pending`: the order in which jobs are
/// still to be finished.
pub open spec fn order_of(current: Option<AnalysisJob>, pending: Seq<AnalysisJob>) -> Seq<
    AnalysisJob,
> {
    match current {
        Some(j) => seq![j] + pending,
        None => pending,
    }
}

/// The jobs made from `videos`, skipping the first `start` of them.
pub open spec fn jobs_from(videos: Seq<VideoMeta>, start: int) -> Seq<AnalysisJob> {
    if start < videos.len() {
        Seq::new((videos.len() - start) as nat, |i: int| AnalysisJob { video: videos[start + i] })
    } else {
        Seq::empty()
    }
}

/// The state that `pause` leaves.
pub open spec fn paused_state(s: QueueState) -> QueueState {
    if s == QueueState::Running {
        QueueState::Paused
    } else {
        s
    }
}

/// The state that `resume` leaves.
pub open spec fn resumed_state(s: QueueState) -> QueueState {
    if s == QueueState::Paused {
        QueueState::Running
    } else {
        s
    }
}

/// Resuming a queue that was paused while running makes it run again.
pub proof fn law_resume_undoes_pause(s: QueueState)
    requires
        s == QueueState::Running,
    ensures
        resumed_state(paused_state(s)) == s,
{
}

/// Pausing twice is pausing once, and resuming twice is resuming once.
pub proof fn law_pause_and_resume_idempotent(s: QueueState)
    ensures
        paused_state(paused_state(s)) == paused_state(s),
        resumed_state(resumed_state(s)) == resumed_state(s),
{
}

/// Pausing and resuming leave idle and finished queues as they are.
pub proof fn law_pause_resume_only_touch_active(s: QueueState)
    requires
        s == QueueState::Idle || s == QueueState::Finished,
    ensures
        paused_state(s) == s,
        resumed_state(s) == s,
{
}

/// What `start` does: the job order stays; the queue runs when a job is
/// left and is finished otherwise.
pub open spec fn starts(pre: AnalysisQueue, post: AnalysisQueue) -> bool {
    &&& post.wf()
    &&& post.job_order() == pre.job_order()
    &&& post.queue_state() == (if pre.job_order().len() > 0 {
        QueueState::Running
    } else {
        QueueState::Finished
    })
}

/// What `complete_current` does: it returns the current job; the next
/// pending job becomes current with the state kept, or, with none pending,
/// the queue is finished.
pub open spec fn completes(pre: AnalysisQueue, post: AnalysisQueue, r: Option<AnalysisJob>) -> bool {
    &&& post.wf()
    &&& r == pre.current_job()
    &&& pre.pending().len() > 0 ==> (post.current_job() == Some(pre.pending()[0])
        && post.pending() == pre.pending().drop_first() && post.queue_state()
        == pre.queue_state())
    &&& pre.pending().len() == 0 ==> (post.current_job() is None && post.pending()
        == pre.pending() && post.queue_state() == QueueState::Finished)
}

proof fn lemma_completions(
    jobs: Seq<AnalysisJob>,
    qs: Seq<AnalysisQueue>,
    rs: Seq<Option<AnalysisJob>>,
    m: int,
)
    requires
        qs.len() == rs.len() + 1,
        0 <= m <= rs.len(),
        qs[0].wf(),
        qs[0].job_order() == jobs,
        qs[0].queue_state() == (if jobs.len() > 0 {
            QueueState::Running
        } else {
            QueueState::Finished
        }),
        forall|i: int| 0 <= i < rs.len() ==> #[trigger] completes(qs[i], qs[i + 1], rs[i]),
    ensures
        qs[m].wf(),
        qs[m].job_order() == jobs.skip(if m < jobs.len() {
            m
        } else {
            jobs.len() as int
        }),
        qs[m].queue_state() == (if m < jobs.len() {
            QueueState::Running
        } else {
            QueueState::Finished
        }),
        forall|i: int| 0 <= i < m && i < jobs.len() ==> rs[i] == Some(#[trigger] jobs[i]),
        forall|i: int| 0 <= i < m && i >= jobs.len() ==> #[trigger] rs[i] is None,
    decreases m,
{
    if m == 0 {
        assert(jobs.skip(0) =~= jobs);
    } else {
        let i = m - 1;
        lemma_completions(jobs, qs, rs, i);
        assert(completes(qs[i], qs[i + 1], rs[i]));
        let pre = qs[i];
        let post = qs[m];
        if i < jobs.len() {
            let cur = pre.current_job().unwrap();
            assert(pre.job_order() == seq![cur] + pre.pending());
            assert(pre.job_order()[0] == jobs.skip(i)[0]);
            assert(rs[i] == Some(jobs[i]));
            assert(pre.job_order().drop_first() =~= pre.pending());
            assert(jobs.skip(i).drop_first() =~= jobs.skip(m));
            assert(pre.pending() =~= jobs.skip(m));
            if pre.pending().len() > 0 {
                assert(post.job_order() =~= seq![pre.pending()[0]] + pre.pending().drop_first());
                assert(post.job_order() =~= jobs.skip(m));
            } else {
                assert(m == jobs.len());
                assert(post.job_order() =~= jobs.skip(m));
            }
        } else {
            assert(pre.current_job() is None);
            assert(rs[i] is None);
        }
    }
}

/// Jobs finish in the order they were loaded: after `load_from(videos, k)`
/// and `start`, the `m`-th call of `complete_current` returns the job of
/// `videos[k + m]` while such a video exists, and `None` from then on, and
/// the queue is then finished with nothing left.
pub proof fn law_jobs_complete_in_load_order(
    videos: Seq<VideoMeta>,
    k: int,
    loaded: AnalysisQueue,
    qs: Seq<AnalysisQueue>,
    rs: Seq<Option<AnalysisJob>>,
)
    requires
        0 <= k,
        loaded.wf(),
        loaded.pending() == jobs_from(videos, k),
        loaded.current_job() is None,
        loaded.queue_state() == QueueState::Idle,
        qs.len() == rs.len() + 1,
        starts(loaded, qs[0]),
        forall|i: int| 0 <= i < rs.len() ==> #[trigger] completes(qs[i], qs[i + 1], rs[i]),
    ensures
        forall|i: int|
            0 <= i < rs.len() && k + i < videos.len() ==> #[trigger] rs[i] == Some(
                AnalysisJob { video: videos[k + i] },
            ),
        forall|i: int| 0 <= i < rs.len() && k + i >= videos.len() ==> #[trigger] rs[i] is None,
        k + rs.len() >= videos.len() ==> (qs[rs.len() as int].remaining() == 0 && qs[rs.len() as int].queue_state()
            == QueueState::Finished),
{
    let jobs = jobs_from(videos, k);
    assert(loaded.job_order() == jobs);
    lemma_completions(jobs, qs, rs, rs.len() as int);
    assert forall|i: int| 0 <= i < rs.len() && k + i < videos.len() implies #[trigger] rs[i] == Some(
        AnalysisJob { video: videos[k + i] },
    ) by {
        assert(i < jobs.len());
        assert(rs[i] == Some(jobs[i]));
    }
    assert forall|i: int| 0 <= i < rs.len() && k + i >= videos.len() implies #[trigger] rs[i] is None by {
        assert(i >= jobs.len());
    }
}

impl AnalysisQueue {
    /// The jobs not yet started, front first.
    pub closed spec fn pending(&self) -> Seq<AnalysisJob> {
        self.jobs@
    }

    /// The job under analysis.
    pub closed spec fn current_job(&self) -> Option<AnalysisJob> {
        self.current
    }

    /// The queue's state.
    pub closed spec fn queue_state(&self) -> QueueState {
        self.state
    }

    /// All jobs still to be finished, in order.
    pub open spec fn job_order(&self) -> Seq<AnalysisJob> {
        order_of(self.current_job(), self.pending())
    }

    /// The number of jobs still to be finished.
    pub open spec fn remaining(&self) -> nat {
        self.job_order().len()
    }

    /// What every operation keeps: a running or paused queue has a current
    /// job; a finished queue has none left; the count fits in `usize`.
    pub open spec fn wf(&self) -> bool {
        &&& self.pending().len() < usize::MAX
        &&& (self.queue_state() == QueueState::Running || self.queue_state() == QueueState::Paused)
            ==> self.current_job() is Some
        &&& self.queue_state() == QueueState::Finished ==> (self.current_job() is None
            && self.pending().len() == 0)
    }

    /// An idle queue with no jobs.
    pub fn new() -> (q: Self)
        ensures
            q.wf(),
            q.pending() == Seq::<AnalysisJob>::empty(),
            q.current_job() is None,
            q.queue_state() == QueueState::Idle,
    {
        AnalysisQueue {
            jobs: std::collections::VecDeque::new(),
            current: None,
            state: QueueState::Idle,
        }
    }

    /// An idle queue holding one job per video, from `start_index` on.
    pub fn load_from(videos: Vec<VideoMeta>, start_index: usize) -> (q: Self)
        requires
            videos@.len() < usize::MAX,
        ensures
            q.wf(),
            q.pending() == jobs_from(videos@, start_index as int),
            q.current_job() is None,
            q.queue_state() == QueueState::Idle,
    {
        let mut jobs: std::collections::VecDeque<AnalysisJob> = std::collections::VecDeque::new();
        let n = videos.len();
        let mut i = start_index;
        while i < n
            invariant
                n == videos@.len(),
                start_index <= n ==> start_index <= i <= n,
                start_index > n ==> i == start_index,
                i < n ==> start_index <= i,
                jobs@ == jobs_from(videos@, start_index as int).take(
                    if i <= start_index { 0 } else { i - start_index },
                ),
            decreases n - i,
        {
            let ghost before = jobs@;
            jobs.push_back(AnalysisJob { video: videos[i].clone() });
            proof {
                let all = jobs_from(videos@, start_index as int);
                assert(jobs@ =~= all.take(i + 1 - start_index));
            }
            i = i + 1;
        }
        proof {
            let all = jobs_from(videos@, start_index as int);
            if start_index < n {
                assert(jobs@ =~= all);
            } else {
                assert(jobs@ =~= all);
            }
        }
        AnalysisQueue { jobs, current: None, state: QueueState::Idle }
    }

    /// Takes the next job if none is current; the queue then runs, or is
    /// finished when there was no job left.
    pub fn start(&mut self)
        requires
            old(self).wf(),
        ensures
            final(self).wf(),
            final(self).job_order() == old(self).job_order(),
            old(self).current_job() is Some ==> (final(self).current_job() == old(self).current_job() && final(self).pending() == old(self).pending()),
            old(self).current_job() is None && old(self).pending().len() > 0 ==> (final(self).current_job() == Some(old(self).pending()[0]) && final(self).pending() == old(self).pending().drop_first()),
            final(self).queue_state() == (if old(self).job_order().len() > 0 {
                QueueState::Running
            } else {
                QueueState::Finished
            }),
            starts(*old(self), *final(self)),
    {
        if self.current.is_none() {
            self.current = self.jobs.pop_front();
        }
        self.state = if self.current.is_some() {
            QueueState::Running
        } else {
            QueueState::Finished
        };
        proof {
            if old(self).current_job() is None && old(self).pending().len() > 0 {
                assert(old(self).pending() =~= seq![old(self).pending()[0]] + old(self).pending().drop_first());
            }
        }
    }

    /// A running queue pauses; in any other state nothing changes.
    pub fn pause(&mut self)
        requires
            old(self).wf(),
        ensures
            final(self).wf(),
            final(self).pending() == old(self).pending(),
            final(self).current_job() == old(self).current_job(),
            final(self).queue_state() == paused_state(old(self).queue_state()),
    {
        if self.state == QueueState::Running {
            self.state = QueueState::Paused;
        }
    }

    /// A paused queue runs again; in any other state nothing changes.
    pub fn resume(&mut self)
        requires
            old(self).wf(),
        ensures
            final(self).wf(),
            final(self).pending() == old(self).pending(),
            final(self).current_job() == old(self).current_job(),
            final(self).queue_state() == resumed_state(old(self).queue_state()),
    {
        if self.state == QueueState::Paused {
            self.state = QueueState::Running;
        }
    }

    /// The queue's state.
    pub fn state(&self) -> (s: QueueState)
        ensures
            s == self.queue_state(),
    {
        self.state
    }

    /// The user may ask about the current job only while the queue is paused
    /// on one.
    pub fn can_user_ask(&self) -> (b: bool)
        ensures
            b == (self.queue_state() == QueueState::Paused && self.current_job() is Some),
    {
        self.state == QueueState::Paused && self.current.is_some()
    }

    /// On a running queue: the current job, taking the next one first if none
    /// is current; the queue is finished when no job is left. On any other
    /// queue: `None`, and nothing changes.
    pub fn next_job(&mut self) -> (r: Option<AnalysisJob>)
        requires
            old(self).wf(),
        ensures
            final(self).wf(),
            final(self).job_order() == old(self).job_order(),
            old(self).queue_state() != QueueState::Running ==> (r is None && final(self).pending()
                == old(self).pending() && final(self).current_job() == old(self).current_job()
                && final(self).queue_state() == old(self).queue_state()),
            old(self).queue_state() == QueueState::Running ==> (r == final(self).current_job()
                && final(self).current_job() == old(self).current_job() && final(self).pending()
                == old(self).pending() && final(self).queue_state() == QueueState::Running),
            r is Some ==> r == Some(old(self).job_order()[0]),
    {
        if self.state != QueueState::Running {
            return None;
        }
        if self.current.is_none() {
            self.current = self.jobs.pop_front();
        }
        if self.current.is_none() {
            self.state = QueueState::Finished;
        }
        match &self.current {
            Some(j) => Some(j.clone()),
            None => None,
        }
    }

    /// Finishes the current job and returns it; the next job becomes
    /// current, and the queue is finished when none is left.
    pub fn complete_current(&mut self) -> (r: Option<AnalysisJob>)
        requires
            old(self).wf(),
        ensures
            final(self).wf(),
            r == old(self).current_job(),
            old(self).pending().len() > 0 ==> (final(self).current_job() == Some(
                old(self).pending()[0],
            ) && final(self).pending() == old(self).pending().drop_first() && final(self).queue_state() == old(self).queue_state()),
            old(self).pending().len() == 0 ==> (final(self).current_job() is None && final(self).pending() == old(self).pending() && final(self).queue_state()
                == QueueState::Finished),
            r is Some ==> (r == Some(old(self).job_order()[0]) && final(self).job_order() == old(self).job_order().drop_first()),
            r is None ==> final(self).job_order() == old(self).job_order(),
            completes(*old(self), *final(self), r),
    {
        let completed = self.current.take();
        self.current = self.jobs.pop_front();
        if self.current.is_none() {
            self.state = QueueState::Finished;
        }
        proof {
            let p = old(self).pending();
            if p.len() > 0 {
                assert(p =~= seq![p[0]] + p.drop_first());
                assert((seq![old(self).current_job().unwrap()] + p).drop_first() =~= p);
            }
        }
        completed
    }

    /// The job under analysis.
    pub fn current(&self) -> (r: Option<&AnalysisJob>)
        ensures
            r is Some == self.current_job() is Some,
            r is Some ==> *r.unwrap() == self.current_job().unwrap(),
    {
        self.current.as_ref()
    }

    /// The number of jobs still to be finished, the current one included.
    pub fn remaining_len(&self) -> (n: usize)
        requires
            self.wf(),
        ensures
            n == self.remaining(),
    {
        self.jobs.len() + if self.current.is_some() {
            1
        } else {
            0
        }
    }
}

} // verus!

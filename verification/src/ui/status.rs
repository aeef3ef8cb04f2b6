//! What the status panel shows: the current step, a short history of
//! steps, and the typewriter that reveals an answer two characters at a time.

use std::time::Instant;

use vstd::prelude::*;

use crate::text::{join_from, join_seqs, str_equal, texts};

verus! {

/// Declares `std::time::Instant` to Verus; its values are carried through
/// unread.
#[verifier::external_type_specification]
#[verifier::external_body]
pub struct ExInstant(std::time::Instant);

/// The longest history of steps kept.
pub const MAX_STEPS: usize = 30;

/// How many of the latest steps `latest_steps_text` shows.
pub const SHOWN_STEPS: usize = 6;

/// The shortest time between two typewriter advances, in milliseconds.
pub const TYPEWRITER_INTERVAL_MS: u128 = 18;

/// Status of the AI work, with the typewriter that reveals an answer.
#[derive(Debug, Clone)]
pub struct AiStatusState {
    pub current: String,
    pub steps: Vec<String>,
    pub typing_answer: Option<String>,
    pub typing_cursor: usize,
    pub typing_chat_index: Option<usize>,
    pub typing_last_tick: Option<Instant>,
}

/// Events that a background question-answering run reports.
#[derive(Debug)]
pub enum QaEvent {
    Status(String),
    Answer(String),
    Error(String),
    Finished,
}

/// The history of steps after `status` is reported: a status equal to the
/// last step is not repeated, and only the latest `MAX_STEPS` are kept.
pub open spec fn steps_after_set(steps: Seq<Seq<char>>, status: Seq<char>) -> Seq<Seq<char>> {
    let pushed = if steps.len() > 0 && steps.last() == status {
        steps
    } else {
        steps.push(status)
    };
    if pushed.len() > MAX_STEPS {
        pushed.skip(pushed.len() - MAX_STEPS)
    } else {
        pushed
    }
}

/// The cursor after one typewriter advance over an answer of `total`
/// characters.
pub open spec fn advanced_cursor(cursor: nat, total: nat) -> nat {
    if cursor + 2 <= total {
        cursor + 2
    } else {
        total
    }
}

/// The chat line that shows the first `shown` characters of `answer`.
pub open spec fn typed_line(answer: Seq<char>, shown: nat) -> Seq<char> {
    "AI: "@ + answer.take(shown as int)
}

/// Reporting a status keeps the history within `MAX_STEPS` steps and ends
/// it with the status reported.
pub proof fn law_set_bounded(steps: Seq<Seq<char>>, status: Seq<char>)
    ensures
        steps_after_set(steps, status).len() <= MAX_STEPS,
        steps_after_set(steps, status).len() > 0,
        steps_after_set(steps, status).last() == status,
{
}

/// A status that differs from the last step is appended, and the history
/// keeps its latest `MAX_STEPS` entries: the new history ends with the
/// status, and before it stands the tail of the old history that fits.
pub proof fn law_set_appends_new_status(steps: Seq<Seq<char>>, status: Seq<char>)
    requires
        steps.len() == 0 || steps.last() != status,
    ensures
        ({
            let r = steps_after_set(steps, status);
            &&& r.len() == if steps.len() + 1 <= MAX_STEPS {
                steps.len() + 1int
            } else {
                MAX_STEPS as int
            }
            &&& r.last() == status
            &&& r.drop_last() == steps.skip(steps.len() + 1 - r.len())
        }),
{
    let r = steps_after_set(steps, status);
    let p = steps.push(status);
    if p.len() > MAX_STEPS {
        assert(r.drop_last() =~= steps.skip(steps.len() + 1 - r.len()));
    } else {
        assert(r.drop_last() =~= steps.skip(0));
    }
}

/// A status that repeats the last step leaves a history of at most
/// `MAX_STEPS` steps as it is.
pub proof fn law_set_repeat_keeps(steps: Seq<Seq<char>>, status: Seq<char>)
    requires
        steps.len() > 0,
        steps.last() == status,
        steps.len() <= MAX_STEPS,
    ensures
        steps_after_set(steps, status) == steps,
{
}

/// Reporting the same status twice in a row is reporting it once.
pub proof fn law_set_idempotent(steps: Seq<Seq<char>>, status: Seq<char>)
    ensures
        steps_after_set(steps_after_set(steps, status), status) == steps_after_set(steps, status),
{
    let once = steps_after_set(steps, status);
    assert(once.len() > 0 && once.last() == status);
}

/// Each typewriter advance shows at least one more character and never more
/// than the answer holds.
pub proof fn law_typewriter_progress(cursor: nat, total: nat)
    requires
        cursor < total,
    ensures
        cursor < advanced_cursor(cursor, total) <= total,
{
}

/// Once the cursor reaches the end, the chat line shows the whole answer.
pub proof fn law_typewriter_shows_all(answer: Seq<char>)
    ensures
        typed_line(answer, answer.len()) == "AI: "@ + answer,
{
    assert(answer.take(answer.len() as int) =~= answer);
}

/// Reads the monotonic clock (`Instant::now`). Nothing is stated of the
/// result: it depends on when the call is made.
#[verifier::external_body]
fn instant_now() -> Instant {
    Instant::now()
}

/// Whole milliseconds from `earlier` to `later`
/// (`Instant::duration_since`, then `Duration::as_millis`), zero when
/// `earlier` is the later one. Nothing is stated of the result: instants
/// come from the clock and cannot be inspected here.
#[verifier::external_body]
fn millis_between(later: Instant, earlier: Instant) -> u128 {
    later.duration_since(earlier).as_millis()
}

impl Default for AiStatusState {
    /// A fresh status: idle, with one step "app started".
    fn default() -> (s: Self)
        ensures
            s.current@ == "idle"@,
            s.step_texts() == seq!["app started"@],
            s.typing_answer is None,
            s.typing_cursor == 0,
            s.typing_chat_index is None,
            s.typing_last_tick is None,
    {
        let mut steps: Vec<String> = Vec::new();
        steps.push(String::from_str("app started"));
        proof {
            assert(texts(steps@) =~= seq!["app started"@]);
        }
        AiStatusState {
            current: String::from_str("idle"),
            steps,
            typing_answer: None,
            typing_cursor: 0,
            typing_chat_index: None,
            typing_last_tick: None,
        }
    }
}

impl AiStatusState {
    /// The history of steps as character sequences.
    pub open spec fn step_texts(&self) -> Seq<Seq<char>> {
        texts(self.steps@)
    }

    /// Reports `status`: it becomes the current status and is added to the
    /// history unless it repeats the last step; the history keeps the latest
    /// `MAX_STEPS`.
    pub fn set(&mut self, status: &str)
        ensures
            final(self).current@ == status@,
            final(self).step_texts() == steps_after_set(old(self).step_texts(), status@),
            final(self).typing_answer == old(self).typing_answer,
            final(self).typing_cursor == old(self).typing_cursor,
            final(self).typing_chat_index == old(self).typing_chat_index,
            final(self).typing_last_tick == old(self).typing_last_tick,
    {
        self.current = String::from_str(status);
        let n = self.steps.len();
        let repeats = n > 0 && str_equal(self.steps[n - 1].as_str(), status);
        if !repeats {
            self.steps.push(String::from_str(status));
            proof {
                assert(texts(self.steps@) =~= texts(old(self).steps@).push(status@));
            }
        } else {
            proof {
                assert(texts(old(self).steps@).last() == old(self).steps@[n - 1]@);
            }
        }
        let len = self.steps.len();
        if len > MAX_STEPS {
            let remove_count = len - MAX_STEPS;
            let mut kept: Vec<String> = Vec::new();
            let mut i = remove_count;
            while i < len
                invariant
                    remove_count <= i <= len == self.steps.len(),
                    texts(kept@) == texts(self.steps@).subrange(remove_count as int, i as int),
                decreases len - i,
            {
                let ghost before = kept@;
                kept.push(self.steps[i].clone());
                proof {
                    assert(kept@ == before.push(self.steps@[i as int]));
                    assert(texts(kept@) =~= texts(before).push(self.steps@[i as int]@));
                    assert(texts(kept@) =~= texts(self.steps@).subrange(
                        remove_count as int,
                        i + 1,
                    ));
                }
                i = i + 1;
            }
            proof {
                assert(texts(self.steps@).subrange(remove_count as int, len as int) =~= texts(
                    self.steps@,
                ).skip(remove_count as int));
            }
            self.steps = kept;
        }
    }

    /// The latest `SHOWN_STEPS` steps joined with " -> ".
    pub fn latest_steps_text(&self) -> (r: String)
        ensures
            r@ == join_seqs(
                self.step_texts().skip(
                    if self.steps@.len() >= SHOWN_STEPS {
                        self.steps@.len() - SHOWN_STEPS
                    } else {
                        0
                    },
                ),
                " -> "@,
            ),
    {
        let n = self.steps.len();
        let start = if n >= SHOWN_STEPS {
            n - SHOWN_STEPS
        } else {
            0
        };
        join_from(&self.steps, start, " -> ")
    }

    /// Whether an answer is being typed out.
    pub fn is_typing(&self) -> (b: bool)
        ensures
            b == self.typing_answer is Some,
    {
        self.typing_answer.is_some()
    }

    /// Starts typing `answer` into chat line `chat_index`, from its first
    /// character, and reports "ai answering".
    pub fn begin_typewriter(&mut self, chat_index: usize, answer: String)
        ensures
            final(self).typing_chat_index == Some(chat_index),
            final(self).typing_answer == Some(answer),
            final(self).typing_cursor == 0,
            final(self).typing_last_tick is None,
            final(self).current@ == "ai answering"@,
            final(self).step_texts() == steps_after_set(old(self).step_texts(), "ai answering"@),
    {
        self.typing_chat_index = Some(chat_index);
        self.typing_answer = Some(answer);
        self.typing_cursor = 0;
        self.typing_last_tick = None;
        self.set("ai answering");
    }

    /// One typewriter step at time `now`, once the interval since the last
    /// step has passed. While characters remain hidden, two more (or the
    /// rest) are shown in chat line `typing_chat_index`, when that line
    /// exists, and the result is `true`. Once all are shown, typing ends,
    /// "ai answer complete" is reported and the result is `false`. With no
    /// answer being typed nothing changes and the result is `false`.
    pub fn advance_typewriter(&mut self, now: Instant, chat_log: &mut [String]) -> (r: bool)
        ensures
            old(self).typing_answer is None ==> (!r && *final(self) == *old(self) && final(chat_log)@ == old(chat_log)@),
            old(self).typing_answer is Some && old(self).typing_cursor < old(self).typing_answer.unwrap()@.len() ==> ({
                let answer = old(self).typing_answer.unwrap()@;
                let cursor = advanced_cursor(old(self).typing_cursor as nat, answer.len());
                &&& r
                &&& final(self).typing_cursor == cursor
                &&& final(self).typing_last_tick == Some(now)
                &&& final(self).typing_answer == old(self).typing_answer
                &&& final(self).typing_chat_index == old(self).typing_chat_index
                &&& final(self).current == old(self).current
                &&& final(self).steps == old(self).steps
                &&& final(chat_log)@.len() == old(chat_log)@.len()
                &&& forall|i: int|
                    0 <= i < old(chat_log)@.len() ==> if old(self).typing_chat_index == Some(
                        i as usize,
                    ) {
                        final(chat_log)@[i]@ == typed_line(answer, cursor)
                    } else {
                        final(chat_log)@[i] == old(chat_log)@[i]
                    }
            }),
            old(self).typing_answer is Some && old(self).typing_cursor >= old(self).typing_answer.unwrap()@.len() ==> ({
                &&& !r
                &&& final(self).typing_answer is None
                &&& final(self).typing_cursor == 0
                &&& final(self).typing_chat_index is None
                &&& final(self).typing_last_tick is None
                &&& final(self).current@ == "ai answer complete"@
                &&& final(self).step_texts() == steps_after_set(
                    old(self).step_texts(),
                    "ai answer complete"@,
                )
                &&& final(chat_log)@ == old(chat_log)@
            }),
    {
        let total = match &self.typing_answer {
            None => {
                return false;
            },
            Some(answer) => answer.as_str().unicode_len(),
        };
        self.typing_last_tick = Some(now);
        if self.typing_cursor < total {
            let cursor = if total - self.typing_cursor >= 2 {
                self.typing_cursor + 2
            } else {
                total
            };
            self.typing_cursor = cursor;
            let line = match &self.typing_answer {
                Some(answer) => {
                    let mut line = String::from_str("AI: ");
                    line.append(answer.as_str().substring_char(0, cursor));
                    line
                },
                None => String::new(),
            };
            if let Some(index) = self.typing_chat_index {
                if index < chat_log.len() {
                    chat_log[index] = line;
                }
            }
            true
        } else {
            self.typing_answer = None;
            self.typing_cursor = 0;
            self.typing_chat_index = None;
            self.typing_last_tick = None;
            self.set("ai answer complete");
            false
        }
    }

    /// One tick of the typewriter at time `now`, where `elapsed_ms` is the
    /// time since the last step in whole milliseconds. Without an answer
    /// being typed: `false`, nothing changes. When a step was recorded and
    /// less than `TYPEWRITER_INTERVAL_MS` has passed: `true`, nothing
    /// changes. Otherwise one `advance_typewriter` step at `now`.
    pub fn tick_typewriter_at(
        &mut self,
        now: Instant,
        elapsed_ms: Option<u128>,
        chat_log: &mut [String],
    ) -> (r: bool)
        ensures
            typewriter_tick(*old(self), old(chat_log)@, now, elapsed_ms, *final(self), final(chat_log)@, r),
    {
        if self.typing_answer.is_none() {
            return false;
        }
        if self.typing_last_tick.is_some() {
            if let Some(e) = elapsed_ms {
                if e < TYPEWRITER_INTERVAL_MS {
                    return true;
                }
            }
        }
        let ghost pre = *self;
        let ghost pre_log = chat_log@;
        let r = self.advance_typewriter(now, chat_log);
        assert(typewriter_step(pre, pre_log, now, *self, chat_log@, r));
        r
    }

    /// One tick of the typewriter: `tick_typewriter_at` with the current
    /// time and the milliseconds since the last step, read from the clock
    /// when a step was recorded. Which time the clock gives is not stated.
    pub fn tick_typewriter(&mut self, chat_log: &mut [String]) -> (r: bool)
        ensures
            old(self).typing_answer is None ==> (!r && *final(self) == *old(self) && final(chat_log)@ == old(chat_log)@),
            old(self).typing_answer is Some ==> exists|now: Instant, elapsed_ms: Option<u128>|
                (elapsed_ms is Some <==> old(self).typing_last_tick is Some) && typewriter_tick(
                    *old(self),
                    old(chat_log)@,
                    now,
                    elapsed_ms,
                    *final(self),
                    final(chat_log)@,
                    r,
                ),
    {
        if self.typing_answer.is_none() {
            return false;
        }
        let now = instant_now();
        let elapsed_ms = match self.typing_last_tick {
            Some(last) => Some(millis_between(now, last)),
            None => None,
        };
        self.tick_typewriter_at(now, elapsed_ms, chat_log)
    }
}

/// Whether `(post, post_log, r)` is what `tick_typewriter_at` at `now`,
/// `elapsed_ms` after the last step, leaves from `(pre, pre_log)`.
pub open spec fn typewriter_tick(
    pre: AiStatusState,
    pre_log: Seq<String>,
    now: Instant,
    elapsed_ms: Option<u128>,
    post: AiStatusState,
    post_log: Seq<String>,
    r: bool,
) -> bool {
    if pre.typing_answer is None {
        !r && post == pre && post_log == pre_log
    } else if pre.typing_last_tick is Some && elapsed_ms is Some && elapsed_ms.unwrap()
        < TYPEWRITER_INTERVAL_MS {
        r && post == pre && post_log == pre_log
    } else {
        typewriter_step(pre, pre_log, now, post, post_log, r)
    }
}

/// The cursor after `m` typewriter advances from the start of an answer of
/// `total` characters.
pub open spec fn cursor_after(m: nat, total: nat) -> nat {
    if 2 * m <= total {
        2 * m
    } else {
        total
    }
}

proof fn lemma_ticks_progress(
    answer: String,
    index: Option<usize>,
    states: Seq<AiStatusState>,
    logs: Seq<Seq<String>>,
    nows: Seq<Instant>,
    elapsed: Seq<Option<u128>>,
    results: Seq<bool>,
    m: nat,
)
    requires
        states.len() == results.len() + 1,
        logs.len() == states.len(),
        nows.len() == results.len(),
        elapsed.len() == results.len(),
        states[0].typing_answer == Some(answer),
        states[0].typing_cursor == 0,
        states[0].typing_chat_index == index,
        forall|k: int|
            0 <= k < results.len() ==> #[trigger] typewriter_tick(
                states[k],
                logs[k],
                nows[k],
                elapsed[k],
                states[k + 1],
                logs[k + 1],
                results[k],
            ),
        forall|k: int|
            0 <= k < results.len() ==> (#[trigger] elapsed[k] is None || elapsed[k].unwrap()
                >= TYPEWRITER_INTERVAL_MS),
        m <= (answer@.len() + 1) / 2,
        m < states.len(),
    ensures
        states[m as int].typing_answer == Some(answer),
        states[m as int].typing_cursor == cursor_after(m, answer@.len()),
        states[m as int].typing_chat_index == index,
        logs[m as int].len() == logs[0].len(),
        forall|k: int| 0 <= k < m ==> results[k],
        m > 0 ==> forall|i: int|
            0 <= i < logs[0].len() && index == Some(i as usize) ==> logs[m as int][i]@ == typed_line(
                answer@,
                cursor_after(m, answer@.len()),
            ),
    decreases m,
{
    if m > 0 {
        lemma_ticks_progress(answer, index, states, logs, nows, elapsed, results, (m - 1) as nat);
        let k = m - 1;
        assert(typewriter_tick(states[k], logs[k], nows[k], elapsed[k], states[k + 1], logs[k + 1], results[k]));
        assert(elapsed[k] is None || elapsed[k].unwrap() >= TYPEWRITER_INTERVAL_MS);
    }
}

/// Ticks that each come at least `TYPEWRITER_INTERVAL_MS` after the
/// previous step finish an answer of `n` characters in `(n + 1) / 2`
/// advances that return `true`; the next tick returns `false`, ends typing,
/// reports "ai answer complete", and the chat line then shows the whole
/// answer.
pub proof fn law_typewriter_finishes(
    answer: String,
    index: Option<usize>,
    states: Seq<AiStatusState>,
    logs: Seq<Seq<String>>,
    nows: Seq<Instant>,
    elapsed: Seq<Option<u128>>,
    results: Seq<bool>,
)
    requires
        results.len() == (answer@.len() + 1) / 2 + 1,
        states.len() == results.len() + 1,
        logs.len() == states.len(),
        nows.len() == results.len(),
        elapsed.len() == results.len(),
        states[0].typing_answer == Some(answer),
        states[0].typing_cursor == 0,
        states[0].typing_chat_index == index,
        forall|k: int|
            0 <= k < results.len() ==> #[trigger] typewriter_tick(
                states[k],
                logs[k],
                nows[k],
                elapsed[k],
                states[k + 1],
                logs[k + 1],
                results[k],
            ),
        forall|k: int|
            0 <= k < results.len() ==> (#[trigger] elapsed[k] is None || elapsed[k].unwrap()
                >= TYPEWRITER_INTERVAL_MS),
    ensures
        forall|k: int| 0 <= k < results.len() - 1 ==> results[k],
        !results[results.len() - 1],
        states[states.len() - 1].typing_answer is None,
        states[states.len() - 1].current@ == "ai answer complete"@,
        answer@.len() > 0 && index is Some && index.unwrap() < logs[0].len() ==> logs[logs.len()
            - 1][index.unwrap() as int]@ == "AI: "@ + answer@,
{
    let n = answer@.len();
    let m = (n + 1) / 2;
    lemma_ticks_progress(answer, index, states, logs, nows, elapsed, results, m);
    assert(cursor_after(m, n) == n);
    assert(typewriter_tick(states[m as int], logs[m as int], nows[m as int], elapsed[m as int], states[m + 1int], logs[m + 1int], results[m as int]));
    assert(elapsed[m as int] is None || elapsed[m as int].unwrap() >= TYPEWRITER_INTERVAL_MS);
    assert(answer@.take(n as int) =~= answer@);
}

/// Whether `(post, post_log, r)` is what `advance_typewriter` at `now`
/// leaves from `(pre, pre_log)`.
pub open spec fn typewriter_step(
    pre: AiStatusState,
    pre_log: Seq<String>,
    now: Instant,
    post: AiStatusState,
    post_log: Seq<String>,
    r: bool,
) -> bool {
    match pre.typing_answer {
        None => !r && post == pre && post_log == pre_log,
        Some(a) => if pre.typing_cursor < a@.len() {
            let cursor = advanced_cursor(pre.typing_cursor as nat, a@.len());
            &&& r
            &&& post.typing_cursor == cursor
            &&& post.typing_last_tick == Some(now)
            &&& post.typing_answer == pre.typing_answer
            &&& post.typing_chat_index == pre.typing_chat_index
            &&& post.current == pre.current
            &&& post.steps == pre.steps
            &&& post_log.len() == pre_log.len()
            &&& forall|i: int|
                0 <= i < pre_log.len() ==> if pre.typing_chat_index == Some(i as usize) {
                    post_log[i]@ == typed_line(a@, cursor)
                } else {
                    post_log[i] == pre_log[i]
                }
        } else {
            &&& !r
            &&& post.typing_answer is None
            &&& post.typing_cursor == 0
            &&& post.typing_chat_index is None
            &&& post.typing_last_tick is None
            &&& post.current@ == "ai answer complete"@
            &&& texts(post.steps@) == steps_after_set(texts(pre.steps@), "ai answer complete"@)
            &&& post_log == pre_log
        },
    }
}

} // verus!

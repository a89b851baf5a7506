//! The registry of background jobs: it starts runs, keeps their status and
//! their cancellation tokens, and carries each run to exactly one final state.

use crate::error::CoreError;
use crate::text::{decimal, i64_to_decimal, push_decimal, signed_decimal};
use vstd::hash_map::StringHashMap;
use vstd::prelude::*;
use vstd::string::StringExecFns;

verus! {

/// The last message of a run that has just started.
pub const MSG_STARTED: &'static str = "任务开始…";

/// The answer to a request that started a run.
pub const MSG_LAUNCHED: &'static str = "任务已启动";

/// The last message of a run that was canceled.
pub const MSG_CANCELED: &'static str = "任务已取消";

/// The last message of a run that came to its end.
pub const MSG_DONE: &'static str = "任务完成 ✅";

/// The last message of a run whose body broke down.
pub const MSG_FAILED: &'static str = "任务失败";

/// The topic under which the progress of a run is published.
pub const TOPIC_PROGRESS: &'static str = "progress";

/// The topic under which the end of a run is published.
pub const TOPIC_DONE: &'static str = "done";

/// The progress that a finished run shows.
pub const FULL_PROGRESS: u8 = 100;

/// The distance between two steps of the built-in job.
pub const PROGRESS_STEP: u8 = 2;

/// Where a run stands in its life.
#[derive(Clone, Copy, Debug, PartialEq, Eq, Hash, Structural)]
pub enum RunState {
    Queued,
    Running,
    Success,
    Failed,
    Canceled,
}

impl RunState {
    /// A final state is never left again.
    pub open spec fn is_terminal(self) -> bool {
        self is Success || self is Failed || self is Canceled
    }

    /// The lower-case name under which the state is shown.
    pub open spec fn name(self) -> Seq<char> {
        match self {
            RunState::Queued => "queued"@,
            RunState::Running => "running"@,
            RunState::Success => "success"@,
            RunState::Failed => "failed"@,
            RunState::Canceled => "canceled"@,
        }
    }

    /// Whether the state is final.
    pub fn terminal(self) -> (b: bool)
        ensures
            b == self.is_terminal(),
    {
        match self {
            RunState::Queued | RunState::Running => false,
            RunState::Success | RunState::Failed | RunState::Canceled => true,
        }
    }

    /// The lower-case name under which the state is shown.
    pub fn as_str(self) -> (s: &'static str)
        ensures
            s@ == self.name(),
    {
        match self {
            RunState::Queued => "queued",
            RunState::Running => "running",
            RunState::Success => "success",
            RunState::Failed => "failed",
            RunState::Canceled => "canceled",
        }
    }
}

/// `pct` held to the range of a progress value.
pub open spec fn capped(pct: nat) -> nat {
    if pct <= FULL_PROGRESS {
        pct
    } else {
        FULL_PROGRESS as nat
    }
}

/// The step that the built-in job takes after step `pct`. Beyond the last
/// step it stays at the first value that lies beyond it.
pub open spec fn following(pct: nat) -> nat {
    if pct <= FULL_PROGRESS {
        (pct + PROGRESS_STEP) as nat
    } else {
        (FULL_PROGRESS + PROGRESS_STEP) as nat
    }
}

/// The step that the built-in job takes after step `pct`.
pub fn following_step(pct: u8) -> (next: u8)
    ensures
        next == following(pct as nat),
        pct <= FULL_PROGRESS ==> next > pct,
        next <= FULL_PROGRESS + PROGRESS_STEP,
{
    if pct <= FULL_PROGRESS {
        pct + PROGRESS_STEP
    } else {
        FULL_PROGRESS + PROGRESS_STEP
    }
}

/// The message of the event that announces step `pct`.
pub open spec fn working_note(pct: nat) -> Seq<char> {
    "正在处理… "@ + decimal(pct) + "%"@
}

/// The last message of a run that has completed step `pct`.
pub open spec fn step_note(pct: nat) -> Seq<char> {
    "步骤推进至 "@ + decimal(pct) + "%"@
}

/// A request to start a run.
#[derive(Clone, Debug, PartialEq, Eq)]
pub struct TaskRequest {
    pub user_id: String,
    pub user_token: String,
    pub run_id: Option<String>,
}

/// The answer to a request that started a run.
#[derive(Debug, PartialEq, Eq)]
pub struct StartResponse {
    pub run_id: String,
    pub message: String,
}

/// The status of one run.
#[derive(Debug, PartialEq, Eq)]
pub struct TaskStatus {
    pub run_id: String,
    pub state: RunState,
    pub progress: u8,
    pub started_at: String,
    pub finished_at: Option<String>,
    pub last_message: Option<String>,
}

/// What a `TaskStatus` says, with its texts as characters.
pub struct StatusRecord {
    pub run_id: Seq<char>,
    pub state: RunState,
    pub progress: nat,
    pub started_at: Seq<char>,
    pub finished_at: Option<Seq<char>>,
    pub last_message: Option<Seq<char>>,
}

impl StatusRecord {
    /// Progress is a percentage, and the time of the end is known of the
    /// runs that have ended and of no others.
    pub open spec fn wf(self) -> bool {
        &&& self.progress <= FULL_PROGRESS
        &&& self.finished_at is Some <==> self.state.is_terminal()
    }

    /// The status of a run that has just started.
    pub open spec fn fresh(run_id: Seq<char>, started_at: Seq<char>) -> StatusRecord {
        StatusRecord {
            run_id,
            state: RunState::Running,
            progress: 0,
            started_at,
            finished_at: None,
            last_message: Some(MSG_STARTED@),
        }
    }
}

/// The characters of a text that may be missing.
pub open spec fn text_of(text: Option<String>) -> Option<Seq<char>> {
    match text {
        Some(t) => Some(t@),
        None => None,
    }
}

impl View for TaskStatus {
    type V = StatusRecord;

    open spec fn view(&self) -> StatusRecord {
        StatusRecord {
            run_id: self.run_id@,
            state: self.state,
            progress: self.progress as nat,
            started_at: self.started_at@,
            finished_at: text_of(self.finished_at),
            last_message: text_of(self.last_message),
        }
    }
}

fn clone_text(text: &Option<String>) -> (copy: Option<String>)
    ensures
        text_of(copy) == text_of(*text),
{
    match text {
        Some(t) => Some(t.clone()),
        None => None,
    }
}

impl Clone for TaskStatus {
    fn clone(&self) -> (copy: Self)
        ensures
            copy@ == self@,
    {
        TaskStatus {
            run_id: self.run_id.clone(),
            state: self.state,
            progress: self.progress,
            started_at: self.started_at.clone(),
            finished_at: clone_text(&self.finished_at),
            last_message: clone_text(&self.last_message),
        }
    }
}

/// The id under which a request runs: the one it names, or else the decimal
/// form of the time in milliseconds at which it arrived.
pub open spec fn run_id_for(wanted: Option<Seq<char>>, now_ms: int) -> Seq<char> {
    match wanted {
        Some(id) => id,
        None => signed_decimal(now_ms),
    }
}

/// The news that a run has reached a step.
#[derive(Debug, PartialEq, Eq)]
pub struct ProgressEvent {
    pub run_id: String,
    pub progress: u8,
    pub message: String,
    pub ts: String,
}

/// The news that a run has reached its final state.
#[derive(Debug, PartialEq, Eq)]
pub struct DoneEvent {
    pub run_id: String,
    pub state: RunState,
    pub ts: String,
}

/// What the body of a job does next.
#[derive(Debug, PartialEq, Eq)]
pub enum JobStep {
    /// Do the work of step `pct`, then record it.
    Work { pct: u8 },
    /// Stop: the run has reached its final state, which the event names.
    Finished(DoneEvent),
}

/// The state of a registry as a mathematical value.
#[verifier::ext_equal]
pub struct RegistryState {
    /// Whether a run is under way.
    pub running: bool,
    /// The cancellation token of each run that is under way: whether its
    /// cancellation was requested.
    pub tokens: Map<Seq<char>, bool>,
    /// The status that was filed last under each run id.
    pub statuses: Map<Seq<char>, StatusRecord>,
}

impl RegistryState {
    /// The state of a registry without runs.
    pub open spec fn empty() -> RegistryState {
        RegistryState { running: false, tokens: Map::empty(), statuses: Map::empty() }
    }

    /// A run is active while it has a token.
    pub open spec fn is_active(self, run_id: Seq<char>) -> bool {
        self.tokens.contains_key(run_id)
    }

    /// Whether `run_id` is active and its cancellation was requested.
    pub open spec fn cancel_requested(self, run_id: Seq<char>) -> bool {
        self.is_active(run_id) && self.tokens[run_id]
    }

    /// The runs with a token are the runs whose status is not final; every
    /// status is filed under its own id and is well-formed; at most one run
    /// is active, and the guard is set exactly while one is.
    pub open spec fn wf(self) -> bool {
        &&& forall|k: Seq<char>| #[trigger]
            self.tokens.contains_key(k) <==> (self.statuses.contains_key(k)
                && !self.statuses[k].state.is_terminal())
        &&& forall|k: Seq<char>| #[trigger]
            self.statuses.contains_key(k) ==> self.statuses[k].run_id == k
                && self.statuses[k].wf()
        &&& self.running <==> exists|k: Seq<char>| #[trigger] self.tokens.contains_key(k)
        &&& forall|j: Seq<char>, k: Seq<char>|
            #[trigger] self.tokens.contains_key(j) && #[trigger] self.tokens.contains_key(k) ==> j
                == k
    }

    /// The state after a request to start `run_id`: refused, and nothing
    /// changed, while a run is under way.
    pub open spec fn start(self, run_id: Seq<char>, started_at: Seq<char>) -> RegistryState {
        if self.running {
            self
        } else {
            RegistryState {
                running: true,
                tokens: self.tokens.insert(run_id, false),
                statuses: self.statuses.insert(run_id, StatusRecord::fresh(run_id, started_at)),
            }
        }
    }

    /// The state after the cancellation of `run_id` was requested.
    pub open spec fn cancel(self, run_id: Seq<char>) -> RegistryState {
        if self.is_active(run_id) {
            RegistryState { tokens: self.tokens.insert(run_id, true), ..self }
        } else {
            self
        }
    }

    /// The state after `run_id` recorded step `pct`.
    pub open spec fn progress(self, run_id: Seq<char>, pct: nat) -> RegistryState {
        if self.is_active(run_id) {
            RegistryState {
                statuses: self.statuses.insert(
                    run_id,
                    StatusRecord {
                        progress: capped(pct),
                        last_message: Some(step_note(pct)),
                        ..self.statuses[run_id]
                    },
                ),
                ..self
            }
        } else {
            self
        }
    }

    /// The state after `run_id` ended in `state`: its status is final, its
    /// token is gone and the guard is free. A run that is not active cannot
    /// end, and nothing changes.
    pub open spec fn finish(
        self,
        run_id: Seq<char>,
        state: RunState,
        pct: nat,
        message: Seq<char>,
        now: Seq<char>,
    ) -> RegistryState {
        if self.is_active(run_id) {
            RegistryState {
                running: false,
                tokens: self.tokens.remove(run_id),
                statuses: self.statuses.insert(
                    run_id,
                    StatusRecord {
                        state,
                        progress: capped(pct),
                        finished_at: Some(now),
                        last_message: Some(message),
                        ..self.statuses[run_id]
                    },
                ),
            }
        } else {
            self
        }
    }

    /// The state after `run_id` failed with `reason`; its progress stays.
    pub open spec fn fail(self, run_id: Seq<char>, reason: Seq<char>, now: Seq<char>)
        -> RegistryState {
        if self.is_active(run_id) {
            self.finish(run_id, RunState::Failed, self.statuses[run_id].progress, reason, now)
        } else {
            self
        }
    }

    /// The state after the built-in job looked at its token before step
    /// `pct`: a requested cancellation ends the run as canceled, with the
    /// progress that it has recorded; a step beyond the last one ends it as
    /// a success; and otherwise the run goes on.
    pub open spec fn step(self, run_id: Seq<char>, pct: nat, now: Seq<char>) -> RegistryState {
        if self.cancel_requested(run_id) {
            self.finish(
                run_id,
                RunState::Canceled,
                self.statuses[run_id].progress,
                MSG_CANCELED@,
                now,
            )
        } else if self.is_active(run_id) && pct > FULL_PROGRESS {
            self.finish(run_id, RunState::Success, FULL_PROGRESS as nat, MSG_DONE@, now)
        } else {
            self
        }
    }
}

/// The registry itself.
pub struct JobRegistry {
    is_running: bool,
    cancels: StringHashMap<bool>,
    statuses: StringHashMap<TaskStatus>,
}

impl View for JobRegistry {
    type V = RegistryState;

    closed spec fn view(&self) -> RegistryState {
        RegistryState {
            running: self.is_running,
            tokens: self.cancels@,
            statuses: self.statuses@.map_values(|s: TaskStatus| s@),
        }
    }
}

impl Default for JobRegistry {
    fn default() -> (registry: Self)
        ensures
            registry.wf(),
            registry@ == RegistryState::empty(),
    {
        JobRegistry::new()
    }
}

impl JobRegistry {
    /// The invariant of the registry, stated on its state.
    pub open spec fn wf(&self) -> bool {
        self@.wf()
    }

    /// A registry without runs.
    pub fn new() -> (registry: Self)
        ensures
            registry.wf(),
            registry@ == RegistryState::empty(),
    {
        let registry = JobRegistry {
            is_running: false,
            cancels: StringHashMap::new(),
            statuses: StringHashMap::new(),
        };
        assert(registry@.statuses =~= Map::empty());
        registry
    }

    /// Whether a run is under way.
    pub fn is_running(&self) -> (b: bool)
        ensures
            b == self@.running,
    {
        self.is_running
    }

    /// A copy of the status of `run_id`; `None` where no run was started
    /// under that id.
    pub fn get_status(&self, run_id: &str) -> (found: Option<TaskStatus>)
        ensures
            match found {
                Some(status) => self@.statuses.contains_key(run_id@) && status@
                    == self@.statuses[run_id@],
                None => !self@.statuses.contains_key(run_id@),
            },
    {
        match self.statuses.get(run_id) {
            Some(status) => Some(status.clone()),
            None => None,
        }
    }

    /// Whether the cancellation of `run_id` was requested and the run has
    /// not ended yet.
    pub fn is_cancel_requested(&self, run_id: &str) -> (b: bool)
        ensures
            b == self@.cancel_requested(run_id@),
    {
        match self.cancels.get(run_id) {
            Some(flag) => *flag,
            None => false,
        }
    }

    /// Requests the cancellation of `run_id`. Returns whether the run is
    /// active; for any other id nothing changes.
    pub fn cancel(&mut self, run_id: &str) -> (accepted: bool)
        requires
            old(self).wf(),
        ensures
            final(self).wf(),
            accepted == old(self)@.is_active(run_id@),
            final(self)@ == old(self)@.cancel(run_id@),
    {
        if self.cancels.contains_key(run_id) {
            self.cancels.insert(run_id.to_owned(), true);
            proof {
                lemma_cancel_keeps_wf(old(self)@, run_id@);
            }
            true
        } else {
            false
        }
    }

    /// Starts the run that `payload` asks for, at the time `now`, of which
    /// `now_ms` is the count of milliseconds. Refused with `AlreadyRunning`,
    /// and nothing changed, while a run is under way.
    pub fn start(&mut self, payload: TaskRequest, now_ms: i64, now: String) -> (started: Result<
        StartResponse,
        CoreError,
    >)
        requires
            old(self).wf(),
        ensures
            final(self).wf(),
            started is Ok <==> !old(self)@.running,
            started matches Ok(response) ==> {
                &&& response.run_id@ == run_id_for(text_of(payload.run_id), now_ms as int)
                &&& response.message@ == MSG_LAUNCHED@
                &&& final(self)@ == old(self)@.start(response.run_id@, now@)
            },
            started matches Err(e) ==> e == CoreError::AlreadyRunning && final(self)@ == old(self)@,
    {
        if self.is_running {
            return Err(CoreError::AlreadyRunning);
        }
        let run_id = match payload.run_id {
            Some(id) => id,
            None => i64_to_decimal(now_ms),
        };
        let status = TaskStatus {
            run_id: run_id.clone(),
            state: RunState::Running,
            progress: 0,
            started_at: now,
            finished_at: None,
            last_message: Some(MSG_STARTED.to_owned()),
        };
        self.statuses.insert(run_id.clone(), status);
        self.cancels.insert(run_id.clone(), false);
        self.is_running = true;
        proof {
            lemma_start_keeps_wf(old(self)@, run_id@, now@);
            assert(self@.statuses =~= old(self)@.start(run_id@, now@).statuses);
        }
        Ok(StartResponse { run_id, message: MSG_LAUNCHED.to_owned() })
    }
}

impl JobRegistry {
    /// Records that the active run `run_id` has completed step `pct`.
    /// Refused with `UnknownRun`, and nothing changed, for a run that is
    /// not active.
    pub fn record_progress(&mut self, run_id: &str, pct: u8) -> (done: Result<(), CoreError>)
        requires
            old(self).wf(),
        ensures
            final(self).wf(),
            done is Ok <==> old(self)@.is_active(run_id@),
            done matches Err(e) ==> e == CoreError::UnknownRun,
            final(self)@ == old(self)@.progress(run_id@, pct as nat),
    {
        if !self.cancels.contains_key(run_id) {
            return Err(CoreError::UnknownRun);
        }
        let mut status = match self.statuses.get(run_id) {
            Some(status) => status.clone(),
            None => {
                return Err(CoreError::UnknownRun);
            },
        };
        status.progress = if pct <= FULL_PROGRESS {
            pct
        } else {
            FULL_PROGRESS
        };
        status.last_message = Some(step_message(pct));
        self.statuses.insert(run_id.to_owned(), status);
        proof {
            lemma_progress_keeps_wf(old(self)@, run_id@, pct as nat);
            assert(self@.statuses =~= old(self)@.progress(run_id@, pct as nat).statuses);
        }
        Ok(())
    }

    /// Ends the active run `run_id` in the final state `state`, with the
    /// progress it has reached, a last message and the time of its end: the
    /// status becomes final, the token is removed and the guard is freed,
    /// all at once. Returns the news of the end. Refused with `UnknownRun`,
    /// and nothing changed, for a run that is not active, so that no run
    /// ends twice.
    pub fn finish(
        &mut self,
        run_id: &str,
        state: RunState,
        pct: u8,
        message: String,
        now: String,
    ) -> (done: Result<DoneEvent, CoreError>)
        requires
            old(self).wf(),
            state.is_terminal(),
        ensures
            final(self).wf(),
            done is Ok <==> old(self)@.is_active(run_id@),
            done matches Ok(event) ==> event.run_id@ == run_id@ && event.state == state && event.ts@
                == now@,
            done matches Err(e) ==> e == CoreError::UnknownRun,
            final(self)@ == old(self)@.finish(run_id@, state, pct as nat, message@, now@),
    {
        if !self.cancels.contains_key(run_id) {
            return Err(CoreError::UnknownRun);
        }
        let mut status = match self.statuses.get(run_id) {
            Some(status) => status.clone(),
            None => {
                return Err(CoreError::UnknownRun);
            },
        };
        status.state = state;
        status.progress = if pct <= FULL_PROGRESS {
            pct
        } else {
            FULL_PROGRESS
        };
        status.finished_at = Some(now.clone());
        status.last_message = Some(message);
        self.statuses.insert(run_id.to_owned(), status);
        self.cancels.remove(run_id);
        self.is_running = false;
        proof {
            lemma_finish_keeps_wf(old(self)@, run_id@, state, pct as nat, message@, now@);
            assert(self@.statuses =~= old(self)@.finish(
                run_id@,
                state,
                pct as nat,
                message@,
                now@,
            ).statuses);
        }
        Ok(DoneEvent { run_id: run_id.to_owned(), state, ts: now })
    }

    /// The progress that the status of `run_id` shows; 0 where there is no
    /// such status.
    fn recorded_progress(&self, run_id: &str) -> (reached: u8)
        ensures
            reached == if self@.statuses.contains_key(run_id@) {
                self@.statuses[run_id@].progress
            } else {
                0
            },
    {
        match self.statuses.get(run_id) {
            Some(status) => status.progress,
            None => 0,
        }
    }

    /// Ends the active run `run_id` as failed, with `reason` as its last
    /// message; the progress that it had reached stays.
    pub fn fail(&mut self, run_id: &str, reason: String, now: String) -> (done: Result<
        DoneEvent,
        CoreError,
    >)
        requires
            old(self).wf(),
        ensures
            final(self).wf(),
            done is Ok <==> old(self)@.is_active(run_id@),
            done matches Ok(event) ==> event.run_id@ == run_id@ && event.state == RunState::Failed
                && event.ts@ == now@,
            done matches Err(e) ==> e == CoreError::UnknownRun,
            final(self)@ == old(self)@.fail(run_id@, reason@, now@),
    {
        let reached: u8 = self.recorded_progress(run_id);
        self.finish(run_id, RunState::Failed, reached, reason, now)
    }

    /// The decision that the built-in job takes before step `pct`. Where
    /// the cancellation of the run was requested, the run ends as canceled
    /// and keeps the progress that it has recorded: the step that was about
    /// to start is not counted. Where `pct` lies beyond the last step, the
    /// run ends as a success; otherwise step `pct` is to be worked. Refused
    /// with `UnknownRun` for a run that is not active.
    pub fn next_step(&mut self, run_id: &str, pct: u8, now: String) -> (next: Result<
        JobStep,
        CoreError,
    >)
        requires
            old(self).wf(),
        ensures
            final(self).wf(),
            final(self)@ == old(self)@.step(run_id@, pct as nat, now@),
            match next {
                Ok(JobStep::Work { pct: step }) => {
                    &&& old(self)@.is_active(run_id@)
                    &&& !old(self)@.cancel_requested(run_id@)
                    &&& pct <= FULL_PROGRESS
                    &&& step == pct
                },
                Ok(JobStep::Finished(event)) => {
                    &&& old(self)@.is_active(run_id@)
                    &&& old(self)@.cancel_requested(run_id@) || pct > FULL_PROGRESS
                    &&& event.run_id@ == run_id@
                    &&& event.ts@ == now@
                    &&& event.state == if old(self)@.cancel_requested(run_id@) {
                        RunState::Canceled
                    } else {
                        RunState::Success
                    }
                },
                Err(e) => e == CoreError::UnknownRun && !old(self)@.is_active(run_id@),
            },
    {
        if !self.cancels.contains_key(run_id) {
            return Err(CoreError::UnknownRun);
        }
        if self.is_cancel_requested(run_id) {
            let reached: u8 = self.recorded_progress(run_id);
            match self.finish(run_id, RunState::Canceled, reached, MSG_CANCELED.to_owned(), now) {
                Ok(event) => Ok(JobStep::Finished(event)),
                Err(e) => Err(e),
            }
        } else if pct > FULL_PROGRESS {
            match self.finish(run_id, RunState::Success, FULL_PROGRESS, MSG_DONE.to_owned(), now) {
                Ok(event) => Ok(JobStep::Finished(event)),
                Err(e) => Err(e),
            }
        } else {
            Ok(JobStep::Work { pct })
        }
    }
}

/// The message `working_note(pct)`.
pub fn working_message(pct: u8) -> (text: String)
    ensures
        text@ == working_note(pct as nat),
{
    let mut text = String::from_str("正在处理… ");
    push_decimal(&mut text, pct as u64);
    text.append("%");
    text
}

/// The message `step_note(pct)`.
pub fn step_message(pct: u8) -> (text: String)
    ensures
        text@ == step_note(pct as nat),
{
    let mut text = String::from_str("步骤推进至 ");
    push_decimal(&mut text, pct as u64);
    text.append("%");
    text
}

/// The news that `run_id` has started, to be published at the time `now`.
pub fn started_event(run_id: &str, now: String) -> (event: ProgressEvent)
    ensures
        event.run_id@ == run_id@,
        event.progress == 0,
        event.message@ == MSG_STARTED@,
        event.ts@ == now@,
{
    ProgressEvent {
        run_id: run_id.to_owned(),
        progress: 0,
        message: MSG_STARTED.to_owned(),
        ts: now,
    }
}

/// The news that `run_id` works on step `pct`, to be published at the time
/// `now`.
pub fn progress_event(run_id: &str, pct: u8, now: String) -> (event: ProgressEvent)
    ensures
        event.run_id@ == run_id@,
        event.progress == pct,
        event.message@ == working_note(pct as nat),
        event.ts@ == now@,
{
    ProgressEvent {
        run_id: run_id.to_owned(),
        progress: pct,
        message: working_message(pct),
        ts: now,
    }
}

impl RegistryState {
    /// The state after the built-in job has run on from step `pct` until it
    /// stopped, with no request arriving meanwhile; `clock` gives the time at
    /// which the job looks at its token before each step.
    pub open spec fn run_from(self, run_id: Seq<char>, pct: nat, clock: spec_fn(nat) -> Seq<char>)
        -> RegistryState
        decreases FULL_PROGRESS + PROGRESS_STEP - pct,
    {
        if self.is_active(run_id) && !self.cancel_requested(run_id) && pct <= FULL_PROGRESS {
            self.step(run_id, pct, clock(pct)).progress(run_id, pct).run_from(
                run_id,
                following(pct),
                clock,
            )
        } else {
            self.step(run_id, pct, clock(pct))
        }
    }
}

/// A registry that is free starts the run: at once its status says
/// `Running` with no progress, it is the only active run, and its
/// cancellation is not requested. While it is active, a second request to
/// start a run is refused and changes nothing, so the status of the first
/// run stays as it is.
pub proof fn lemma_start_then_start(
    s: RegistryState,
    run_id: Seq<char>,
    now: Seq<char>,
    other: Seq<char>,
    later: Seq<char>,
)
    requires
        s.wf(),
        !s.running,
    ensures
        ({
            let t = s.start(run_id, now);
            &&& t.wf()
            &&& t.running
            &&& t.is_active(run_id)
            &&& !t.cancel_requested(run_id)
            &&& forall|k: Seq<char>| t.is_active(k) ==> k == run_id
            &&& t.statuses.contains_key(run_id)
            &&& t.statuses[run_id].state == RunState::Running
            &&& t.statuses[run_id].progress == 0
            &&& t.statuses[run_id].started_at == now
            &&& t.start(other, later) == t
        }),
{
    lemma_start_keeps_wf(s, run_id, now);
    let t = s.start(run_id, now);
    assert(t.tokens.contains_key(run_id));
}

/// Once the cancellation of an active run was requested, the request stays
/// while the run records the step that is under way, and the next time the
/// job looks at its token, before whatever step `pct`, the run ends: its
/// status says `Canceled`, with the time of the end and with the progress
/// that was recorded last, and its token is gone. The step that was about to
/// start is not counted. From then on neither a recorded step nor another
/// look at the token, end or request changes anything.
pub proof fn lemma_cancel_is_observed(
    s: RegistryState,
    run_id: Seq<char>,
    worked: nat,
    pct: nat,
    now: Seq<char>,
    later: Seq<char>,
)
    requires
        s.wf(),
        s.is_active(run_id),
    ensures
        ({
            let c = s.cancel(run_id);
            let f = c.progress(run_id, worked).step(run_id, pct, now);
            &&& c.wf()
            &&& c.cancel_requested(run_id)
            &&& c.statuses == s.statuses
            &&& c.progress(run_id, worked).cancel_requested(run_id)
            &&& f.wf()
            &&& !f.is_active(run_id)
            &&& !f.running
            &&& f.statuses.contains_key(run_id)
            &&& f.statuses[run_id].state == RunState::Canceled
            &&& f.statuses[run_id].finished_at == Some(now)
            &&& f.statuses[run_id].progress == capped(worked)
            &&& s.cancel(run_id).step(run_id, pct, now).statuses[run_id].progress
                == s.statuses[run_id].progress
            &&& f.statuses[run_id].started_at == s.statuses[run_id].started_at
            &&& f.progress(run_id, worked) == f
            &&& f.step(run_id, pct, later) == f
            &&& f.finish(run_id, RunState::Success, pct, MSG_DONE@, later) == f
            &&& f.cancel(run_id) == f
        }),
{
    let c = s.cancel(run_id);
    lemma_cancel_keeps_wf(s, run_id);
    let w = c.progress(run_id, worked);
    lemma_progress_keeps_wf(c, run_id, worked);
    assert(w.tokens.contains_key(run_id));
    lemma_finish_keeps_wf(
        w,
        run_id,
        RunState::Canceled,
        w.statuses[run_id].progress,
        MSG_CANCELED@,
        now,
    );
}

/// A request to cancel a run that is unknown or has ended changes nothing;
/// the buffer of statuses in particular stays as it is.
pub proof fn lemma_cancel_of_inactive_is_noop(s: RegistryState, run_id: Seq<char>)
    requires
        s.wf(),
        !s.statuses.contains_key(run_id) || s.statuses[run_id].state.is_terminal(),
    ensures
        !s.is_active(run_id),
        s.cancel(run_id) == s,
{
}

/// A run that has reached a final state stays as it is: no recorded step,
/// look at the token, end, failure or request for cancellation changes the
/// registry.
pub proof fn lemma_final_state_is_kept(
    s: RegistryState,
    run_id: Seq<char>,
    state: RunState,
    pct: nat,
    message: Seq<char>,
    now: Seq<char>,
)
    requires
        s.wf(),
        s.statuses.contains_key(run_id),
        s.statuses[run_id].state.is_terminal(),
    ensures
        !s.is_active(run_id),
        s.progress(run_id, pct) == s,
        s.step(run_id, pct, now) == s,
        s.finish(run_id, state, pct, message, now) == s,
        s.fail(run_id, message, now) == s,
        s.cancel(run_id) == s,
{
}

/// The built-in job, left alone from step `pct` on, carries its run to the
/// end: the status says `Success` with full progress and the time of the
/// end, the token is gone and the guard is free. The run has then reached a
/// final state, in which it stays (`lemma_final_state_is_kept`).
pub proof fn lemma_run_completes(
    s: RegistryState,
    run_id: Seq<char>,
    pct: nat,
    clock: spec_fn(nat) -> Seq<char>,
)
    requires
        s.wf(),
        s.is_active(run_id),
        !s.cancel_requested(run_id),
    ensures
        ({
            let f = s.run_from(run_id, pct, clock);
            &&& f.wf()
            &&& !f.is_active(run_id)
            &&& !f.running
            &&& f.statuses.contains_key(run_id)
            &&& f.statuses[run_id].state == RunState::Success
            &&& f.statuses[run_id].progress == FULL_PROGRESS
            &&& f.statuses[run_id].finished_at is Some
            &&& f.statuses[run_id].started_at == s.statuses[run_id].started_at
            &&& f.statuses[run_id].run_id == run_id
        }),
    decreases FULL_PROGRESS + PROGRESS_STEP - pct,
{
    if pct <= FULL_PROGRESS {
        let w = s.step(run_id, pct, clock(pct)).progress(run_id, pct);
        assert(s.step(run_id, pct, clock(pct)) == s);
        lemma_progress_keeps_wf(s, run_id, pct);
        assert(w.tokens.contains_key(run_id));
        lemma_run_completes(w, run_id, following(pct), clock);
    } else {
        lemma_finish_keeps_wf(
            s,
            run_id,
            RunState::Success,
            FULL_PROGRESS as nat,
            MSG_DONE@,
            clock(pct),
        );
    }
}

/// While the built-in job works on, the progress that it records never
/// falls: the step that follows a recorded step is above it, and recording
/// it leaves the run in the state in which it was.
pub proof fn lemma_progress_rises(s: RegistryState, run_id: Seq<char>, pct: nat)
    requires
        s.wf(),
        s.is_active(run_id),
        following(pct) <= FULL_PROGRESS,
    ensures
        s.progress(run_id, pct).statuses[run_id].progress == pct,
        s.progress(run_id, pct).progress(run_id, following(pct)).statuses[run_id].progress
            == following(pct),
        following(pct) > pct,
        s.progress(run_id, pct).statuses[run_id].state == s.statuses[run_id].state,
{
    let w = s.progress(run_id, pct);
    assert(w.tokens.contains_key(run_id));
}

/// Recording a step keeps a registry well-formed.
pub proof fn lemma_progress_keeps_wf(s: RegistryState, run_id: Seq<char>, pct: nat)
    requires
        s.wf(),
    ensures
        s.progress(run_id, pct).wf(),
{
    let t = s.progress(run_id, pct);
    if s.is_active(run_id) {
        assert(t.tokens.contains_key(run_id));
        assert forall|k: Seq<char>| #[trigger]
            t.tokens.contains_key(k) <==> (t.statuses.contains_key(k)
                && !t.statuses[k].state.is_terminal()) by {
            assert(s.tokens.contains_key(k) <==> t.tokens.contains_key(k));
        }
    }
}

/// The end of a run in a final state keeps a registry well-formed.
pub proof fn lemma_finish_keeps_wf(
    s: RegistryState,
    run_id: Seq<char>,
    state: RunState,
    pct: nat,
    message: Seq<char>,
    now: Seq<char>,
)
    requires
        s.wf(),
        state.is_terminal(),
    ensures
        s.finish(run_id, state, pct, message, now).wf(),
{
    let t = s.finish(run_id, state, pct, message, now);
    if s.is_active(run_id) {
        assert forall|k: Seq<char>| !t.tokens.contains_key(k) by {
            if s.tokens.contains_key(k) {
                assert(s.tokens.contains_key(run_id));
            }
        }
        assert forall|k: Seq<char>| #[trigger]
            t.tokens.contains_key(k) <==> (t.statuses.contains_key(k)
                && !t.statuses[k].state.is_terminal()) by {
            if k != run_id {
                assert(!s.tokens.contains_key(k));
            }
        }
    }
}

/// Starting a run keeps a registry well-formed.
pub proof fn lemma_start_keeps_wf(s: RegistryState, run_id: Seq<char>, now: Seq<char>)
    requires
        s.wf(),
    ensures
        s.start(run_id, now).wf(),
{
    let t = s.start(run_id, now);
    if !s.running {
        assert(t.tokens.contains_key(run_id));
        assert forall|k: Seq<char>| #[trigger]
            t.tokens.contains_key(k) <==> (t.statuses.contains_key(k)
                && !t.statuses[k].state.is_terminal()) by {
            if k != run_id {
                assert(!s.tokens.contains_key(k));
            }
        }
    }
}

/// A request for cancellation keeps a registry well-formed.
pub proof fn lemma_cancel_keeps_wf(s: RegistryState, run_id: Seq<char>)
    requires
        s.wf(),
    ensures
        s.cancel(run_id).wf(),
{
    let t = s.cancel(run_id);
    if s.is_active(run_id) {
        assert(t.tokens.contains_key(run_id));
        assert forall|k: Seq<char>| #[trigger]
            t.tokens.contains_key(k) <==> (t.statuses.contains_key(k)
                && !t.statuses[k].state.is_terminal()) by {
            assert(s.tokens.contains_key(k) <==> t.tokens.contains_key(k));
        }
        assert forall|j: Seq<char>, k: Seq<char>|
            #[trigger] t.tokens.contains_key(j) && #[trigger] t.tokens.contains_key(
                k,
            ) implies j == k by {
            assert(s.tokens.contains_key(j));
            assert(s.tokens.contains_key(k));
        }
    }
}

} // verus!

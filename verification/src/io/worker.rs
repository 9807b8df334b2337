use crate::io::io_worker::{
    distinct, FileOp, FileOperationJob, IoWorkerProgress, JobResult, JobResultView, JobView,
    ProgressView,
};
use crate::util::text::{join, joined, texts};
use vstd::prelude::*;
use vstd::string::StringExecFns;

verus! {

/// Where a worker stands. The three last states are final.
#[derive(Clone, Copy, Debug, PartialEq, Eq, Structural)]
pub enum WorkerState {
    Idle,
    Running,
    Succeeded,
    Failed,
    Cancelled,
}

/// How the copy or move of one source path ended.
#[derive(Clone, Debug, PartialEq, Eq)]
pub enum PathOutcome {
    /// It was carried out; so many bytes were written since the last
    /// report.
    Done { bytes: u64 },
    /// The destination already holds an entry of that name; nothing was done.
    TargetExists,
    /// It failed for the reason given.
    Failed { reason: String },
}

/// The mathematical content of a [`PathOutcome`].
pub enum PathOutcomeView {
    Done { bytes: u64 },
    TargetExists,
    Failed { reason: Seq<char> },
}

impl View for PathOutcome {
    type V = PathOutcomeView;

    open spec fn view(&self) -> PathOutcomeView {
        match self {
            PathOutcome::Done { bytes } => PathOutcomeView::Done { bytes: *bytes },
            PathOutcome::TargetExists => PathOutcomeView::TargetExists,
            PathOutcome::Failed { reason } => PathOutcomeView::Failed { reason: reason@ },
        }
    }
}

/// What the thread that runs a worker tells it.
#[derive(Clone, Debug, PartialEq, Eq)]
pub enum WorkerEvent {
    /// The thread is ready for the next piece of work; `cancel` is the state
    /// of the cancellation flag at this moment.
    Poll { cancel: bool },
    /// The transfer that the worker asked for has written `bytes` more
    /// bytes of a large file and goes on.
    Chunk { bytes: u64 },
    /// The transfer that the worker asked for has ended.
    Outcome(PathOutcome),
}

/// The mathematical content of a [`WorkerEvent`].
pub enum WorkerEventView {
    Poll { cancel: bool },
    Chunk { bytes: u64 },
    Outcome(PathOutcomeView),
}

impl View for WorkerEvent {
    type V = WorkerEventView;

    open spec fn view(&self) -> WorkerEventView {
        match self {
            WorkerEvent::Poll { cancel } => WorkerEventView::Poll { cancel: *cancel },
            WorkerEvent::Chunk { bytes } => WorkerEventView::Chunk { bytes: *bytes },
            WorkerEvent::Outcome(o) => WorkerEventView::Outcome(o@),
        }
    }
}

/// What a worker asks of the thread that runs it.
#[derive(Clone, Debug, PartialEq, Eq)]
pub enum WorkerAction {
    /// Copy or move `source` into the directory `dest`, then report the
    /// outcome.
    Transfer { kind: FileOp, source: String, dest: String },
    /// Send this snapshot to the session; then poll again, or, after a
    /// chunk, go on with the transfer.
    Report(IoWorkerProgress),
    /// Send this result to the session and end the thread.
    Finish(JobResult),
    /// The event was not awaited; nothing has changed.
    Nothing,
}

/// The mathematical content of a [`WorkerAction`].
pub enum WorkerActionView {
    Transfer { kind: FileOp, source: Seq<char>, dest: Seq<char> },
    Report(ProgressView),
    Finish(JobResultView),
    Nothing,
}

impl View for WorkerAction {
    type V = WorkerActionView;

    open spec fn view(&self) -> WorkerActionView {
        match self {
            WorkerAction::Transfer { kind, source, dest } => WorkerActionView::Transfer {
                kind: *kind,
                source: source@,
                dest: dest@,
            },
            WorkerAction::Report(p) => WorkerActionView::Report(p@),
            WorkerAction::Finish(r) => WorkerActionView::Finish(r@),
            WorkerAction::Nothing => WorkerActionView::Nothing,
        }
    }
}

/// After so many bytes of one file a snapshot is due: 8 MiB.
pub const CHUNK_BYTES: u64 = 0x80_0000;

/// Whether a snapshot is due in the middle of a large file, `pending` bytes
/// of it having been written since the last snapshot.
pub fn chunk_due(pending: u64) -> (due: bool)
    ensures
        due == (pending >= CHUNK_BYTES),
{
    pending >= CHUNK_BYTES
}

/// The entry that a path which was not carried out leaves in the record of
/// failures: the path, a colon, and the reason.
pub open spec fn failure_entry(path: Seq<char>, outcome: PathOutcomeView) -> Seq<char> {
    path + ": "@ + match outcome {
        PathOutcomeView::Failed { reason } => reason,
        _ => "destination already exists"@,
    }
}

/// The sum of two byte counts, held at the largest count that fits.
pub open spec fn saturating_sum(a: nat, b: nat) -> nat {
    if a + b > u64::MAX {
        u64::MAX as nat
    } else {
        a + b
    }
}

/// The mathematical content of an [`IoWorker`].
#[verifier::ext_equal]
pub struct WorkerView {
    pub job: JobView,
    pub state: WorkerState,
    /// A transfer has been asked for and its outcome is awaited.
    pub in_flight: bool,
    /// How many source paths have been started.
    pub next: nat,
    /// How many of them were carried out.
    pub completed: nat,
    /// How many bytes were written in all.
    pub bytes: nat,
    /// One entry for each path that was not carried out.
    pub failures: Seq<Seq<char>>,
}

impl WorkerView {
    /// The invariant of a worker.
    pub open spec fn wf(self) -> bool {
        &&& distinct(self.job.paths)
        &&& self.next <= self.job.paths.len()
        &&& self.completed + self.failures.len() == self.next
        &&& self.in_flight ==> self.state == WorkerState::Running && self.next
            < self.job.paths.len()
        &&& self.state == WorkerState::Idle ==> self.next == 0
        &&& self.state == WorkerState::Succeeded ==> self.next == self.job.paths.len()
            && self.failures.len() == 0
        &&& self.state == WorkerState::Failed ==> self.next == self.job.paths.len()
            && self.failures.len() > 0
    }

    /// Whether the job has ended.
    pub open spec fn terminal(self) -> bool {
        self.state == WorkerState::Succeeded || self.state == WorkerState::Failed || self.state
            == WorkerState::Cancelled
    }

    /// How far the job has come.
    pub open spec fn snapshot(self) -> ProgressView {
        ProgressView {
            kind: self.job.kind,
            completed: self.completed,
            len: self.job.paths.len(),
            bytes_processed: self.bytes,
            total_bytes: self.job.total_bytes,
            current: if self.in_flight && self.next < self.job.paths.len() {
                self.job.paths[self.next as int]
            } else if 0 < self.next <= self.job.paths.len() {
                self.job.paths[self.next - 1]
            } else {
                Seq::empty()
            },
        }
    }

    /// The description of a job of which some path failed: every failed
    /// path with its reason.
    pub open spec fn failure_text(self) -> Seq<char> {
        "failed: "@ + joined(self.failures, ", "@)
    }

    /// The description of a cancelled job, which names the paths that had
    /// failed before.
    pub open spec fn cancel_text(self) -> Seq<char> {
        if self.failures.len() == 0 {
            "cancelled"@
        } else {
            "cancelled; "@ + self.failure_text()
        }
    }

    /// What a worker does when the thread is ready for more. Before each
    /// path the cancellation flag decides; when no path is left the job ends
    /// with success, or with failure if any path failed.
    pub open spec fn poll(self, cancel: bool) -> (WorkerView, WorkerActionView) {
        if self.terminal() || self.in_flight {
            (self, WorkerActionView::Nothing)
        } else if self.next < self.job.paths.len() {
            if cancel {
                (
                    WorkerView { state: WorkerState::Cancelled, ..self },
                    WorkerActionView::Finish(
                        JobResultView::Failure(self.cancel_text(), self.snapshot()),
                    ),
                )
            } else {
                (
                    WorkerView { state: WorkerState::Running, in_flight: true, ..self },
                    WorkerActionView::Transfer {
                        kind: self.job.kind,
                        source: self.job.paths[self.next as int],
                        dest: self.job.dest,
                    },
                )
            }
        } else if self.failures.len() == 0 {
            (
                WorkerView { state: WorkerState::Succeeded, ..self },
                WorkerActionView::Finish(JobResultView::Success(self.snapshot())),
            )
        } else {
            (
                WorkerView { state: WorkerState::Failed, ..self },
                WorkerActionView::Finish(
                    JobResultView::Failure(self.failure_text(), self.snapshot()),
                ),
            )
        }
    }

    /// What a worker does with the outcome of the transfer it asked for: it
    /// counts the path as done or records the failure, and reports how far
    /// the job has come. A failed path does not end the job.
    pub open spec fn record(self, outcome: PathOutcomeView) -> (WorkerView, WorkerActionView) {
        if !self.in_flight {
            (self, WorkerActionView::Nothing)
        } else {
            let after = match outcome {
                PathOutcomeView::Done { bytes } => WorkerView {
                    in_flight: false,
                    next: self.next + 1,
                    completed: self.completed + 1,
                    bytes: saturating_sum(self.bytes, bytes as nat),
                    ..self
                },
                _ => WorkerView {
                    in_flight: false,
                    next: self.next + 1,
                    failures: self.failures.push(
                        failure_entry(self.job.paths[self.next as int], outcome),
                    ),
                    ..self
                },
            };
            (after, WorkerActionView::Report(after.snapshot()))
        }
    }

    /// What a worker does when the transfer it asked for has written a
    /// chunk of a large file: it adds the bytes to the count and reports how
    /// far the job has come. The transfer goes on.
    pub open spec fn chunk(self, bytes: u64) -> (WorkerView, WorkerActionView) {
        if !self.in_flight {
            (self, WorkerActionView::Nothing)
        } else {
            let after = WorkerView { bytes: saturating_sum(self.bytes, bytes as nat), ..self };
            (after, WorkerActionView::Report(after.snapshot()))
        }
    }

    /// The transition of the worker: the state after `event` and what the
    /// thread is asked to do.
    pub open spec fn step(self, event: WorkerEventView) -> (WorkerView, WorkerActionView) {
        match event {
            WorkerEventView::Poll { cancel } => self.poll(cancel),
            WorkerEventView::Chunk { bytes } => self.chunk(bytes),
            WorkerEventView::Outcome(outcome) => self.record(outcome),
        }
    }

    /// An upper bound on the number of awaited events that a worker still
    /// takes before its job ends.
    pub open spec fn remaining(self) -> nat {
        if self.terminal() {
            0
        } else {
            (2 * (self.job.paths.len() - self.next) + if self.in_flight {
                0int
            } else {
                1int
            }) as nat
        }
    }

    /// Whether `event` is the one that brings the worker on: the outcome of
    /// the transfer it asked for, or else a poll.
    pub open spec fn awaits(self, event: WorkerEventView) -> bool {
        !self.terminal() && (if self.in_flight {
            event is Outcome
        } else {
            event is Poll
        })
    }
}

/// How many results a worker hands out while it is given `events` one after
/// the other.
pub open spec fn results_given(w: WorkerView, events: Seq<WorkerEventView>) -> nat
    decreases events.len(),
{
    if events.len() == 0 {
        0
    } else {
        let (after, action) = w.step(events.first());
        (if action is Finish {
            1nat
        } else {
            0nat
        }) + results_given(after, events.drop_first())
    }
}

/// Every transition keeps the invariant of the worker.
pub proof fn lemma_step_wf(w: WorkerView, event: WorkerEventView)
    requires
        w.wf(),
    ensures
        w.step(event).0.wf(),
        w.step(event).0.job == w.job,
{
}

/// The final states are final: a worker whose job has ended ignores every
/// event and hands out nothing more.
pub proof fn lemma_terminal_is_final(w: WorkerView, event: WorkerEventView)
    requires
        w.wf(),
        w.terminal(),
    ensures
        w.step(event) == (w, WorkerActionView::Nothing),
{
}

/// A result is handed out only by a worker whose job has not ended, and
/// ends it.
pub proof fn lemma_result_ends_job(w: WorkerView, event: WorkerEventView)
    requires
        w.wf(),
        w.step(event).1 is Finish,
    ensures
        !w.terminal(),
        w.step(event).0.terminal(),
        w.step(event).0.next == w.next,
{
}

/// The state of a worker after it was given `events` one after the other.
pub open spec fn state_after(w: WorkerView, events: Seq<WorkerEventView>) -> WorkerView
    decreases events.len(),
{
    if events.len() == 0 {
        w
    } else {
        state_after(w.step(events.first()).0, events.drop_first())
    }
}

/// Every job that ends gives exactly one result: a worker whose job has
/// not ended and that is given events until it has, has handed out one
/// result, no more and no less.
pub proof fn lemma_ended_job_gave_one_result(w: WorkerView, events: Seq<WorkerEventView>)
    requires
        w.wf(),
        !w.terminal(),
        state_after(w, events).terminal(),
    ensures
        results_given(w, events) == 1,
    decreases events.len(),
{
    if events.len() > 0 {
        let (after, action) = w.step(events.first());
        lemma_step_wf(w, events.first());
        if after.terminal() {
            lemma_at_most_one_result(after, events.drop_first());
        } else {
            lemma_ended_job_gave_one_result(after, events.drop_first());
        }
    }
}

/// Whatever events a worker is given, it hands out at most one result, and
/// none once its job has ended.
pub proof fn lemma_at_most_one_result(w: WorkerView, events: Seq<WorkerEventView>)
    requires
        w.wf(),
    ensures
        results_given(w, events) <= 1,
        w.terminal() ==> results_given(w, events) == 0,
    decreases events.len(),
{
    if events.len() > 0 {
        let (after, action) = w.step(events.first());
        lemma_step_wf(w, events.first());
        lemma_at_most_one_result(after, events.drop_first());
    }
}

/// A worker that is given the event it waits for either hands out its
/// result or comes closer to it. So a job of N paths ends, with exactly one
/// result, after at most 2 N + 1 awaited events.
pub proof fn lemma_awaited_event_makes_progress(w: WorkerView, event: WorkerEventView)
    requires
        w.wf(),
        w.awaits(event),
    ensures
        w.step(event).1 is Finish || w.step(event).0.remaining() < w.remaining(),
        w.step(event).1 !is Nothing,
{
}

/// An event that is not awaited changes nothing, but for a chunk of the
/// transfer that is under way, which only adds to the count of bytes.
pub proof fn lemma_other_event_is_ignored(w: WorkerView, event: WorkerEventView)
    requires
        w.wf(),
        !w.awaits(event),
    ensures
        !(w.in_flight && event is Chunk) ==> w.step(event) == (w, WorkerActionView::Nothing),
        w.step(event).0 == (WorkerView { bytes: w.step(event).0.bytes, ..w }),
        w.step(event).1 !is Finish && w.step(event).1 !is Transfer,
{
}

/// The paths of a job are started in their order, each at most once: a
/// transfer is asked for the first path that has not been started, with the
/// kind and the destination of the job, and that path then counts as under
/// way.
pub proof fn lemma_transfer_is_next_path(w: WorkerView, event: WorkerEventView)
    requires
        w.wf(),
        w.step(event).1 is Transfer,
    ensures
        w.next < w.job.paths.len(),
        w.step(event).1 == (WorkerActionView::Transfer {
            kind: w.job.kind,
            source: w.job.paths[w.next as int],
            dest: w.job.dest,
        }),
        !w.in_flight && w.step(event).0.in_flight,
        w.step(event).0.next == w.next,
        event == (WorkerEventView::Poll { cancel: false }),
{
}

/// A cancellation seen after K paths have been carried out, while paths
/// remain, ends the job as cancelled: the result is a failure whose snapshot
/// counts K completed paths, and no further path is started.
pub proof fn lemma_cancel_reports_completed(w: WorkerView)
    requires
        w.wf(),
        !w.terminal(),
        !w.in_flight,
        w.next < w.job.paths.len(),
    ensures
        w.poll(true).0.state == WorkerState::Cancelled,
        w.poll(true).0.next == w.next,
        w.poll(true).1 matches WorkerActionView::Finish(JobResultView::Failure(_, p))
            && p.completed == w.completed && p.len == w.job.paths.len(),
        forall|event: WorkerEventView| #[trigger]
            w.poll(true).0.step(event) == (w.poll(true).0, WorkerActionView::Nothing),
{
}

/// The state machine of the background worker. The thread that runs it
/// does the copying and moving; the worker decides what is done next and
/// keeps the count.
#[derive(Clone, Debug, PartialEq, Eq)]
pub struct IoWorker {
    job: FileOperationJob,
    state: WorkerState,
    in_flight: bool,
    next: usize,
    completed: usize,
    bytes: u64,
    failures: Vec<String>,
}

impl View for IoWorker {
    type V = WorkerView;

    closed spec fn view(&self) -> WorkerView {
        WorkerView {
            job: self.job@,
            state: self.state,
            in_flight: self.in_flight,
            next: self.next as nat,
            completed: self.completed as nat,
            bytes: self.bytes as nat,
            failures: texts(self.failures@),
        }
    }
}

impl IoWorker {
    /// A worker for `job` that has not started.
    pub fn new(job: FileOperationJob) -> (w: IoWorker)
        requires
            job.wf(),
        ensures
            w@ == (WorkerView {
                job: job@,
                state: WorkerState::Idle,
                in_flight: false,
                next: 0,
                completed: 0,
                bytes: 0,
                failures: Seq::empty(),
            }),
            w@.wf(),
    {
        let w = IoWorker {
            job,
            state: WorkerState::Idle,
            in_flight: false,
            next: 0,
            completed: 0,
            bytes: 0,
            failures: Vec::new(),
        };
        assert(w@.failures =~= Seq::empty());
        w
    }

    /// Where the worker stands.
    pub fn state(&self) -> (s: WorkerState)
        ensures
            s == self@.state,
    {
        self.state
    }

    /// The job that the worker carries out.
    pub fn job(&self) -> (job: &FileOperationJob)
        ensures
            job@ == self@.job,
    {
        &self.job
    }

    /// How far the job has come.
    pub fn snapshot(&self) -> (p: IoWorkerProgress)
        requires
            self@.wf(),
        ensures
            p@ == self@.snapshot(),
    {
        let current = if self.in_flight && self.next < self.job.len() {
            self.job.path(self.next).to_owned()
        } else if self.next > 0 {
            self.job.path(self.next - 1).to_owned()
        } else {
            String::new()
        };
        IoWorkerProgress::new(
            self.job.kind(),
            self.completed,
            self.job.len(),
            self.bytes,
            self.job.total_bytes(),
            current,
        )
    }

    fn failure_description(&self) -> (d: String)
        ensures
            d@ == self@.failure_text(),
    {
        String::from_str("failed: ").concat(join(&self.failures, ", ").as_str())
    }

    fn cancel_description(&self) -> (d: String)
        ensures
            d@ == self@.cancel_text(),
    {
        if self.failures.len() == 0 {
            String::from_str("cancelled")
        } else {
            String::from_str("cancelled; ").concat(self.failure_description().as_str())
        }
    }

    fn poll(&mut self, cancel: bool) -> (action: WorkerAction)
        requires
            old(self)@.wf(),
        ensures
            (final(self)@, action@) == old(self)@.poll(cancel),
    {
        if self.in_flight {
            return WorkerAction::Nothing;
        }
        match self.state {
            WorkerState::Succeeded | WorkerState::Failed | WorkerState::Cancelled => {
                return WorkerAction::Nothing;
            },
            _ => {},
        }
        if self.next < self.job.len() {
            if cancel {
                let description = self.cancel_description();
                let snapshot = self.snapshot();
                self.state = WorkerState::Cancelled;
                WorkerAction::Finish(JobResult::Failure(description, snapshot))
            } else {
                self.state = WorkerState::Running;
                self.in_flight = true;
                WorkerAction::Transfer {
                    kind: self.job.kind(),
                    source: self.job.path(self.next).to_owned(),
                    dest: self.job.dest_path().to_owned(),
                }
            }
        } else if self.failures.len() == 0 {
            let snapshot = self.snapshot();
            self.state = WorkerState::Succeeded;
            WorkerAction::Finish(JobResult::Success(snapshot))
        } else {
            let description = self.failure_description();
            let snapshot = self.snapshot();
            self.state = WorkerState::Failed;
            WorkerAction::Finish(JobResult::Failure(description, snapshot))
        }
    }

    fn chunk(&mut self, bytes: u64) -> (action: WorkerAction)
        requires
            old(self)@.wf(),
        ensures
            (final(self)@, action@) == old(self)@.chunk(bytes),
    {
        if !self.in_flight {
            return WorkerAction::Nothing;
        }
        self.bytes = self.bytes.saturating_add(bytes);
        proof {
            lemma_step_wf(old(self)@, WorkerEventView::Chunk { bytes });
        }
        WorkerAction::Report(self.snapshot())
    }

    fn record(&mut self, outcome: PathOutcome) -> (action: WorkerAction)
        requires
            old(self)@.wf(),
        ensures
            (final(self)@, action@) == old(self)@.record(outcome@),
    {
        if !self.in_flight {
            return WorkerAction::Nothing;
        }
        let ghost before = self.failures@;
        let len: usize = self.job.len();
        assert(self.next < len);
        match outcome {
            PathOutcome::Done { bytes } => {
                self.completed = self.completed + 1;
                self.bytes = self.bytes.saturating_add(bytes);
            },
            PathOutcome::TargetExists => {
                let entry = String::from_str(self.job.path(self.next)).concat(": ").concat(
                    "destination already exists",
                );
                self.failures.push(entry);
                assert(texts(self.failures@) =~= texts(before).push(entry@));
            },
            PathOutcome::Failed { reason } => {
                let entry = String::from_str(self.job.path(self.next)).concat(": ").concat(
                    reason.as_str(),
                );
                self.failures.push(entry);
                assert(texts(self.failures@) =~= texts(before).push(entry@));
            },
        }
        self.in_flight = false;
        self.next = self.next + 1;
        proof {
            lemma_step_wf(old(self)@, WorkerEventView::Outcome(outcome@));
        }
        WorkerAction::Report(self.snapshot())
    }

    /// Takes an event from the thread and says what to do next.
    pub fn step(&mut self, event: WorkerEvent) -> (action: WorkerAction)
        requires
            old(self)@.wf(),
        ensures
            (final(self)@, action@) == old(self)@.step(event@),
            final(self)@.wf(),
    {
        proof {
            lemma_step_wf(self@, event@);
        }
        match event {
            WorkerEvent::Poll { cancel } => self.poll(cancel),
            WorkerEvent::Chunk { bytes } => self.chunk(bytes),
            WorkerEvent::Outcome(outcome) => self.record(outcome),
        }
    }
}

} // verus!

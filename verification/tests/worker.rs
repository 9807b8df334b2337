use joshuto::error::JoshutoErrorKind;
use joshuto::io::channel::{EventChannel, WorkerMessage};
use joshuto::io::io_worker::{FileOp, FileOperationJob, IoWorkerProgress, JobResult};
use joshuto::io::worker::{
    chunk_due, IoWorker, PathOutcome, WorkerAction, WorkerEvent, WorkerState, CHUNK_BYTES,
};

const MB: u64 = 1024 * 1024;

fn job(kind: FileOp, paths: &[&str], total: u64) -> FileOperationJob {
    let paths = paths.iter().map(|p| p.to_string()).collect();
    FileOperationJob::new(kind, paths, "/a".to_string(), "/b".to_string(), total).unwrap()
}

fn snapshot(kind: FileOp, completed: usize, len: usize, bytes: u64, total: u64, current: &str) -> IoWorkerProgress {
    IoWorkerProgress::new(kind, completed, len, bytes, total, current.to_string())
}

fn transfer(kind: FileOp, source: &str) -> WorkerAction {
    WorkerAction::Transfer { kind, source: source.to_string(), dest: "/b".to_string() }
}

fn poll() -> WorkerEvent {
    WorkerEvent::Poll { cancel: false }
}

fn done(bytes: u64) -> WorkerEvent {
    WorkerEvent::Outcome(PathOutcome::Done { bytes })
}

#[test]
fn a_job_with_a_repeated_path_is_refused() {
    let paths = vec!["/a/x".to_string(), "/a/y".to_string(), "/a/x".to_string()];
    let err = FileOperationJob::new(FileOp::Copy, paths, "/a".to_string(), "/b".to_string(), 0).unwrap_err();
    assert_eq!(err.kind(), JoshutoErrorKind::IoInvalidInput);
    assert_eq!(err.cause(), "source paths must be distinct");
}

#[test]
fn a_job_keeps_what_it_was_made_of() {
    let j = job(FileOp::Cut, &["/a/x", "/a/y"], 42);
    assert_eq!(j.kind(), FileOp::Cut);
    assert_eq!(j.len(), 2);
    assert_eq!(j.path(0), "/a/x");
    assert_eq!(j.path(1), "/a/y");
    assert_eq!(j.src_path(), "/a");
    assert_eq!(j.dest_path(), "/b");
    assert_eq!(j.total_bytes(), 42);
}

#[test]
fn copying_three_files_reports_three_snapshots_and_success() {
    let mut worker = IoWorker::new(job(FileOp::Copy, &["/a/1", "/a/2", "/a/3"], 10 * MB));
    assert_eq!(worker.state(), WorkerState::Idle);
    assert_eq!(worker.step(poll()), transfer(FileOp::Copy, "/a/1"));
    assert_eq!(worker.state(), WorkerState::Running);
    assert_eq!(
        worker.step(done(2 * MB)),
        WorkerAction::Report(snapshot(FileOp::Copy, 1, 3, 2 * MB, 10 * MB, "/a/1"))
    );
    assert_eq!(worker.step(poll()), transfer(FileOp::Copy, "/a/2"));
    assert_eq!(
        worker.step(done(3 * MB)),
        WorkerAction::Report(snapshot(FileOp::Copy, 2, 3, 5 * MB, 10 * MB, "/a/2"))
    );
    assert_eq!(worker.step(poll()), transfer(FileOp::Copy, "/a/3"));
    assert_eq!(
        worker.step(done(5 * MB)),
        WorkerAction::Report(snapshot(FileOp::Copy, 3, 3, 10 * MB, 10 * MB, "/a/3"))
    );
    assert_eq!(
        worker.step(poll()),
        WorkerAction::Finish(JobResult::Success(snapshot(FileOp::Copy, 3, 3, 10 * MB, 10 * MB, "/a/3")))
    );
    assert_eq!(worker.state(), WorkerState::Succeeded);
}

#[test]
fn a_finished_worker_gives_no_second_result() {
    let mut worker = IoWorker::new(job(FileOp::Copy, &["/a/1"], 1));
    assert_eq!(worker.step(poll()), transfer(FileOp::Copy, "/a/1"));
    assert!(matches!(worker.step(done(1)), WorkerAction::Report(_)));
    assert!(matches!(worker.step(poll()), WorkerAction::Finish(JobResult::Success(_))));
    assert_eq!(worker.step(poll()), WorkerAction::Nothing);
    assert_eq!(worker.step(WorkerEvent::Poll { cancel: true }), WorkerAction::Nothing);
    assert_eq!(worker.step(done(1)), WorkerAction::Nothing);
    assert_eq!(worker.step(WorkerEvent::Chunk { bytes: 1 }), WorkerAction::Nothing);
    assert_eq!(worker.state(), WorkerState::Succeeded);
}

#[test]
fn a_job_without_paths_succeeds_at_once() {
    let mut worker = IoWorker::new(job(FileOp::Cut, &[], 0));
    assert_eq!(
        worker.step(WorkerEvent::Poll { cancel: true }),
        WorkerAction::Finish(JobResult::Success(snapshot(FileOp::Cut, 0, 0, 0, 0, "")))
    );
    assert_eq!(worker.state(), WorkerState::Succeeded);
}

#[test]
fn a_name_collision_fails_that_path_only() {
    let mut worker = IoWorker::new(job(FileOp::Cut, &["/a/keep", "/a/clash", "/a/more"], 30));
    assert_eq!(worker.step(poll()), transfer(FileOp::Cut, "/a/keep"));
    assert!(matches!(worker.step(done(10)), WorkerAction::Report(_)));
    assert_eq!(worker.step(poll()), transfer(FileOp::Cut, "/a/clash"));
    assert_eq!(
        worker.step(WorkerEvent::Outcome(PathOutcome::TargetExists)),
        WorkerAction::Report(snapshot(FileOp::Cut, 1, 3, 10, 30, "/a/clash"))
    );
    assert_eq!(worker.state(), WorkerState::Running);
    assert_eq!(worker.step(poll()), transfer(FileOp::Cut, "/a/more"));
    assert_eq!(
        worker.step(done(10)),
        WorkerAction::Report(snapshot(FileOp::Cut, 2, 3, 20, 30, "/a/more"))
    );
    assert_eq!(
        worker.step(poll()),
        WorkerAction::Finish(JobResult::Failure(
            "failed: /a/clash: destination already exists".to_string(),
            snapshot(FileOp::Cut, 2, 3, 20, 30, "/a/more")
        ))
    );
    assert_eq!(worker.state(), WorkerState::Failed);
}

#[test]
fn every_failed_path_is_listed_with_its_reason() {
    let mut worker = IoWorker::new(job(FileOp::Copy, &["/a/x", "/a/y"], 0));
    assert_eq!(worker.step(poll()), transfer(FileOp::Copy, "/a/x"));
    let denied = PathOutcome::Failed { reason: "permission denied".to_string() };
    assert!(matches!(worker.step(WorkerEvent::Outcome(denied)), WorkerAction::Report(_)));
    assert_eq!(worker.step(poll()), transfer(FileOp::Copy, "/a/y"));
    let vanished = PathOutcome::Failed { reason: "no such file".to_string() };
    assert!(matches!(worker.step(WorkerEvent::Outcome(vanished)), WorkerAction::Report(_)));
    assert_eq!(
        worker.step(poll()),
        WorkerAction::Finish(JobResult::Failure(
            "failed: /a/x: permission denied, /a/y: no such file".to_string(),
            snapshot(FileOp::Copy, 0, 2, 0, 0, "/a/y")
        ))
    );
}

#[test]
fn cancelling_after_two_of_five_paths_reports_two_completed() {
    let mut worker = IoWorker::new(job(FileOp::Copy, &["/a/1", "/a/2", "/a/3", "/a/4", "/a/5"], 50));
    assert_eq!(worker.step(poll()), transfer(FileOp::Copy, "/a/1"));
    assert!(matches!(worker.step(done(10)), WorkerAction::Report(_)));
    assert_eq!(worker.step(poll()), transfer(FileOp::Copy, "/a/2"));
    assert!(matches!(worker.step(done(10)), WorkerAction::Report(_)));
    assert_eq!(
        worker.step(WorkerEvent::Poll { cancel: true }),
        WorkerAction::Finish(JobResult::Failure(
            "cancelled".to_string(),
            snapshot(FileOp::Copy, 2, 5, 20, 50, "/a/2")
        ))
    );
    assert_eq!(worker.state(), WorkerState::Cancelled);
    assert_eq!(worker.step(poll()), WorkerAction::Nothing);
    assert_eq!(worker.state(), WorkerState::Cancelled);
}

#[test]
fn a_cancelled_job_names_the_paths_that_had_failed() {
    let mut worker = IoWorker::new(job(FileOp::Copy, &["/a/1", "/a/2"], 0));
    assert_eq!(worker.step(poll()), transfer(FileOp::Copy, "/a/1"));
    assert!(matches!(worker.step(WorkerEvent::Outcome(PathOutcome::TargetExists)), WorkerAction::Report(_)));
    assert_eq!(
        worker.step(WorkerEvent::Poll { cancel: true }),
        WorkerAction::Finish(JobResult::Failure(
            "cancelled; failed: /a/1: destination already exists".to_string(),
            snapshot(FileOp::Copy, 0, 2, 0, 0, "/a/1")
        ))
    );
}

#[test]
fn a_transfer_under_way_is_not_cancelled() {
    let mut worker = IoWorker::new(job(FileOp::Copy, &["/a/1"], 8));
    assert_eq!(worker.step(poll()), transfer(FileOp::Copy, "/a/1"));
    assert_eq!(worker.step(WorkerEvent::Poll { cancel: true }), WorkerAction::Nothing);
    assert_eq!(worker.state(), WorkerState::Running);
    assert!(matches!(worker.step(done(8)), WorkerAction::Report(_)));
    assert!(matches!(
        worker.step(WorkerEvent::Poll { cancel: true }),
        WorkerAction::Finish(JobResult::Success(_))
    ));
}

#[test]
fn chunks_of_a_large_file_are_reported_as_they_come() {
    let mut worker = IoWorker::new(job(FileOp::Copy, &["/a/big"], 30));
    assert_eq!(worker.step(WorkerEvent::Chunk { bytes: 5 }), WorkerAction::Nothing);
    assert_eq!(worker.step(poll()), transfer(FileOp::Copy, "/a/big"));
    assert_eq!(
        worker.step(WorkerEvent::Chunk { bytes: 10 }),
        WorkerAction::Report(snapshot(FileOp::Copy, 0, 1, 10, 30, "/a/big"))
    );
    assert_eq!(
        worker.step(WorkerEvent::Chunk { bytes: 10 }),
        WorkerAction::Report(snapshot(FileOp::Copy, 0, 1, 20, 30, "/a/big"))
    );
    assert_eq!(
        worker.step(done(10)),
        WorkerAction::Report(snapshot(FileOp::Copy, 1, 1, 30, 30, "/a/big"))
    );
}

#[test]
fn an_outcome_that_was_not_asked_for_is_ignored() {
    let mut worker = IoWorker::new(job(FileOp::Copy, &["/a/1"], 8));
    assert_eq!(worker.step(done(8)), WorkerAction::Nothing);
    assert_eq!(worker.state(), WorkerState::Idle);
    assert_eq!(worker.snapshot(), snapshot(FileOp::Copy, 0, 1, 0, 8, ""));
}

#[test]
fn the_count_of_bytes_stops_at_the_largest_number() {
    let mut worker = IoWorker::new(job(FileOp::Copy, &["/a/1", "/a/2"], 0));
    assert_eq!(worker.step(poll()), transfer(FileOp::Copy, "/a/1"));
    assert!(matches!(worker.step(done(u64::MAX - 1)), WorkerAction::Report(_)));
    assert_eq!(worker.step(poll()), transfer(FileOp::Copy, "/a/2"));
    assert_eq!(
        worker.step(done(5)),
        WorkerAction::Report(snapshot(FileOp::Copy, 2, 2, u64::MAX, 0, "/a/2"))
    );
}

#[test]
fn a_snapshot_gives_back_its_parts() {
    let p = snapshot(FileOp::Cut, 1, 4, 100, 400, "/a/x");
    assert_eq!(p.kind(), FileOp::Cut);
    assert_eq!(p.completed(), 1);
    assert_eq!(p.len(), 4);
    assert_eq!(p.bytes_processed(), 100);
    assert_eq!(p.total_bytes(), 400);
    assert_eq!(p.current(), "/a/x");
    assert_eq!(p.duplicate(), p);
}

#[test]
fn the_channel_is_first_in_first_out() {
    let mut channel = EventChannel::new(4);
    assert!(channel.send_progress(snapshot(FileOp::Copy, 1, 2, 1, 2, "/a/1")));
    assert!(channel.send_progress(snapshot(FileOp::Copy, 2, 2, 2, 2, "/a/2")));
    assert_eq!(channel.len(), 2);
    assert_eq!(channel.recv(), Some(WorkerMessage::Progress(snapshot(FileOp::Copy, 1, 2, 1, 2, "/a/1"))));
    assert_eq!(channel.recv(), Some(WorkerMessage::Progress(snapshot(FileOp::Copy, 2, 2, 2, 2, "/a/2"))));
    assert_eq!(channel.recv(), None);
    assert!(!channel.is_closed());
}

#[test]
fn a_full_channel_drops_snapshots_but_never_the_result() {
    let mut channel = EventChannel::new(2);
    assert!(channel.send_progress(snapshot(FileOp::Copy, 1, 4, 1, 4, "/a/1")));
    assert!(channel.send_progress(snapshot(FileOp::Copy, 2, 4, 2, 4, "/a/2")));
    assert!(!channel.send_progress(snapshot(FileOp::Copy, 3, 4, 3, 4, "/a/3")));
    assert_eq!(channel.len(), 2);
    let result = JobResult::Success(snapshot(FileOp::Copy, 4, 4, 4, 4, "/a/4"));
    assert!(channel.send_result(result.clone()));
    assert!(channel.is_closed());
    assert_eq!(channel.len(), 3);
    assert!(matches!(channel.recv(), Some(WorkerMessage::Progress(_))));
    assert!(matches!(channel.recv(), Some(WorkerMessage::Progress(_))));
    assert_eq!(channel.recv(), Some(WorkerMessage::Result(result)));
    assert_eq!(channel.recv(), None);
}

#[test]
fn a_channel_without_room_still_carries_the_result() {
    let mut channel = EventChannel::new(0);
    assert!(!channel.send_progress(snapshot(FileOp::Copy, 0, 1, 0, 1, "")));
    assert!(channel.send_result(JobResult::Failure("cancelled".to_string(), snapshot(FileOp::Copy, 0, 1, 0, 1, ""))));
    assert_eq!(channel.len(), 1);
}

#[test]
fn a_closed_channel_accepts_nothing() {
    let mut channel = EventChannel::new(3);
    let result = JobResult::Success(snapshot(FileOp::Copy, 0, 0, 0, 0, ""));
    assert!(channel.send_result(result.clone()));
    assert!(!channel.send_result(result.clone()));
    assert!(!channel.send_progress(snapshot(FileOp::Copy, 0, 0, 0, 0, "")));
    assert_eq!(channel.len(), 1);
    assert_eq!(channel.recv(), Some(WorkerMessage::Result(result)));
    assert!(channel.is_closed());
    assert!(!channel.send_progress(snapshot(FileOp::Copy, 0, 0, 0, 0, "")));
    assert_eq!(channel.len(), 0);
}

#[test]
fn a_snapshot_is_due_after_eight_mebibytes_of_one_file() {
    assert_eq!(CHUNK_BYTES, 8 * 1024 * 1024);
    assert!(!chunk_due(0));
    assert!(!chunk_due(8 * 1024 * 1024 - 1));
    assert!(chunk_due(8 * 1024 * 1024));
    assert!(chunk_due(u64::MAX));
}

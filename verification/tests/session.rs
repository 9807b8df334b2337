use joshuto::commands::reload::{reload, reload_everywhere};
use joshuto::context::{JoshutoConfig, JoshutoContext};
use joshuto::error::JoshutoErrorKind;
use joshuto::fs::dirlist::{DirRead, DirectoryListing};
use joshuto::fs::entry::Entry;
use joshuto::io::io_worker::{FileOp, FileOperationJob, IoWorkerProgress, JobResult};
use joshuto::io::worker::{PathOutcome, WorkerAction, WorkerEvent, WorkerState};
use joshuto::tab::JoshutoTab;
use joshuto::ui::layout::Rect;
use joshuto::ui::views::tui_worker_view::{TuiWorkerView, ViewStep, WorkerViewLayout};
use joshuto::util::event::{JoshutoEvent, Key, MouseButton, MouseEvent, TermionEvent};
use joshuto::util::input::{
    process_finished_worker, process_noninteractive, process_worker_progress,
};
use joshuto::util::sort::{SortOption, SortType};

const MB: u64 = 1024 * 1024;

fn by_name() -> SortOption {
    SortOption { directories_first: false, reverse: false, sort_method: SortType::Lexical }
}

fn file(name: &str) -> Entry {
    Entry::new(name.to_string(), false, 1, 1)
}

fn read(names: &[&str]) -> DirRead {
    DirRead::Entries(names.iter().map(|n| file(n)).collect())
}

fn names(list: &DirectoryListing) -> Vec<String> {
    (0..list.len()).map(|i| list.entry(i).file_name().to_string()).collect()
}

fn tab(cwd: &str, dirs: &[(&str, &[&str])]) -> JoshutoTab {
    let mut tab = JoshutoTab::new(cwd.to_string(), None);
    for (path, entries) in dirs {
        assert!(tab.history_mut().get_or_load(path, &read(entries), &by_name()).is_ok());
    }
    tab
}

fn session() -> JoshutoContext {
    let config = JoshutoConfig { sort_option: by_name(), column_ratio: (1, 3, 4) };
    JoshutoContext::new(config, tab("/a", &[("/a", &["1", "2", "3"]), ("/b", &["old"])]))
}

fn job(kind: FileOp, paths: &[&str], total: u64) -> FileOperationJob {
    let paths = paths.iter().map(|p| p.to_string()).collect();
    FileOperationJob::new(kind, paths, "/a".to_string(), "/b".to_string(), total).unwrap()
}

fn snapshot(kind: FileOp, completed: usize, len: usize, bytes: u64, total: u64, current: &str) -> IoWorkerProgress {
    IoWorkerProgress::new(kind, completed, len, bytes, total, current.to_string())
}

fn messages(context: &JoshutoContext) -> Vec<String> {
    (0..context.message_count()).map(|i| context.message(i).to_string()).collect()
}

#[test]
fn a_submitted_job_is_observed_by_the_session() {
    let mut context = session();
    assert!(!context.worker_is_busy());
    let worker = context.submit(job(FileOp::Copy, &["/a/1"], 5), true).unwrap();
    assert_eq!(worker.state(), WorkerState::Idle);
    assert_eq!(worker.job().len(), 1);
    assert!(context.worker_is_busy());
    let observer = context.worker_ref().unwrap();
    assert_eq!(observer.src_path(), "/a");
    assert_eq!(observer.dest_path(), "/b");
    assert!(observer.progress().is_none());
    assert_eq!(observer.get_msg(), "");
}

#[test]
fn a_second_job_is_refused_while_the_first_runs() {
    let mut context = session();
    let mut first = context.submit(job(FileOp::Copy, &["/a/1", "/a/2"], 2), true).unwrap();
    assert!(matches!(first.step(WorkerEvent::Poll { cancel: false }), WorkerAction::Transfer { .. }));
    process_worker_progress(&mut context, snapshot(FileOp::Copy, 1, 2, 1, 2, "/a/1"));
    let err = context.submit(job(FileOp::Cut, &["/a/3"], 1), true).unwrap_err();
    assert_eq!(err.kind(), JoshutoErrorKind::WorkerBusy);
    assert_eq!(err.cause(), "a file operation is already running");
    let observer = context.worker_ref().unwrap();
    assert_eq!(observer.progress(), Some(&snapshot(FileOp::Copy, 1, 2, 1, 2, "/a/1")));
    assert_eq!(observer.src_path(), "/a");
    assert_eq!(first.state(), WorkerState::Running);
    assert!(matches!(
        first.step(WorkerEvent::Outcome(PathOutcome::Done { bytes: 1 })),
        WorkerAction::Report(_)
    ));
}

#[test]
fn a_job_into_something_that_is_no_directory_is_refused() {
    let mut context = session();
    let err = context.submit(job(FileOp::Copy, &["/a/1"], 5), false).unwrap_err();
    assert_eq!(err.kind(), JoshutoErrorKind::NotADirectory);
    assert_eq!(err.cause(), "not a directory: /b");
    assert!(!context.worker_is_busy());
    assert!(context.submit(job(FileOp::Copy, &["/a/1"], 5), true).is_ok());
}

#[test]
fn a_snapshot_updates_the_line_shown_and_no_listing() {
    let mut context = session();
    assert!(context.submit(job(FileOp::Cut, &["/a/1", "/a/2"], 3 * MB), true).is_ok());
    process_worker_progress(&mut context, snapshot(FileOp::Cut, 1, 2, 1536 * 1024, 3 * MB, "/a/1"));
    let observer = context.worker_ref().unwrap();
    assert_eq!(observer.get_msg(), "Moving (1/2) 1.50 M/3.00 M completed");
    assert_eq!(names(context.curr_tab_ref().history_ref().get("/a").unwrap()), vec!["1", "2", "3"]);
    assert_eq!(names(context.curr_tab_ref().history_ref().get("/b").unwrap()), vec!["old"]);
    assert_eq!(context.message_count(), 0);
    process_worker_progress(&mut context, snapshot(FileOp::Copy, 2, 2, 512, 2048, "/a/2"));
    assert_eq!(context.worker_ref().unwrap().get_msg(), "Copying (2/2) 512 B/2.00 K completed");
}

#[test]
fn a_snapshot_without_a_job_is_dropped() {
    let mut context = session();
    process_worker_progress(&mut context, snapshot(FileOp::Cut, 1, 2, 1, 2, "/a/1"));
    assert!(context.worker_ref().is_none());
    assert_eq!(context.message_count(), 0);
}

#[test]
fn a_finished_copy_reloads_both_directories_and_tells_the_user() {
    let mut context = session();
    assert!(context.submit(job(FileOp::Copy, &["/a/1", "/a/2", "/a/3"], 10 * MB), true).is_ok());
    let result = JobResult::Success(snapshot(FileOp::Copy, 3, 3, 10 * MB, 10 * MB, "/a/3"));
    process_finished_worker(&mut context, result, &read(&["old", "3", "1", "2"]), &read(&["3", "2", "1"]));
    assert!(!context.worker_is_busy());
    assert_eq!(messages(&context), vec!["successfully copied 3 items (10.00 M)"]);
    assert_eq!(names(context.curr_tab_ref().history_ref().get("/b").unwrap()), vec!["1", "2", "3", "old"]);
    assert_eq!(names(context.curr_tab_ref().history_ref().get("/a").unwrap()), vec!["1", "2", "3"]);
    assert!(context.submit(job(FileOp::Cut, &["/a/1"], 1), true).is_ok());
}

#[test]
fn a_finished_move_is_reported_as_moved() {
    let mut context = session();
    assert!(context.submit(job(FileOp::Cut, &["/a/1"], 700), true).is_ok());
    let result = JobResult::Success(snapshot(FileOp::Cut, 1, 1, 700, 700, "/a/1"));
    process_finished_worker(&mut context, result, &read(&["old", "1"]), &read(&["2", "3"]));
    assert_eq!(messages(&context), vec!["successfully moved 1 items (700 B)"]);
    assert_eq!(names(context.curr_tab_ref().curr_list_ref().unwrap()), vec!["2", "3"]);
}

#[test]
fn a_failed_job_shows_its_description() {
    let mut context = session();
    assert!(context.submit(job(FileOp::Cut, &["/a/1", "/a/2"], 2), true).is_ok());
    let result = JobResult::Failure(
        "failed: /a/2: destination already exists".to_string(),
        snapshot(FileOp::Cut, 1, 2, 1, 2, "/a/2"),
    );
    process_finished_worker(&mut context, result, &read(&["1", "2"]), &read(&["2", "3"]));
    assert_eq!(messages(&context), vec!["failed: /a/2: destination already exists"]);
    assert_eq!(names(context.curr_tab_ref().curr_list_ref().unwrap()), vec!["2", "3"]);
    assert!(!context.worker_is_busy());
}

#[test]
fn a_directory_deleted_during_the_job_is_marked_invalid() {
    let mut context = session();
    assert!(context.submit(job(FileOp::Cut, &["/a/1"], 1), true).is_ok());
    let result = JobResult::Success(snapshot(FileOp::Cut, 1, 1, 1, 1, "/a/1"));
    process_finished_worker(&mut context, result, &DirRead::Unreadable, &read(&["2", "3"]));
    assert_eq!(
        messages(&context),
        vec!["cannot read directory /b", "successfully moved 1 items (1 B)"]
    );
    let gone = context.curr_tab_ref().history_ref().get("/b").unwrap();
    assert!(!gone.is_valid());
    assert_eq!(names(gone), vec!["old"]);
    assert!(context.curr_tab_ref().curr_list_ref().unwrap().is_valid());
}

#[test]
fn every_tab_is_reloaded_and_a_failure_is_told_once() {
    let mut context = session();
    context.push_tab(tab("/b", &[("/b", &["old"]), ("/c", &["z"])]));
    context.push_tab(tab("/c", &[("/c", &["z"])]));
    assert_eq!(context.tab_count(), 3);
    reload_everywhere(&mut context, "/b", &read(&["new", "old"]));
    assert_eq!(names(context.tab_ref(0).history_ref().get("/b").unwrap()), vec!["new", "old"]);
    assert_eq!(names(context.tab_ref(1).history_ref().get("/b").unwrap()), vec!["new", "old"]);
    assert!(context.tab_ref(2).history_ref().get("/b").is_none());
    assert_eq!(context.message_count(), 0);
    reload_everywhere(&mut context, "/b", &DirRead::Unreadable);
    assert_eq!(messages(&context), vec!["cannot read directory /b"]);
    assert!(!context.tab_ref(0).history_ref().get("/b").unwrap().is_valid());
    assert!(!context.tab_ref(1).history_ref().get("/b").unwrap().is_valid());
    reload_everywhere(&mut context, "/nowhere", &DirRead::Unreadable);
    assert_eq!(context.message_count(), 1);
}

#[test]
fn a_tab_is_refreshed_from_its_two_reads() {
    let mut context = session();
    let mut below = JoshutoTab::new("/a/sub".to_string(), Some("/a".to_string()));
    assert!(below.history_mut().get_or_load("/a", &read(&["sub"]), &by_name()).is_ok());
    assert!(below.history_mut().get_or_load("/a/sub", &read(&["f"]), &by_name()).is_ok());
    context.push_tab(below);
    assert!(reload(&mut context, 1, &read(&["f", "g"]), &read(&["sub", "top"])).is_ok());
    assert_eq!(names(context.tab_ref(1).curr_list_ref().unwrap()), vec!["f", "g"]);
    assert_eq!(names(context.tab_ref(1).parent_list_ref().unwrap()), vec!["sub", "top"]);
    assert_eq!(names(context.tab_ref(0).curr_list_ref().unwrap()), vec!["1", "2", "3"]);
    let err = reload(&mut context, 1, &DirRead::Unreadable, &read(&["sub"])).unwrap_err();
    assert_eq!(err.kind(), JoshutoErrorKind::IoNotFound);
    assert_eq!(err.cause(), "cannot read directory /a/sub");
    assert_eq!(names(context.tab_ref(1).parent_list_ref().unwrap()), vec!["sub", "top"]);
    let err = reload(&mut context, 1, &read(&["f"]), &DirRead::Unreadable).unwrap_err();
    assert_eq!(err.cause(), "cannot read directory /a");
    assert!(context.tab_ref(1).curr_list_ref().unwrap().is_valid());
    assert!(reload(&mut context, 9, &DirRead::Unreadable, &DirRead::Unreadable).is_ok());
}

#[test]
fn events_that_are_not_the_users_are_dispatched() {
    let mut context = session();
    assert!(context.submit(job(FileOp::Copy, &["/a/1"], 4), true).is_ok());
    process_noninteractive(JoshutoEvent::Signal(28), &mut context);
    process_noninteractive(JoshutoEvent::Termion(TermionEvent::Key(Key::Char('q'))), &mut context);
    assert!(context.worker_ref().unwrap().progress().is_none());
    assert_eq!(context.message_count(), 0);
    process_noninteractive(
        JoshutoEvent::IoWorkerProgress(snapshot(FileOp::Copy, 0, 1, 2, 4, "/a/1")),
        &mut context,
    );
    assert_eq!(context.worker_ref().unwrap().get_msg(), "Copying (0/1) 2 B/4 B completed");
    process_noninteractive(
        JoshutoEvent::IoWorkerResult {
            result: JobResult::Success(snapshot(FileOp::Copy, 1, 1, 4, 4, "/a/1")),
            dest_read: read(&["1", "old"]),
            src_read: read(&["1", "2", "3"]),
        },
        &mut context,
    );
    assert!(!context.worker_is_busy());
    assert_eq!(messages(&context), vec!["successfully copied 1 items (4 B)"]);
    assert_eq!(names(context.curr_tab_ref().history_ref().get("/b").unwrap()), vec!["1", "old"]);
}

#[test]
fn the_worker_view_closes_on_escape_only() {
    let view = TuiWorkerView::new();
    let mut context = session();
    assert!(context.submit(job(FileOp::Copy, &["/a/1"], 4), true).is_ok());
    assert_eq!(view.display(&mut context, JoshutoEvent::Termion(TermionEvent::Key(Key::Esc))), ViewStep::Close);
    assert_eq!(
        view.display(&mut context, JoshutoEvent::Termion(TermionEvent::Key(Key::Char('x')))),
        ViewStep::Flush
    );
    assert_eq!(
        view.display(
            &mut context,
            JoshutoEvent::Termion(TermionEvent::Mouse(MouseEvent::Press(MouseButton::Left, 1, 1)))
        ),
        ViewStep::Flush
    );
    assert_eq!(view.display(&mut context, JoshutoEvent::Signal(28)), ViewStep::Redraw);
    assert_eq!(
        view.display(&mut context, JoshutoEvent::IoWorkerProgress(snapshot(FileOp::Copy, 1, 1, 4, 4, "/a/1"))),
        ViewStep::Redraw
    );
    assert_eq!(context.worker_ref().unwrap().get_msg(), "Copying (1/1) 4 B/4 B completed");
}

#[test]
fn the_worker_view_is_laid_out_below_a_bar() {
    let view = TuiWorkerView::new();
    assert_eq!(view.layout(Rect { x: 0, y: 0, width: 80, height: 0 }), None);
    assert_eq!(
        view.layout(Rect { x: 2, y: 3, width: 80, height: 24 }),
        Some(WorkerViewLayout {
            top_bar: Rect { x: 2, y: 3, width: 80, height: 1 },
            body: Rect { x: 0, y: 1, width: 80, height: 23 },
        })
    );
    assert_eq!(
        view.layout(Rect { x: 0, y: 0, width: 10, height: 1 }),
        Some(WorkerViewLayout {
            top_bar: Rect { x: 0, y: 0, width: 10, height: 1 },
            body: Rect { x: 0, y: 1, width: 10, height: 0 },
        })
    );
}

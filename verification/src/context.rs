use crate::commands::search::{PatternView, SearchPattern};
use crate::error::{JoshutoError, JoshutoErrorKind, JoshutoResult};
use crate::fs::dirlist::{DirectoryListing, ListingView};
use crate::io::io_observer::{progress_text, IoWorkerObserver, ObserverView};
use crate::io::io_worker::{FileOperationJob, IoWorkerProgress, JobView};
use crate::io::worker::{IoWorker, WorkerState, WorkerView};
use crate::tab::{lemma_with_list_wf, JoshutoTab, TabView};
use crate::util::sort::SortOption;
use crate::util::text::texts;
use vstd::prelude::*;
use vstd::string::StringExecFns;

verus! {

/// The settings of a session.
#[derive(Clone, Copy, Debug, PartialEq, Eq)]
pub struct JoshutoConfig {
    /// The order in which listings are shown.
    pub sort_option: SortOption,
    /// The widths of the three columns (parent, current, preview) relative
    /// to each other.
    pub column_ratio: (u16, u16, u16),
}

impl JoshutoConfig {
    /// The settings are usable: some column has a width.
    pub open spec fn wf(self) -> bool {
        self.column_ratio.0 + self.column_ratio.1 + self.column_ratio.2 > 0
    }
}

/// The mathematical content of a [`JoshutoContext`].
#[verifier::ext_equal]
pub struct ContextView {
    pub tabs: Seq<TabView>,
    /// The position of the tab that is shown.
    pub index: nat,
    pub config: JoshutoConfig,
    pub search_state: Option<PatternView>,
    /// The messages for the user, oldest first.
    pub messages: Seq<Seq<char>>,
    /// The observer of the job that is running, if one is.
    pub worker: Option<ObserverView>,
}

impl ContextView {
    /// The invariant of a session: it has a current tab, every tab satisfies
    /// its own invariant, and the settings are usable.
    pub open spec fn wf(self) -> bool {
        &&& self.index < self.tabs.len()
        &&& forall|i: int| 0 <= i < self.tabs.len() ==> (#[trigger] self.tabs[i]).wf()
        &&& self.config.wf()
    }

    /// The tab that is shown.
    pub open spec fn curr_tab(self) -> TabView {
        self.tabs[self.index as int]
    }

    /// The listing that the current tab shows, if it is loaded.
    pub open spec fn curr_list(self) -> Option<ListingView> {
        self.curr_tab().curr_list()
    }

    /// The listing of the directory above the one shown, if it is loaded.
    pub open spec fn parent_list(self) -> Option<ListingView> {
        self.curr_tab().parent_list()
    }

    /// The session with its current tab replaced by `t`.
    pub open spec fn with_curr_tab(self, t: TabView) -> ContextView {
        ContextView { tabs: self.tabs.update(self.index as int, t), ..self }
    }

    /// The session with the listing that the current tab shows replaced by `l`.
    pub open spec fn with_curr_list(self, l: ListingView) -> ContextView {
        self.with_curr_tab(self.curr_tab().with_list(self.curr_tab().cwd, l))
    }

    /// The session with the listing of the directory above replaced by `l`.
    pub open spec fn with_parent_list(self, l: ListingView) -> ContextView {
        match self.curr_tab().parent {
            Some(p) => self.with_curr_tab(self.curr_tab().with_list(p, l)),
            None => self,
        }
    }

    /// The session with one more message for the user.
    pub open spec fn with_message(self, m: Seq<char>) -> ContextView {
        ContextView { messages: self.messages.push(m), ..self }
    }
}

/// Replacing the listing shown by a well-formed one of the same directory
/// keeps the invariant of the session.
pub proof fn lemma_with_curr_list_wf(c: ContextView, l: ListingView)
    requires
        c.wf(),
        l.wf(),
        c.curr_list() matches Some(prev) && prev.path == l.path,
    ensures
        c.with_curr_list(l).wf(),
{
    lemma_with_list_wf(c.curr_tab(), c.curr_tab().cwd, l);
}

/// Replacing the listing shown by itself changes nothing.
pub proof fn lemma_with_curr_list_same(c: ContextView)
    requires
        c.wf(),
        c.curr_list() is Some,
    ensures
        c.with_curr_list(c.curr_list()->0) == c,
{
    crate::tab::lemma_with_list_same(c.curr_tab(), c.curr_tab().cwd);
    assert(c.with_curr_list(c.curr_list()->0) =~= c);
}

/// Replacing the listing of the directory above by a well-formed one of the
/// same directory keeps the invariant of the session.
pub proof fn lemma_with_parent_list_wf(c: ContextView, l: ListingView)
    requires
        c.wf(),
        l.wf(),
        c.parent_list() matches Some(prev) && prev.path == l.path,
    ensures
        c.with_parent_list(l).wf(),
{
    lemma_with_list_wf(c.curr_tab(), c.curr_tab().parent->0, l);
}

/// The observer of a job that has just been started.
pub open spec fn new_observer(job: JobView) -> ObserverView {
    ObserverView { src: job.src, dest: job.dest, progress: None, msg: Seq::empty() }
}

/// A worker for `job` that has not started.
pub open spec fn new_worker(job: JobView) -> WorkerView {
    WorkerView {
        job,
        state: WorkerState::Idle,
        in_flight: false,
        next: 0,
        completed: 0,
        bytes: 0,
        failures: Seq::empty(),
    }
}

/// The message of the error that a submission gets while a job runs.
pub open spec fn busy_message() -> Seq<char> {
    "a file operation is already running"@
}

/// The message of the error that a submission gets whose destination is
/// missing or is no directory.
pub open spec fn not_a_directory_message(dest: Seq<char>) -> Seq<char> {
    "not a directory: "@ + dest
}

/// The state of the interactive session: its tabs, the messages for the
/// user, and the observer of the one job that may run at a time.
#[derive(Debug, PartialEq, Eq)]
pub struct JoshutoContext {
    tabs: Vec<JoshutoTab>,
    index: usize,
    config: JoshutoConfig,
    search_state: Option<SearchPattern>,
    message_queue: Vec<String>,
    worker: Option<IoWorkerObserver>,
}

impl View for JoshutoContext {
    type V = ContextView;

    closed spec fn view(&self) -> ContextView {
        ContextView {
            tabs: self.tabs@.map_values(|t: JoshutoTab| t@),
            index: self.index as nat,
            config: self.config,
            search_state: match self.search_state {
                Some(p) => Some(p@),
                None => None,
            },
            messages: texts(self.message_queue@),
            worker: match self.worker {
                Some(o) => Some(o@),
                None => None,
            },
        }
    }
}

impl JoshutoContext {
    /// A session with one tab, no message and no job.
    pub fn new(config: JoshutoConfig, tab: JoshutoTab) -> (c: JoshutoContext)
        requires
            config.wf(),
            tab@.wf(),
        ensures
            c@ == (ContextView {
                tabs: seq![tab@],
                index: 0,
                config,
                search_state: None,
                messages: Seq::empty(),
                worker: None,
            }),
            c@.wf(),
    {
        let mut tabs: Vec<JoshutoTab> = Vec::new();
        tabs.push(tab);
        let c = JoshutoContext {
            tabs,
            index: 0,
            config,
            search_state: None,
            message_queue: Vec::new(),
            worker: None,
        };
        assert(c@.tabs =~= seq![tab@]);
        assert(c@.messages =~= Seq::empty());
        c
    }

    /// The settings of the session.
    pub fn config_ref(&self) -> (c: &JoshutoConfig)
        ensures
            *c == self@.config,
    {
        &self.config
    }

    /// The number of tabs.
    pub fn tab_count(&self) -> (n: usize)
        ensures
            n == self@.tabs.len(),
    {
        self.tabs.len()
    }

    /// The position of the tab that is shown.
    pub fn tab_index(&self) -> (i: usize)
        ensures
            i == self@.index,
    {
        self.index
    }

    /// Opens one more tab, behind the others.
    pub fn push_tab(&mut self, tab: JoshutoTab)
        requires
            old(self)@.wf(),
            tab@.wf(),
        ensures
            final(self)@ == (ContextView { tabs: old(self)@.tabs.push(tab@), ..old(self)@ }),
            final(self)@.wf(),
    {
        self.tabs.push(tab);
        assert(self@.tabs =~= old(self)@.tabs.push(tab@));
    }

    /// The tab at position `i`.
    pub fn tab_ref(&self, i: usize) -> (t: &JoshutoTab)
        requires
            i < self@.tabs.len(),
        ensures
            t@ == self@.tabs[i as int],
    {
        &self.tabs[i]
    }

    /// The tab at position `i`, to be changed in place.
    pub fn tab_mut(&mut self, i: usize) -> (t: &mut JoshutoTab)
        requires
            i < old(self)@.tabs.len(),
        ensures
            t@ == old(self)@.tabs[i as int],
            final(self)@ =~= (ContextView {
                tabs: old(self)@.tabs.update(i as int, final(t)@),
                ..old(self)@
            }),
    {
        &mut self.tabs[i]
    }

    /// The tab that is shown.
    pub fn curr_tab_ref(&self) -> (t: &JoshutoTab)
        requires
            self@.wf(),
        ensures
            t@ == self@.curr_tab(),
    {
        &self.tabs[self.index]
    }

    /// The tab that is shown, to be changed in place.
    pub fn curr_tab_mut(&mut self) -> (t: &mut JoshutoTab)
        requires
            old(self)@.wf(),
        ensures
            t@ == old(self)@.curr_tab(),
            final(self)@ =~= old(self)@.with_curr_tab(final(t)@),
    {
        &mut self.tabs[self.index]
    }

    /// The listing that the current tab shows.
    pub fn curr_list_ref(&self) -> (l: Option<&DirectoryListing>)
        requires
            self@.wf(),
        ensures
            l is Some <==> self@.curr_list() is Some,
            l matches Some(x) ==> Some(x@) == self@.curr_list(),
    {
        self.tabs[self.index].curr_list_ref()
    }

    /// The listing that the current tab shows, to be changed in place.
    pub fn curr_list_mut(&mut self) -> (l: Option<&mut DirectoryListing>)
        requires
            old(self)@.wf(),
        ensures
            l is Some <==> old(self)@.curr_list() is Some,
            l is None ==> final(self)@ =~= old(self)@,
            l matches Some(x) ==> Some(x@) == old(self)@.curr_list() && final(self)@ =~= old(
                self,
            )@.with_curr_list(final(x)@),
    {
        self.tabs[self.index].curr_list_mut()
    }

    /// The listing of the directory above the one shown.
    pub fn parent_list_ref(&self) -> (l: Option<&DirectoryListing>)
        requires
            self@.wf(),
        ensures
            l is Some <==> self@.parent_list() is Some,
            l matches Some(x) ==> Some(x@) == self@.parent_list(),
    {
        self.tabs[self.index].parent_list_ref()
    }

    /// The listing of the directory above the one shown, to be changed in
    /// place.
    pub fn parent_list_mut(&mut self) -> (l: Option<&mut DirectoryListing>)
        requires
            old(self)@.wf(),
        ensures
            l is Some <==> old(self)@.parent_list() is Some,
            l is None ==> final(self)@ =~= old(self)@,
            l matches Some(x) ==> Some(x@) == old(self)@.parent_list() && final(self)@ =~= old(
                self,
            )@.with_parent_list(final(x)@),
    {
        self.tabs[self.index].parent_list_mut()
    }

    /// What the user last searched for.
    pub fn get_search_state(&self) -> (p: Option<&SearchPattern>)
        ensures
            p is Some <==> self@.search_state is Some,
            p matches Some(x) ==> Some(x@) == self@.search_state,
    {
        match &self.search_state {
            Some(p) => Some(p),
            None => None,
        }
    }

    /// Takes note of what the user searched for.
    pub fn set_search_state(&mut self, pattern: SearchPattern)
        ensures
            final(self)@ == (ContextView { search_state: Some(pattern@), ..old(self)@ }),
    {
        self.search_state = Some(pattern);
    }

    /// Puts a message for the user behind those that wait.
    pub fn push_msg(&mut self, msg: String)
        ensures
            final(self)@ == old(self)@.with_message(msg@),
    {
        self.message_queue.push(msg);
        assert(self@.messages =~= old(self)@.messages.push(msg@));
    }

    /// The number of messages that wait.
    pub fn message_count(&self) -> (n: usize)
        ensures
            n == self@.messages.len(),
    {
        self.message_queue.len()
    }

    /// The `i`-th of the messages that wait, the oldest being the first.
    pub fn message(&self, i: usize) -> (m: &str)
        requires
            i < self@.messages.len(),
        ensures
            m@ == self@.messages[i as int],
    {
        self.message_queue[i].as_str()
    }

    /// The observer of the job that is running.
    pub fn worker_ref(&self) -> (o: Option<&IoWorkerObserver>)
        ensures
            o is Some <==> self@.worker is Some,
            o matches Some(x) ==> Some(x@) == self@.worker,
    {
        match &self.worker {
            Some(o) => Some(o),
            None => None,
        }
    }

    /// Whether a job is running.
    pub fn worker_is_busy(&self) -> (r: bool)
        ensures
            r == self@.worker is Some,
    {
        self.worker.is_some()
    }

    /// Hands the snapshot to the observer of the job that is running. With
    /// no job running the snapshot is dropped.
    pub fn set_worker_progress(&mut self, progress: IoWorkerProgress)
        ensures
            final(self)@ == (ContextView {
                worker: match old(self)@.worker {
                    Some(o) => Some(ObserverView { progress: Some(progress@), ..o }),
                    None => None,
                },
                ..old(self)@
            }),
    {
        match &mut self.worker {
            Some(o) => {
                o.set_progress(progress);
            },
            None => {},
        }
    }

    /// Brings the line shown for the running job up to its last snapshot.
    pub fn update_worker_msg(&mut self)
        ensures
            final(self)@ == (ContextView {
                worker: match old(self)@.worker {
                    Some(o) => Some(
                        ObserverView {
                            msg: match o.progress {
                                Some(p) => progress_text(p),
                                None => o.msg,
                            },
                            ..o
                        },
                    ),
                    None => None,
                },
                ..old(self)@
            }),
    {
        match &mut self.worker {
            Some(o) => {
                o.update_msg();
            },
            None => {},
        }
    }

    /// Takes the observer of the job out of the session, which is then free
    /// for the next job.
    pub fn remove_job(&mut self) -> (o: Option<IoWorkerObserver>)
        ensures
            final(self)@ == (ContextView { worker: None, ..old(self)@ }),
            o is Some <==> old(self)@.worker is Some,
            o matches Some(x) ==> Some(x@) == old(self)@.worker,
    {
        self.worker.take()
    }

    /// Submits a job. While another job runs, or when the destination is
    /// missing or no directory (`dest_is_dir` says what the caller found),
    /// the job is refused and nothing changes. Otherwise the session notes
    /// the job's two directories and hands out the worker for the
    /// background thread, which the caller then starts.
    pub fn submit(&mut self, job: FileOperationJob, dest_is_dir: bool) -> (r: JoshutoResult<
        IoWorker,
    >)
        requires
            job.wf(),
        ensures
            r is Ok <==> old(self)@.worker is None && dest_is_dir,
            r is Err ==> final(self)@ == old(self)@,
            r matches Err(e) ==> e@.kind == (if old(self)@.worker is Some {
                JoshutoErrorKind::WorkerBusy
            } else {
                JoshutoErrorKind::NotADirectory
            }) && e@.cause == (if old(self)@.worker is Some {
                busy_message()
            } else {
                not_a_directory_message(job@.dest)
            }),
            r matches Ok(w) ==> w@ == new_worker(job@) && w@.wf() && final(self)@ == (ContextView {
                worker: Some(new_observer(job@)),
                ..old(self)@
            }),
    {
        if self.worker.is_some() {
            Err(
                JoshutoError::new(
                    JoshutoErrorKind::WorkerBusy,
                    String::from_str("a file operation is already running"),
                ),
            )
        } else if !dest_is_dir {
            Err(
                JoshutoError::new(
                    JoshutoErrorKind::NotADirectory,
                    String::from_str("not a directory: ").concat(job.dest_path()),
                ),
            )
        } else {
            self.worker = Some(
                IoWorkerObserver::new(job.src_path().to_owned(), job.dest_path().to_owned()),
            );
            Ok(IoWorker::new(job))
        }
    }
}

} // verus!

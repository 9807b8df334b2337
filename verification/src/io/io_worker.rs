use crate::error::{JoshutoError, JoshutoErrorKind, JoshutoResult};
use crate::util::text::texts;
use vstd::prelude::*;
use vstd::string::StringExecFns;

verus! {

/// The kind of a file operation.
#[derive(Clone, Copy, Debug, PartialEq, Eq, Structural)]
pub enum FileOp {
    /// Move the sources into the destination.
    Cut,
    /// Copy the sources into the destination.
    Copy,
}

/// A snapshot of how far a job has come.
#[derive(Clone, Debug, PartialEq, Eq)]
pub struct IoWorkerProgress {
    kind: FileOp,
    completed: usize,
    len: usize,
    bytes_processed: u64,
    total_bytes: u64,
    current: String,
}

/// The mathematical content of an [`IoWorkerProgress`].
pub struct ProgressView {
    pub kind: FileOp,
    /// How many source paths have been carried out with success.
    pub completed: nat,
    /// How many source paths the job has.
    pub len: nat,
    pub bytes_processed: nat,
    pub total_bytes: nat,
    /// The path that was processed last; empty before the first.
    pub current: Seq<char>,
}

impl View for IoWorkerProgress {
    type V = ProgressView;

    closed spec fn view(&self) -> ProgressView {
        ProgressView {
            kind: self.kind,
            completed: self.completed as nat,
            len: self.len as nat,
            bytes_processed: self.bytes_processed as nat,
            total_bytes: self.total_bytes as nat,
            current: self.current@,
        }
    }
}

impl IoWorkerProgress {
    /// A snapshot made of its parts.
    pub fn new(
        kind: FileOp,
        completed: usize,
        len: usize,
        bytes_processed: u64,
        total_bytes: u64,
        current: String,
    ) -> (p: IoWorkerProgress)
        ensures
            p@ == (ProgressView {
                kind,
                completed: completed as nat,
                len: len as nat,
                bytes_processed: bytes_processed as nat,
                total_bytes: total_bytes as nat,
                current: current@,
            }),
    {
        IoWorkerProgress { kind, completed, len, bytes_processed, total_bytes, current }
    }

    /// Whether the job copies or moves.
    pub fn kind(&self) -> (k: FileOp)
        ensures
            k == self@.kind,
    {
        self.kind
    }

    /// How many source paths have been carried out with success.
    pub fn completed(&self) -> (n: usize)
        ensures
            n == self@.completed,
    {
        self.completed
    }

    /// How many source paths the job has.
    pub fn len(&self) -> (n: usize)
        ensures
            n == self@.len,
    {
        self.len
    }

    /// How many bytes have been written so far.
    pub fn bytes_processed(&self) -> (n: u64)
        ensures
            n == self@.bytes_processed,
    {
        self.bytes_processed
    }

    /// The size of all sources together, as counted before the job started.
    pub fn total_bytes(&self) -> (n: u64)
        ensures
            n == self@.total_bytes,
    {
        self.total_bytes
    }

    /// The path that was processed last; empty before the first.
    pub fn current(&self) -> (p: &str)
        ensures
            p@ == self@.current,
    {
        self.current.as_str()
    }

    /// A copy of this snapshot.
    pub fn duplicate(&self) -> (p: IoWorkerProgress)
        ensures
            p@ == self@,
    {
        IoWorkerProgress {
            kind: self.kind,
            completed: self.completed,
            len: self.len,
            bytes_processed: self.bytes_processed,
            total_bytes: self.total_bytes,
            current: self.current.clone(),
        }
    }
}

/// How a job ended. Each job gives exactly one.
#[derive(Clone, Debug, PartialEq, Eq)]
pub enum JobResult {
    /// Every source path was carried out.
    Success(IoWorkerProgress),
    /// Some path failed or the job was cancelled: the description and how
    /// far the job had come.
    Failure(String, IoWorkerProgress),
}

/// The mathematical content of a [`JobResult`].
pub enum JobResultView {
    Success(ProgressView),
    Failure(Seq<char>, ProgressView),
}

impl View for JobResult {
    type V = JobResultView;

    open spec fn view(&self) -> JobResultView {
        match self {
            JobResult::Success(p) => JobResultView::Success(p@),
            JobResult::Failure(d, p) => JobResultView::Failure(d@, p@),
        }
    }
}

/// No path occurs twice.
pub open spec fn distinct(paths: Seq<Seq<char>>) -> bool {
    forall|i: int, j: int| 0 <= i < j < paths.len() ==> paths[i] != paths[j]
}

/// One copy or move of a list of source paths into a destination directory.
#[derive(Clone, Debug, PartialEq, Eq)]
pub struct FileOperationJob {
    kind: FileOp,
    paths: Vec<String>,
    src: String,
    dest: String,
    total_bytes: u64,
}

/// The mathematical content of a [`FileOperationJob`].
pub struct JobView {
    pub kind: FileOp,
    /// The source paths, in the order in which they are carried out.
    pub paths: Seq<Seq<char>>,
    /// The directory that the sources lie in.
    pub src: Seq<char>,
    /// The directory that the sources go to.
    pub dest: Seq<char>,
    /// The size of all sources together, as counted before the job starts.
    pub total_bytes: nat,
}

impl View for FileOperationJob {
    type V = JobView;

    closed spec fn view(&self) -> JobView {
        JobView {
            kind: self.kind,
            paths: texts(self.paths@),
            src: self.src@,
            dest: self.dest@,
            total_bytes: self.total_bytes as nat,
        }
    }
}

fn all_distinct(paths: &Vec<String>) -> (r: bool)
    ensures
        r == distinct(texts(paths@)),
{
    let ghost all = texts(paths@);
    let mut j: usize = 0;
    while j < paths.len()
        invariant
            j <= paths.len(),
            all == texts(paths@),
            forall|a: int, b: int| 0 <= a < b < j ==> all[a] != all[b],
        decreases paths.len() - j,
    {
        let mut i: usize = 0;
        while i < j
            invariant
                i <= j < paths.len(),
                all == texts(paths@),
                forall|a: int| 0 <= a < i ==> all[a] != all[j as int],
            decreases j - i,
        {
            if paths[i] == paths[j] {
                assert(all[i as int] == all[j as int]);
                return false;
            }
            i = i + 1;
        }
        j = j + 1;
    }
    true
}

impl FileOperationJob {
    /// The message of the error that a list with a repeated path gives.
    pub open spec fn repeated_path_message() -> Seq<char> {
        "source paths must be distinct"@
    }

    /// A job, if its source paths are distinct.
    pub fn new(kind: FileOp, paths: Vec<String>, src: String, dest: String, total_bytes: u64) -> (r:
        JoshutoResult<FileOperationJob>)
        ensures
            r is Ok <==> distinct(texts(paths@)),
            r matches Ok(job) ==> job@ == (JobView {
                kind,
                paths: texts(paths@),
                src: src@,
                dest: dest@,
                total_bytes: total_bytes as nat,
            }) && job.wf(),
            r matches Err(e) ==> e@.kind == JoshutoErrorKind::IoInvalidInput && e@.cause
                == Self::repeated_path_message(),
    {
        if all_distinct(&paths) {
            Ok(FileOperationJob { kind, paths, src, dest, total_bytes })
        } else {
            Err(
                JoshutoError::new(
                    JoshutoErrorKind::IoInvalidInput,
                    String::from_str("source paths must be distinct"),
                ),
            )
        }
    }

    /// The invariant of a job: its source paths are distinct.
    pub open spec fn wf(&self) -> bool {
        distinct(self@.paths)
    }

    /// Whether the job copies or moves.
    pub fn kind(&self) -> (k: FileOp)
        ensures
            k == self@.kind,
    {
        self.kind
    }

    /// The number of source paths.
    pub fn len(&self) -> (n: usize)
        ensures
            n == self@.paths.len(),
    {
        self.paths.len()
    }

    /// The `i`-th source path.
    pub fn path(&self, i: usize) -> (p: &str)
        requires
            i < self@.paths.len(),
        ensures
            p@ == self@.paths[i as int],
    {
        self.paths[i].as_str()
    }

    /// The directory that the sources lie in.
    pub fn src_path(&self) -> (p: &str)
        ensures
            p@ == self@.src,
    {
        self.src.as_str()
    }

    /// The directory that the sources go to.
    pub fn dest_path(&self) -> (p: &str)
        ensures
            p@ == self@.dest,
    {
        self.dest.as_str()
    }

    /// The size of all sources together, as counted before the job starts.
    pub fn total_bytes(&self) -> (n: u64)
        ensures
            n == self@.total_bytes,
    {
        self.total_bytes
    }
}

} // verus!

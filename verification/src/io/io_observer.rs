use crate::io::io_worker::{FileOp, IoWorkerProgress, ProgressView};
use crate::util::format::{decimal, file_size_text, file_size_to_string, push_decimal};
use vstd::prelude::*;
use vstd::string::StringExecFns;

verus! {

/// The mathematical content of an [`IoWorkerObserver`].
pub struct ObserverView {
    /// The directory that the job's sources lie in.
    pub src: Seq<char>,
    /// The directory that the job's sources go to.
    pub dest: Seq<char>,
    /// The snapshot that arrived last, if any has.
    pub progress: Option<ProgressView>,
    /// The line that the session shows for the job.
    pub msg: Seq<char>,
}

/// The line shown for a job that has come as far as `p`.
pub open spec fn progress_text(p: ProgressView) -> Seq<char> {
    (match p.kind {
        FileOp::Cut => "Moving"@,
        FileOp::Copy => "Copying"@,
    }) + " ("@ + decimal(p.completed) + "/"@ + decimal(p.len) + ") "@ + file_size_text(
        p.bytes_processed,
    ) + "/"@ + file_size_text(p.total_bytes) + " completed"@
}

/// What the session knows of the job that is running: the two directories
/// it touches, and the snapshot that arrived last.
#[derive(Debug, PartialEq, Eq)]
pub struct IoWorkerObserver {
    src: String,
    dest: String,
    progress: Option<IoWorkerProgress>,
    msg: String,
}

impl View for IoWorkerObserver {
    type V = ObserverView;

    closed spec fn view(&self) -> ObserverView {
        ObserverView {
            src: self.src@,
            dest: self.dest@,
            progress: match self.progress {
                Some(p) => Some(p@),
                None => None,
            },
            msg: self.msg@,
        }
    }
}

impl IoWorkerObserver {
    /// The observer of a job that has just been started.
    pub fn new(src: String, dest: String) -> (o: IoWorkerObserver)
        ensures
            o@ == (ObserverView { src: src@, dest: dest@, progress: None, msg: Seq::empty() }),
    {
        IoWorkerObserver { src, dest, progress: None, msg: String::new() }
    }

    /// The directory that the job's sources lie in.
    pub fn src_path(&self) -> (p: &str)
        ensures
            p@ == self@.src,
    {
        self.src.as_str()
    }

    /// The directory that the job's sources go to.
    pub fn dest_path(&self) -> (p: &str)
        ensures
            p@ == self@.dest,
    {
        self.dest.as_str()
    }

    /// The snapshot that arrived last.
    pub fn progress(&self) -> (p: Option<&IoWorkerProgress>)
        ensures
            p is Some <==> self@.progress is Some,
            p matches Some(x) ==> Some(x@) == self@.progress,
    {
        match &self.progress {
            Some(p) => Some(p),
            None => None,
        }
    }

    /// The line that the session shows for the job.
    pub fn get_msg(&self) -> (m: &str)
        ensures
            m@ == self@.msg,
    {
        self.msg.as_str()
    }

    /// Takes note of a snapshot.
    pub fn set_progress(&mut self, progress: IoWorkerProgress)
        ensures
            final(self)@ == (ObserverView { progress: Some(progress@), ..old(self)@ }),
    {
        self.progress = Some(progress);
    }

    /// Brings the line shown for the job up to the last snapshot. Without a
    /// snapshot the line stays as it is.
    pub fn update_msg(&mut self)
        ensures
            final(self)@ == (ObserverView {
                msg: match old(self)@.progress {
                    Some(p) => progress_text(p),
                    None => old(self)@.msg,
                },
                ..old(self)@
            }),
    {
        match &self.progress {
            None => {},
            Some(progress) => {
                let mut msg = match progress.kind() {
                    FileOp::Cut => String::from_str("Moving"),
                    FileOp::Copy => String::from_str("Copying"),
                };
                msg.append(" (");
                push_decimal(&mut msg, progress.completed() as u64);
                msg.append("/");
                push_decimal(&mut msg, progress.len() as u64);
                msg.append(") ");
                msg.append(file_size_to_string(progress.bytes_processed()).as_str());
                msg.append("/");
                msg.append(file_size_to_string(progress.total_bytes()).as_str());
                msg.append(" completed");
                self.msg = msg;
            },
        }
    }
}

} // verus!

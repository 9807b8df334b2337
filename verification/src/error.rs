use vstd::prelude::*;

verus! {

/// What went wrong, in broad classes.
#[derive(Clone, Copy, Debug, PartialEq, Eq, Structural)]
pub enum JoshutoErrorKind {
    /// A directory could not be read.
    IoNotFound,
    /// Input that cannot be interpreted, such as a malformed glob.
    IoInvalidData,
    /// Input that is well formed but does not fit the request.
    IoInvalidInput,
    /// Any other failure reported by the operating system.
    IoOther,
    /// A required environment variable is not set.
    EnvVarNotPresent,
    /// A job was submitted while the worker was still running one.
    WorkerBusy,
    /// The destination of a job is missing or is not a directory.
    NotADirectory,
}

/// An error with its class and a message for the user.
#[derive(Clone, Debug, PartialEq, Eq)]
pub struct JoshutoError {
    kind: JoshutoErrorKind,
    cause: String,
}

/// The result of an operation that can fail with a [`JoshutoError`].
pub type JoshutoResult<T> = Result<T, JoshutoError>;

/// The mathematical content of a [`JoshutoError`].
pub struct ErrorView {
    pub kind: JoshutoErrorKind,
    pub cause: Seq<char>,
}

impl View for JoshutoError {
    type V = ErrorView;

    closed spec fn view(&self) -> ErrorView {
        ErrorView { kind: self.kind, cause: self.cause@ }
    }
}

impl JoshutoError {
    /// An error of the class `kind` with the message `cause`.
    pub fn new(kind: JoshutoErrorKind, cause: String) -> (e: JoshutoError)
        ensures
            e@ == (ErrorView { kind, cause: cause@ }),
    {
        JoshutoError { kind, cause }
    }

    /// The class of the error.
    pub fn kind(&self) -> (k: JoshutoErrorKind)
        ensures
            k == self@.kind,
    {
        self.kind
    }

    /// The message for the user.
    pub fn cause(&self) -> (c: &str)
        ensures
            c@ == self@.cause,
    {
        self.cause.as_str()
    }

    /// The text shown to the user: the cause, unadorned.
    pub fn to_string(&self) -> (s: String)
        ensures
            s@ == self@.cause,
    {
        self.cause.clone()
    }
}

} // verus!

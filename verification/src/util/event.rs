use crate::fs::dirlist::DirRead;
use crate::io::io_worker::{IoWorkerProgress, JobResult};
use vstd::prelude::*;

verus! {

/// A button of the mouse.
#[derive(Clone, Copy, Debug, PartialEq, Eq, Structural)]
pub enum MouseButton {
    Left,
    Right,
    Middle,
    WheelUp,
    WheelDown,
}

/// What the mouse did, with the column and the row where it did it.
#[derive(Clone, Copy, Debug, PartialEq, Eq, Structural)]
pub enum MouseEvent {
    Press(MouseButton, u16, u16),
    Release(u16, u16),
    Hold(u16, u16),
}

/// A key, as far as the handlers of this crate tell keys apart.
#[derive(Clone, Copy, Debug, PartialEq, Eq, Structural)]
pub enum Key {
    Esc,
    Char(char),
    Other,
}

/// An event of the terminal.
#[derive(Clone, Copy, Debug, PartialEq, Eq, Structural)]
pub enum TermionEvent {
    Key(Key),
    Mouse(MouseEvent),
    Unsupported,
}

/// Everything that can wake the session.
#[derive(Debug, PartialEq, Eq)]
pub enum JoshutoEvent {
    /// The user did something.
    Termion(TermionEvent),
    /// The worker sent a snapshot.
    IoWorkerProgress(IoWorkerProgress),
    /// The worker sent its result and its thread has been joined. With it
    /// come fresh reads of the job's destination and source directories.
    IoWorkerResult { result: JobResult, dest_read: DirRead, src_read: DirRead },
    /// The operating system sent a signal, such as a change of the
    /// terminal's size.
    Signal(i32),
}

} // verus!

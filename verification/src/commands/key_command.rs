use crate::commands::cursor_move::{down, moved_down, moved_up, up};
use crate::commands::parent_cursor_move::{
    parent_down, parent_moved_down, parent_moved_up, parent_up,
};
use crate::context::{ContextView, JoshutoContext};
use vstd::prelude::*;

verus! {

/// The commands that move a cursor by a number of entries.
#[derive(Clone, Copy, Debug, PartialEq, Eq, Structural)]
pub enum KeyCommand {
    CursorMoveUp(usize),
    CursorMoveDown(usize),
    ParentCursorMoveUp(usize),
    ParentCursorMoveDown(usize),
}

impl KeyCommand {
    /// The session after the command.
    pub open spec fn executed(self, c: ContextView) -> ContextView {
        match self {
            KeyCommand::CursorMoveUp(u) => moved_up(c, u as int),
            KeyCommand::CursorMoveDown(u) => moved_down(c, u as int),
            KeyCommand::ParentCursorMoveUp(u) => parent_moved_up(c, u as int),
            KeyCommand::ParentCursorMoveDown(u) => parent_moved_down(c, u as int),
        }
    }

    /// Carries the command out on the session.
    pub fn execute(&self, context: &mut JoshutoContext)
        requires
            old(context)@.wf(),
        ensures
            final(context)@ == self.executed(old(context)@),
            final(context)@.wf(),
    {
        match self {
            KeyCommand::CursorMoveUp(u) => up(context, *u),
            KeyCommand::CursorMoveDown(u) => down(context, *u),
            KeyCommand::ParentCursorMoveUp(u) => parent_up(context, *u),
            KeyCommand::ParentCursorMoveDown(u) => parent_down(context, *u),
        }
    }
}

} // verus!

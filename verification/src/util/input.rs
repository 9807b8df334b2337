use crate::commands::cursor_move::{cursor_move, cursor_moved};
use crate::commands::key_command::KeyCommand;
use crate::commands::parent_cursor_move::{parent_cursor_move, parent_cursor_moved};
use crate::commands::reload::{lemma_reloaded_wf, reload_everywhere, reloaded};
use crate::context::{ContextView, JoshutoContext};
use crate::fs::dirlist::{DirRead, DirReadView};
use crate::io::io_observer::{progress_text, ObserverView};
use crate::io::io_worker::{FileOp, IoWorkerProgress, JobResult, JobResultView, ProgressView};
use crate::ui::layout::{split_horizontal, Rect};
use crate::util::event::{JoshutoEvent, MouseButton, MouseEvent};
use crate::util::format::{decimal, file_size_text, file_size_to_string, push_decimal};
use vstd::prelude::*;
use vstd::string::StringExecFns;

verus! {

/// What a mouse event asks for.
#[derive(Clone, Copy, Debug, PartialEq, Eq, Structural)]
pub enum MouseAction {
    /// Carry out a command.
    Execute(KeyCommand),
    /// Put the cursor of the listing shown on the entry at this position.
    CursorMove(usize),
    /// Put the cursor of the listing above on the entry at this position.
    ParentCursorMove(usize),
    Nothing,
}

/// Whether the row `y` lies among the rows of `column`, below its first.
pub open spec fn in_rows(column: Rect, y: u16) -> bool {
    y > column.y && y <= column.y + column.height
}

/// The position of the entry shown in row `y` of `column` while the cursor
/// is at `curr_index`: the listing is shown in pages of the column's height,
/// and the page is the one that holds the cursor. Held at the largest
/// position that the machine can express.
pub open spec fn clicked_index(curr_index: int, column: Rect, y: u16) -> usize {
    let index = (curr_index / (column.height as int)) * column.height + (y - column.y - 1);
    if index > usize::MAX {
        usize::MAX
    } else {
        index as usize
    }
}

/// What a mouse event asks for, with the three columns laid out as
/// `layout` and the cursor of the listing shown at `curr_index`. The wheel
/// moves a cursor by one entry: that of the listing above when turned left
/// of the middle column, else that of the listing shown. A click with the
/// left button on a row of the middle column's height puts a cursor on the
/// entry shown there: that of the listing above when left of the middle
/// column, that of the listing shown when in it. Everything else asks for
/// nothing.
pub open spec fn mouse_action(event: MouseEvent, layout: Seq<Rect>, curr_index: Option<int>) -> MouseAction {
    match event {
        MouseEvent::Press(MouseButton::WheelUp, x, _) => if x < layout[1].x {
            MouseAction::Execute(KeyCommand::ParentCursorMoveUp(1))
        } else {
            MouseAction::Execute(KeyCommand::CursorMoveUp(1))
        },
        MouseEvent::Press(MouseButton::WheelDown, x, _) => if x < layout[1].x {
            MouseAction::Execute(KeyCommand::ParentCursorMoveDown(1))
        } else {
            MouseAction::Execute(KeyCommand::CursorMoveDown(1))
        },
        MouseEvent::Press(MouseButton::Left, x, y) => if in_rows(layout[1], y) && x
            < layout[2].x {
            match curr_index {
                Some(i) => if x < layout[1].x {
                    MouseAction::ParentCursorMove(clicked_index(i, layout[1], y))
                } else {
                    MouseAction::CursorMove(clicked_index(i, layout[1], y))
                },
                None => MouseAction::Nothing,
            }
        } else {
            MouseAction::Nothing
        },
        _ => MouseAction::Nothing,
    }
}

/// The session after what a mouse event asked for was done.
pub open spec fn action_applied(c: ContextView, action: MouseAction) -> ContextView {
    match action {
        MouseAction::Execute(command) => command.executed(c),
        MouseAction::CursorMove(i) => cursor_moved(c, i as int),
        MouseAction::ParentCursorMove(i) => parent_cursor_moved(c, i as int),
        MouseAction::Nothing => c,
    }
}

/// The session after a mouse event, with the three columns laid out as
/// `layout`.
pub open spec fn mouse_processed(c: ContextView, event: MouseEvent, layout: Seq<Rect>) -> ContextView {
    action_applied(
        c,
        mouse_action(
            event,
            layout,
            match c.curr_list() {
                Some(l) => l.index,
                None => None,
            },
        ),
    )
}

fn clicked(curr_index: usize, column: &Rect, y: u16) -> (index: usize)
    requires
        in_rows(*column, y),
    ensures
        index == clicked_index(curr_index as int, *column, y),
{
    let height: usize = column.height as usize;
    let page: usize = curr_index / height;
    assert(page * height <= curr_index) by (nonlinear_arith)
        requires
            page == curr_index / height,
            height > 0,
    ;
    let skip_dist: usize = page * height;
    let row: usize = (y - column.y - 1) as usize;
    skip_dist.saturating_add(row)
}

/// What a mouse event asks for.
pub fn mouse_action_for(event: MouseEvent, layout: &[Rect; 3], curr_index: Option<usize>) -> (action:
    MouseAction)
    ensures
        action == mouse_action(
            event,
            layout@,
            match curr_index {
                Some(i) => Some(i as int),
                None => None,
            },
        ),
{
    match event {
        MouseEvent::Press(MouseButton::WheelUp, x, _) => {
            if x < layout[1].x {
                MouseAction::Execute(KeyCommand::ParentCursorMoveUp(1))
            } else {
                MouseAction::Execute(KeyCommand::CursorMoveUp(1))
            }
        },
        MouseEvent::Press(MouseButton::WheelDown, x, _) => {
            if x < layout[1].x {
                MouseAction::Execute(KeyCommand::ParentCursorMoveDown(1))
            } else {
                MouseAction::Execute(KeyCommand::CursorMoveDown(1))
            }
        },
        MouseEvent::Press(MouseButton::Left, x, y) => {
            let column = layout[1];
            let below_first = y > column.y;
            let within = (y as u32) <= (column.y as u32) + (column.height as u32);
            if below_first && within && x < layout[2].x {
                match curr_index {
                    Some(i) => {
                        if x < column.x {
                            MouseAction::ParentCursorMove(clicked(i, &column, y))
                        } else {
                            MouseAction::CursorMove(clicked(i, &column, y))
                        }
                    },
                    None => MouseAction::Nothing,
                }
            } else {
                MouseAction::Nothing
            }
        },
        _ => MouseAction::Nothing,
    }
}

/// Handles a mouse event, with the three columns laid out as `layout`.
pub fn process_mouse_in_layout(event: MouseEvent, context: &mut JoshutoContext, layout: &[Rect; 3])
    requires
        old(context)@.wf(),
    ensures
        final(context)@ == mouse_processed(old(context)@, event, layout@),
        final(context)@.wf(),
{
    let curr_index: Option<usize> = match context.curr_list_ref() {
        Some(list) => list.index(),
        None => None,
    };
    match mouse_action_for(event, layout, curr_index) {
        MouseAction::Execute(command) => {
            command.execute(context);
        },
        MouseAction::CursorMove(i) => {
            cursor_move(i, context);
        },
        MouseAction::ParentCursorMove(i) => {
            parent_cursor_move(i, context);
        },
        MouseAction::Nothing => {},
    }
}

/// The rows left free above and below the three columns.
pub const COLUMN_MARGIN: u16 = 1;

/// What the layout engine is asked for the three columns: for each its
/// width relative to the others, over the sum of the three.
pub open spec fn column_ratios_of(ratio: (u16, u16, u16)) -> Seq<(u32, u32)> {
    let total = (ratio.0 + ratio.1 + ratio.2) as u32;
    seq![(ratio.0 as u32, total), (ratio.1 as u32, total), (ratio.2 as u32, total)]
}

/// What the layout engine is asked for the three columns of a session with
/// the column ratio `ratio`.
pub fn column_ratios(ratio: (u16, u16, u16)) -> (r: Vec<(u32, u32)>)
    ensures
        r@ == column_ratios_of(ratio),
{
    let total: u32 = ratio.0 as u32 + ratio.1 as u32 + ratio.2 as u32;
    let mut r: Vec<(u32, u32)> = Vec::new();
    r.push((ratio.0 as u32, total));
    r.push((ratio.1 as u32, total));
    r.push((ratio.2 as u32, total));
    assert(r@ =~= column_ratios_of(ratio));
    r
}

/// Handles a mouse event on a terminal of the size `f_size`. The three
/// columns are laid out side by side, with [`COLUMN_MARGIN`] rows free
/// above and below, by what [`column_ratios`] gives for the session's
/// column ratio; where exactly is left to the layout engine, so the session
/// ends as [`process_mouse_in_layout`] leaves it for some layout of three
/// columns. A terminal with rows for the margin must end on a row that 16
/// bits can count: its first row, plus its height, less the margin.
pub fn process_mouse(event: MouseEvent, context: &mut JoshutoContext, f_size: Rect)
    requires
        old(context)@.wf(),
        f_size.height < 2 || f_size.y + f_size.height - 1 <= u16::MAX,
    ensures
        exists|layout: Seq<Rect>|
            layout.len() == 3 && final(context)@ == #[trigger] mouse_processed(
                old(context)@,
                event,
                layout,
            ),
        final(context)@.wf(),
{
    let ratios = column_ratios(context.config_ref().column_ratio);
    let columns = split_horizontal(f_size, COLUMN_MARGIN, &ratios);
    let layout: [Rect; 3] = [columns[0], columns[1], columns[2]];
    process_mouse_in_layout(event, context, &layout);
    assert(context@ == mouse_processed(old(context)@, event, layout@));
}

/// The session after a snapshot of the running job arrived: the observer
/// holds it and shows it. No listing is touched.
pub open spec fn worker_progressed(c: ContextView, p: ProgressView) -> ContextView {
    ContextView {
        worker: match c.worker {
            Some(o) => Some(ObserverView { progress: Some(p), msg: progress_text(p), ..o }),
            None => None,
        },
        ..c
    }
}

/// Handles a snapshot of the running job: the observer takes note of it and
/// brings the line shown up to it.
pub fn process_worker_progress(context: &mut JoshutoContext, res: IoWorkerProgress)
    ensures
        final(context)@ == worker_progressed(old(context)@, res@),
{
    context.set_worker_progress(res);
    context.update_worker_msg();
}

/// The message for a job that ended with success.
pub open spec fn success_text(p: ProgressView) -> Seq<char> {
    "successfully "@ + (match p.kind {
        FileOp::Copy => "copied"@,
        FileOp::Cut => "moved"@,
    }) + " "@ + decimal(p.len) + " items ("@ + file_size_text(p.bytes_processed) + ")"@
}

/// The message for a job that has ended: the summary of a success, or the
/// description of the failure as it came.
pub open spec fn result_text(result: JobResultView) -> Seq<char> {
    match result {
        JobResultView::Success(p) => success_text(p),
        JobResultView::Failure(description, _) => description,
    }
}

/// The session after the result of its job arrived: the job is gone, the
/// job's destination and then its source directory are reloaded in every
/// tab from the reads given, and the user has a message about the job
/// behind those about directories that could not be read.
pub open spec fn worker_finished(
    c: ContextView,
    result: JobResultView,
    dest_read: DirReadView,
    src_read: DirReadView,
) -> ContextView {
    let observer = c.worker->0;
    let idle = ContextView { worker: None, ..c };
    reloaded(reloaded(idle, observer.dest, dest_read), observer.src, src_read).with_message(
        result_text(result),
    )
}

fn result_message(res: &JobResult) -> (msg: String)
    ensures
        msg@ == result_text(res@),
{
    match res {
        JobResult::Success(progress) => {
            let mut msg = String::from_str("successfully ");
            match progress.kind() {
                FileOp::Copy => msg.append("copied"),
                FileOp::Cut => msg.append("moved"),
            }
            msg.append(" ");
            push_decimal(&mut msg, progress.len() as u64);
            msg.append(" items (");
            msg.append(file_size_to_string(progress.bytes_processed()).as_str());
            msg.append(")");
            msg
        },
        JobResult::Failure(description, _) => description.clone(),
    }
}

/// Handles the result of the job: the session is free for the next job,
/// the two directories that the job touched are read anew, and the user is
/// told how the job ended.
pub fn process_finished_worker(
    context: &mut JoshutoContext,
    res: JobResult,
    dest_read: &DirRead,
    src_read: &DirRead,
)
    requires
        old(context)@.wf(),
        old(context)@.worker is Some,
    ensures
        final(context)@ == worker_finished(old(context)@, res@, dest_read@, src_read@),
        final(context)@.wf(),
        final(context)@.worker is None,
{
    let observer = match context.remove_job() {
        Some(o) => o,
        None => {
            return ;
        },
    };
    proof {
        let idle = ContextView { worker: None, ..old(context)@ };
        lemma_reloaded_wf(idle, observer@.dest, dest_read@);
        lemma_reloaded_wf(reloaded(idle, observer@.dest, dest_read@), observer@.src, src_read@);
    }
    reload_everywhere(context, observer.dest_path(), dest_read);
    reload_everywhere(context, observer.src_path(), src_read);
    context.push_msg(result_message(&res));
}

/// The session after an event that is not the user's: a snapshot or the
/// result of the job is taken note of; a signal changes nothing.
pub open spec fn noninteractive_processed(c: ContextView, event: JoshutoEvent) -> ContextView {
    match event {
        JoshutoEvent::IoWorkerProgress(p) => worker_progressed(c, p@),
        JoshutoEvent::IoWorkerResult { result, dest_read, src_read } => worker_finished(
            c,
            result@,
            dest_read@,
            src_read@,
        ),
        _ => c,
    }
}

/// Only the result of its job frees a session for the next job, and in
/// the same step the two directories of the job are read anew in every tab.
/// As a job is refused while another is observed, no listing is touched by
/// a later job before the reload for the job before it.
pub proof fn lemma_reload_precedes_next_job(c: ContextView, event: JoshutoEvent)
    requires
        c.wf(),
        c.worker is Some,
    ensures
        noninteractive_processed(c, event).worker is None <==> event is IoWorkerResult,
        event matches JoshutoEvent::IoWorkerResult { result, dest_read, src_read }
            ==> noninteractive_processed(c, event).tabs == reloaded(
            reloaded(ContextView { worker: None, ..c }, c.worker->0.dest, dest_read@),
            c.worker->0.src,
            src_read@,
        ).tabs,
        noninteractive_processed(c, event).wf(),
{
    let idle = ContextView { worker: None, ..c };
    if let JoshutoEvent::IoWorkerResult { result, dest_read, src_read } = event {
        lemma_reloaded_wf(idle, c.worker->0.dest, dest_read@);
        lemma_reloaded_wf(reloaded(idle, c.worker->0.dest, dest_read@), c.worker->0.src, src_read@);
    }
}

/// Handles an event that is not the user's: a snapshot or the result of the
/// job. Signals and everything else leave the session as it is.
pub fn process_noninteractive(event: JoshutoEvent, context: &mut JoshutoContext)
    requires
        old(context)@.wf(),
        event is IoWorkerResult ==> old(context)@.worker is Some,
    ensures
        final(context)@ == noninteractive_processed(old(context)@, event),
        final(context)@.wf(),
{
    match event {
        JoshutoEvent::IoWorkerProgress(res) => process_worker_progress(context, res),
        JoshutoEvent::IoWorkerResult { result, dest_read, src_read } => process_finished_worker(
            context,
            result,
            &dest_read,
            &src_read,
        ),
        _ => {},
    }
}

} // verus!

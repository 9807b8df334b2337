use crate::context::JoshutoContext;
use crate::ui::layout::Rect;
use crate::util::event::{JoshutoEvent, Key, TermionEvent};
use crate::util::input::{noninteractive_processed, process_noninteractive};
use vstd::prelude::*;

verus! {

/// What the loop of a view does after an event.
#[derive(Clone, Copy, Debug, PartialEq, Eq, Structural)]
pub enum ViewStep {
    /// Leave the view.
    Close,
    /// Drop the events of the terminal that have piled up, then draw again.
    Flush,
    /// Draw again.
    Redraw,
}

/// Where the two parts of the worker view are drawn.
#[derive(Clone, Copy, Debug, PartialEq, Eq, Structural)]
pub struct WorkerViewLayout {
    /// The bar at the top, one row high.
    pub top_bar: Rect,
    /// The area for the progress of the job, below the bar.
    pub body: Rect,
}

/// The view that shows the progress of the running job.
#[derive(Clone, Copy, Debug, PartialEq, Eq, Structural)]
pub struct TuiWorkerView {}

impl TuiWorkerView {
    /// The view; it keeps nothing of its own.
    pub fn new() -> (view: TuiWorkerView) {
        TuiWorkerView {  }
    }

    /// Where the view is drawn on a terminal of the size `area`: the bar in
    /// the first row of the area, the body from the left edge of the terminal
    /// and its second row on, as wide as the area and one row lower. On a
    /// terminal without rows nothing is drawn.
    pub open spec fn layout_of(area: Rect) -> Option<WorkerViewLayout> {
        if area.height == 0 {
            None
        } else {
            Some(
                WorkerViewLayout {
                    top_bar: Rect { height: 1, ..area },
                    body: Rect { x: 0, y: 1, width: area.width, height: (area.height - 1) as u16 },
                },
            )
        }
    }

    /// Where the view is drawn on a terminal of the size `area`.
    pub fn layout(&self, area: Rect) -> (l: Option<WorkerViewLayout>)
        ensures
            l == Self::layout_of(area),
    {
        if area.height == 0 {
            None
        } else {
            Some(
                WorkerViewLayout {
                    top_bar: Rect { x: area.x, y: area.y, width: area.width, height: 1 },
                    body: Rect { x: 0, y: 1, width: area.width, height: area.height - 1 },
                },
            )
        }
    }

    /// What the loop of the view does after `event`: the escape key leaves
    /// the view, any other event of the terminal is dropped, and after
    /// everything else the view is drawn again.
    pub open spec fn step_after(event: JoshutoEvent) -> ViewStep {
        match event {
            JoshutoEvent::Termion(TermionEvent::Key(Key::Esc)) => ViewStep::Close,
            JoshutoEvent::Termion(_) => ViewStep::Flush,
            _ => ViewStep::Redraw,
        }
    }

    /// One turn of the view's loop, after it was drawn and `event` arrived:
    /// events of the terminal leave the session as it is, every other event
    /// is handled as [`process_noninteractive`] does.
    pub fn display(&self, context: &mut JoshutoContext, event: JoshutoEvent) -> (step: ViewStep)
        requires
            old(context)@.wf(),
            event is IoWorkerResult ==> old(context)@.worker is Some,
        ensures
            step == Self::step_after(event),
            final(context)@ == (if event is Termion {
                old(context)@
            } else {
                noninteractive_processed(old(context)@, event)
            }),
            final(context)@.wf(),
    {
        match event {
            JoshutoEvent::Termion(event) => {
                match event {
                    TermionEvent::Key(Key::Esc) => ViewStep::Close,
                    _ => ViewStep::Flush,
                }
            },
            event => {
                process_noninteractive(event, context);
                ViewStep::Redraw
            },
        }
    }
}

} // verus!

use tui::layout::{Constraint, Direction, Layout};
use vstd::prelude::*;

verus! {

/// A rectangle of the terminal, in cells.
#[derive(Clone, Copy, Debug, PartialEq, Eq, Structural)]
pub struct Rect {
    pub x: u16,
    pub y: u16,
    pub width: u16,
    pub height: u16,
}

/// `Layout::split` of the `tui` crate, for a horizontal layout with the
/// vertical margin given and one `Constraint::Ratio` for each pair of
/// `ratios`, numerator first. Trusted: one rectangle comes back for each
/// ratio. Where they lie is left open: the crate finds them with a
/// constraint solver. Three things are asked of the caller, because the
/// crate panics without them. It divides by the denominators, so none may
/// be zero. It doubles the margin, which must fit. And it takes the margin
/// off the area at the top and at the bottom and asks the solver to keep
/// every rectangle above the last row of what is left, counted in 16 bits:
/// so where the area is high enough for the margin at all, the row behind
/// what is left (the area's first row, plus its height, less the margin)
/// must not lie beyond the largest row that 16 bits can count, or the
/// solver finds its constraints at odds. That also keeps the first row
/// below the margin within 16 bits.
#[verifier::external_body]
pub(crate) fn split_horizontal(area: Rect, vertical_margin: u16, ratios: &Vec<(u32, u32)>) -> (parts:
    Vec<Rect>)
    requires
        forall|i: int| 0 <= i < ratios.len() ==> (#[trigger] ratios[i]).1 > 0,
        vertical_margin < 0x8000,
        area.height < 2 * vertical_margin || area.y + area.height - vertical_margin <= u16::MAX,
    ensures
        parts.len() == ratios.len(),
{
    let constraints: Vec<Constraint> = ratios.iter().map(|r| Constraint::Ratio(r.0, r.1)).collect();
    let area = tui::layout::Rect { x: area.x, y: area.y, width: area.width, height: area.height };
    let layout = Layout::default().direction(Direction::Horizontal).vertical_margin(vertical_margin);
    let parts = layout.constraints(constraints).split(area);
    parts.iter().map(|r| Rect { x: r.x, y: r.y, width: r.width, height: r.height }).collect()
}

} // verus!

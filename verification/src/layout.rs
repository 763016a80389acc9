//! Screen geometry: rectangles, the vertical split of the screen, and the
//! display width of a line of text. The split and the width come from
//! ratatui.

use ratatui::layout::{Constraint, Layout, Rect};
use ratatui::text::{Line, Span};
use vstd::prelude::*;

verus! {

/// A rectangle of terminal cells.
#[derive(Clone, Copy, Debug, PartialEq, Eq, Structural)]
pub struct Area {
    pub x: u16,
    pub y: u16,
    pub width: u16,
    pub height: u16,
}

/// The areas that ratatui's vertical `Layout` gives for the constraints
/// `Length(first)`, `Length(second)`, `Fill(1)` in `area`.
pub uninterp spec fn vertical_areas(area: Area, first: u16, second: u16) -> (Area, Area, Area);

/// The display width, in terminal cells, that ratatui gives a line made of
/// two spans with these contents.
pub uninterp spec fn line_display_width(first: Seq<char>, second: Seq<char>) -> usize;

/// Splits `area` from top to bottom into a part `first` rows high, a part
/// `second` rows high, and the rest, with ratatui's
/// `Layout::vertical([Length(first), Length(second), Fill(1)]).areas(area)`.
/// A vertical layout without margin keeps the column and the width of
/// `area` in every part (ratatui's `changes_to_rects`); how the rows are
/// shared out is left to the layout solver and is only named here.
#[verifier::external_body]
pub fn split_vertically(area: Area, first: u16, second: u16) -> (r: (Area, Area, Area))
    ensures
        r == vertical_areas(area, first, second),
        r.0.x == area.x && r.0.width == area.width,
        r.1.x == area.x && r.1.width == area.width,
        r.2.x == area.x && r.2.width == area.width,
{
    let rect = Rect { x: area.x, y: area.y, width: area.width, height: area.height };
    let [a, b, c] = Layout::vertical(
        [Constraint::Length(first), Constraint::Length(second), Constraint::Fill(1)],
    ).areas(rect);
    (
        Area { x: a.x, y: a.y, width: a.width, height: a.height },
        Area { x: b.x, y: b.y, width: b.width, height: b.height },
        Area { x: c.x, y: c.y, width: c.width, height: c.height },
    )
}

/// The display width of a line made of the spans `first` and `second`,
/// with ratatui's `Line::width` (the sum of the spans' Unicode widths).
/// The width itself is only named here.
#[verifier::external_body]
pub fn line_width(first: &str, second: &str) -> (w: usize)
    ensures
        w == line_display_width(first@, second@),
{
    Line::from(vec![Span::raw(first), Span::raw(second)]).width()
}

} // verus!

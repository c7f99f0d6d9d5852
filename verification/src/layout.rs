//! Splitting a screen area into parts, as the terminal front end lays out its widgets.
use vstd::prelude::*;

use crate::style::Rect;
use ratatui::layout::{Constraint, Direction, Layout};

verus! {

/// Which way an area is split.
#[derive(Debug, Clone, Copy, PartialEq, Eq, Structural)]
pub enum LayoutDirection {
    Horizontal,
    Vertical,
}

/// What size one part of a split asks for.
#[derive(Debug, Clone, Copy, PartialEq, Eq, Structural)]
pub enum LayoutConstraint {
    /// Exactly this many cells.
    Length(u16),
    /// At least this many cells.
    Min(u16),
    /// This percentage of the area.
    Percentage(u16),
}

/// What every split of `area` in `direction` under `constraints` gives, whatever the layout
/// solver decides: one part per constraint, each spanning the whole area across the direction
/// of the split.
pub open spec fn split_outcome(direction: LayoutDirection, constraints: Seq<LayoutConstraint>, area: Rect, parts: Seq<Rect>) -> bool {
    &&& parts.len() == constraints.len()
    &&& forall|i: int|
        0 <= i < parts.len() ==> match direction {
            LayoutDirection::Horizontal => (#[trigger] parts[i]).y == area.y && parts[i].height == area.height,
            LayoutDirection::Vertical => parts[i].x == area.x && parts[i].width == area.width,
        }
}

/// `ratatui::layout::Layout::split` with no margin: the parts of `area` that the constraints
/// ask for, one per constraint, in order. The solver that places them along the split walks
/// randomly seeded hash maps, so where each part starts and how long it is are not stated;
/// what is claimed is their number and that each keeps the area's position and size across
/// the split, as `changes_to_rects` builds them.
#[verifier::external_body]
fn split_area(direction: LayoutDirection, constraints: &[LayoutConstraint], area: Rect) -> (res: Vec<Rect>)
    ensures
        split_outcome(direction, constraints@, area, res@),
{
    let mut cs = Vec::new();
    for c in constraints {
        cs.push(match *c {
            LayoutConstraint::Length(n) => Constraint::Length(n),
            LayoutConstraint::Min(n) => Constraint::Min(n),
            LayoutConstraint::Percentage(n) => Constraint::Percentage(n),
        });
    }
    let dir = match direction {
        LayoutDirection::Horizontal => Direction::Horizontal,
        LayoutDirection::Vertical => Direction::Vertical,
    };
    let whole = ratatui::layout::Rect { x: area.x, y: area.y, width: area.width, height: area.height };
    Layout::default().direction(dir).constraints(cs).split(whole).iter().map(|r| Rect { x: r.x, y: r.y, width: r.width, height: r.height }).collect()
}

/// The three constraints that center a part of `percent` percent.
pub open spec fn centered_constraints(percent: u16) -> Seq<LayoutConstraint> {
    let side = ((100 - percent) / 2) as u16;
    seq![LayoutConstraint::Percentage(side), LayoutConstraint::Percentage(percent), LayoutConstraint::Percentage(side)]
}

/// `res` is the middle of `area` as two splits may place it: `area` split into three rows by
/// `percent_y` (see [`centered_constraints`]), the middle row split into three columns by
/// `percent_x`, and `res` the middle column.
pub open spec fn centered_outcome(percent_x: u16, percent_y: u16, area: Rect, res: Rect) -> bool {
    exists|rows: Seq<Rect>, columns: Seq<Rect>|
        #![trigger split_outcome(LayoutDirection::Vertical, centered_constraints(percent_y), area, rows), split_outcome(LayoutDirection::Horizontal, centered_constraints(percent_x), rows[1], columns)]
        split_outcome(LayoutDirection::Vertical, centered_constraints(percent_y), area, rows)
            && split_outcome(LayoutDirection::Horizontal, centered_constraints(percent_x), rows[1], columns)
            && res == columns[1]
}

/// Three constraints that center a part of `percent` percent.
fn centered(percent: u16) -> (res: Vec<LayoutConstraint>)
    requires
        percent <= 100,
    ensures
        res@ == centered_constraints(percent),
{
    let side = (100 - percent) / 2;
    let mut res: Vec<LayoutConstraint> = Vec::new();
    res.push(LayoutConstraint::Percentage(side));
    res.push(LayoutConstraint::Percentage(percent));
    res.push(LayoutConstraint::Percentage(side));
    assert(res@ =~= centered_constraints(percent));
    res
}

/// The middle of `area`, `percent_x` percent of its width and `percent_y` percent of its
/// height, as the layout splits place it (see [`centered_outcome`]): it spans the rows of the
/// middle row, and that row spans the area's columns.
pub fn centered_rect(percent_x: u16, percent_y: u16, area: Rect) -> (res: Rect)
    requires
        percent_x <= 100,
        percent_y <= 100,
    ensures
        centered_outcome(percent_x, percent_y, area, res),
{
    let rows = split_area(LayoutDirection::Vertical, centered(percent_y).as_slice(), area);
    let columns = split_area(LayoutDirection::Horizontal, centered(percent_x).as_slice(), rows[1]);
    assert(split_outcome(LayoutDirection::Vertical, centered_constraints(percent_y), area, rows@));
    assert(split_outcome(LayoutDirection::Horizontal, centered_constraints(percent_x), rows@[1], columns@));
    columns[1]
}

/// The pager's constraints: 32 cells for the file list, at least 20 for the patch.
pub open spec fn pager_constraints() -> Seq<LayoutConstraint> {
    seq![LayoutConstraint::Length(32), LayoutConstraint::Min(20)]
}

/// The pager's two columns, as a split places them: 32 cells for the file list, the rest, at
/// least 20, for the patch; both span the area's rows.
pub fn pager_columns(area: Rect) -> (res: (Rect, Rect))
    ensures
        exists|parts: Seq<Rect>|
            #[trigger] split_outcome(LayoutDirection::Horizontal, pager_constraints(), area, parts)
                && res == (parts[0], parts[1]),
{
    let mut cs: Vec<LayoutConstraint> = Vec::new();
    cs.push(LayoutConstraint::Length(32));
    cs.push(LayoutConstraint::Min(20));
    assert(cs@ =~= pager_constraints());
    let parts = split_area(LayoutDirection::Horizontal, cs.as_slice(), area);
    assert(split_outcome(LayoutDirection::Horizontal, pager_constraints(), area, parts@));
    (parts[0], parts[1])
}

} // verus!

//! The areas of the screen: a header, the change list beside the diff, the
//! commit message and the status bar, laid out by ratatui's constraint
//! solver.
use vstd::prelude::*;

use ratatui::layout::{Constraint, Direction, Layout, Rect};

verus! {

/// A rectangle of the terminal, in cells.
#[derive(Clone, Copy, Debug, PartialEq, Eq, Structural)]
pub struct Area {
    pub x: u16,
    pub y: u16,
    pub width: u16,
    pub height: u16,
}

/// The direction in which an area is divided.
#[derive(Clone, Copy, Debug, PartialEq, Eq, Structural)]
pub enum Axis {
    Vertical,
    Horizontal,
}

/// What one part of a divided area asks for.
#[derive(Clone, Copy, Debug, PartialEq, Eq, Structural)]
pub enum SizeRule {
    /// Exactly this many cells.
    Length(u16),
    /// At least this many cells.
    Min(u16),
    /// This percentage of the area.
    Percentage(u16),
}

/// Whether `part` spans `area` across `axis`: the whole width of `area` for
/// a vertical division, the whole height for a horizontal one.
pub open spec fn spans_across(axis: Axis, area: Area, part: Area) -> bool {
    match axis {
        Axis::Vertical => part.x == area.x && part.width == area.width,
        Axis::Horizontal => part.y == area.y && part.height == area.height,
    }
}

/// The row just below an area, as ratatui's `Rect::bottom` gives it (held
/// at the largest `u16`).
pub open spec fn bottom_of(a: Area) -> nat {
    if a.y + a.height <= 0xFFFF {
        (a.y + a.height) as nat
    } else {
        0xFFFF
    }
}

/// The column just right of an area, as ratatui's `Rect::right` gives it
/// (held at the largest `u16`).
pub open spec fn right_of(a: Area) -> nat {
    if a.x + a.width <= 0xFFFF {
        (a.x + a.width) as nat
    } else {
        0xFFFF
    }
}

/// Whether `part` lies within `area` along `axis`: between the area's top
/// and bottom for a vertical division, its left and right for a horizontal
/// one.
pub open spec fn lies_along(axis: Axis, area: Area, part: Area) -> bool {
    match axis {
        Axis::Vertical => area.y <= part.y && part.y + part.height <= bottom_of(area),
        Axis::Horizontal => area.x <= part.x && part.x + part.width <= right_of(area),
    }
}

/// Whether `part` lies within `area` in both directions.
pub open spec fn within(area: Area, part: Area) -> bool {
    &&& area.x <= part.x
    &&& part.x + part.width <= area.x + area.width
    &&& area.y <= part.y
    &&& part.y + part.height <= area.y + area.height
}

/// Divides an area with ratatui's `Layout::split` (no margin, no spacing,
/// the default flex). `split` returns one part per rule, in order. Each part
/// spans the whole area across the axis of division (its position and size
/// along the other axis are copied from the area), and lies within the area
/// along the axis: every edge is held between the area's edges by a required
/// constraint of the solver. That solver's other constraints, the rules, are
/// only preferences, so `split` does not fail for any rules. Where each part
/// starts along the axis, and how long it is, the solver decides; where the
/// rules conflict its choice can differ from one process to the next, so
/// nothing more is said of it.
#[verifier::external_body]
fn split_area(axis: Axis, rules: &Vec<SizeRule>, area: Area) -> (r: Vec<Area>)
    ensures
        r@.len() == rules@.len(),
        forall|i: int| 0 <= i < r@.len() ==> spans_across(axis, area, #[trigger] r@[i]),
        forall|i: int| 0 <= i < r@.len() ==> lies_along(axis, area, #[trigger] r@[i]),
{
    let constraints = rules.iter().map(|rule| match *rule {
        SizeRule::Length(n) => Constraint::Length(n),
        SizeRule::Min(n) => Constraint::Min(n),
        SizeRule::Percentage(n) => Constraint::Percentage(n),
    });
    let direction = match axis {
        Axis::Vertical => Direction::Vertical,
        Axis::Horizontal => Direction::Horizontal,
    };
    let rect = Rect { x: area.x, y: area.y, width: area.width, height: area.height };
    let parts = Layout::default().direction(direction).constraints(constraints).split(rect);
    parts.iter().map(|p| Area { x: p.x, y: p.y, width: p.width, height: p.height }).collect()
}

/// The areas of the screen.
#[derive(Clone, Copy, Debug, PartialEq, Eq, Structural)]
pub struct LayoutAreas {
    pub header: Area,
    pub changes: Area,
    pub diff: Area,
    pub commit: Area,
    pub status: Area,
}

/// The rows of the screen: a header of 5 rows, the body (at least 10), the
/// commit message (5) and the status bar (3).
pub open spec fn screen_rows() -> Seq<SizeRule> {
    seq![SizeRule::Length(5), SizeRule::Min(10), SizeRule::Length(5), SizeRule::Length(3)]
}

/// The columns of the body: the change list (38%) and the diff (62%).
pub open spec fn body_columns() -> Seq<SizeRule> {
    seq![SizeRule::Percentage(38), SizeRule::Percentage(62)]
}

/// The areas of the screen from the parts of its two divisions: `rows`,
/// the parts of the screen for [`screen_rows`], and `columns`, the parts of
/// the body row for [`body_columns`]. The header, commit message and status
/// bar are the first, third and fourth rows; the change list and the diff
/// are the two columns.
pub fn place_areas(rows: &Vec<Area>, columns: &Vec<Area>) -> (r: LayoutAreas)
    requires
        rows@.len() == screen_rows().len(),
        columns@.len() == body_columns().len(),
    ensures
        r.header == rows@[0],
        r.changes == columns@[0],
        r.diff == columns@[1],
        r.commit == rows@[2],
        r.status == rows@[3],
{
    LayoutAreas {
        header: rows[0],
        changes: columns[0],
        diff: columns[1],
        commit: rows[2],
        status: rows[3],
    }
}

/// The rules of the screen's rows, [`screen_rows`].
pub fn screen_row_rules() -> (r: Vec<SizeRule>)
    ensures
        r@ == screen_rows(),
{
    let mut rules: Vec<SizeRule> = Vec::new();
    rules.push(SizeRule::Length(5));
    rules.push(SizeRule::Min(10));
    rules.push(SizeRule::Length(5));
    rules.push(SizeRule::Length(3));
    assert(rules@ =~= screen_rows());
    rules
}

/// The rules of the body's columns, [`body_columns`].
pub fn body_column_rules() -> (r: Vec<SizeRule>)
    ensures
        r@ == body_columns(),
{
    let mut rules: Vec<SizeRule> = Vec::new();
    rules.push(SizeRule::Percentage(38));
    rules.push(SizeRule::Percentage(62));
    assert(rules@ =~= body_columns());
    rules
}

/// The areas of a screen `frame`: the screen divided by ratatui into rows
/// by the rules of [`screen_row_rules`], the body row divided into columns
/// by those of [`body_column_rules`], and the parts placed by
/// [`place_areas`]. Every area lies within the frame; the header, commit
/// message and status bar span the frame's width, and the change list and
/// the diff have the height and top of one and the same body row. How tall
/// each row is and how wide each column is, ratatui's solver decides.
pub fn compute(frame: Area) -> (r: LayoutAreas)
    ensures
        within(frame, r.header),
        within(frame, r.changes),
        within(frame, r.diff),
        within(frame, r.commit),
        within(frame, r.status),
        spans_across(Axis::Vertical, frame, r.header),
        spans_across(Axis::Vertical, frame, r.commit),
        spans_across(Axis::Vertical, frame, r.status),
        r.changes.y == r.diff.y,
        r.changes.height == r.diff.height,
{
    let row_rules = screen_row_rules();
    let rows = split_area(Axis::Vertical, &row_rules, frame);
    let column_rules = body_column_rules();
    let columns = split_area(Axis::Horizontal, &column_rules, rows[1]);
    assert(spans_across(Axis::Vertical, frame, rows@[0]) && lies_along(Axis::Vertical, frame, rows@[0]));
    assert(spans_across(Axis::Vertical, frame, rows@[1]) && lies_along(Axis::Vertical, frame, rows@[1]));
    assert(spans_across(Axis::Vertical, frame, rows@[2]) && lies_along(Axis::Vertical, frame, rows@[2]));
    assert(spans_across(Axis::Vertical, frame, rows@[3]) && lies_along(Axis::Vertical, frame, rows@[3]));
    assert(spans_across(Axis::Horizontal, rows@[1], columns@[0]) && lies_along(Axis::Horizontal, rows@[1], columns@[0]));
    assert(spans_across(Axis::Horizontal, rows@[1], columns@[1]) && lies_along(Axis::Horizontal, rows@[1], columns@[1]));
    place_areas(&rows, &columns)
}

} // verus!

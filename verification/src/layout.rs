use ratatui::layout::{Constraint as Room, Direction as Cut, Layout, Rect};
use vstd::prelude::*;

verus! {

/// A rectangle of terminal cells: its top-left corner and its size.
#[derive(Clone, Copy, Debug, PartialEq, Eq, Structural)]
pub struct Area {
    pub x: u16,
    pub y: u16,
    pub width: u16,
    pub height: u16,
}

/// Which way an area is cut.
#[derive(Clone, Copy, Debug, PartialEq, Eq, Structural)]
pub enum Direction {
    /// Into rows, top to bottom.
    Vertical,
    /// Into columns, left to right.
    Horizontal,
}

/// How much room one part of a split asks for.
#[derive(Clone, Copy, Debug, PartialEq, Eq, Structural)]
pub enum Constraint {
    /// Exactly this many cells.
    Length(u16),
    /// At least this many cells.
    Min(u16),
    /// This share of the room, in percent.
    Percentage(u16),
}

/// `inner` lies within `outer`.
pub open spec fn within(inner: Area, outer: Area) -> bool {
    &&& outer.x <= inner.x
    &&& inner.x + inner.width <= outer.x + outer.width
    &&& outer.y <= inner.y
    &&& inner.y + inner.height <= outer.y + outer.height
}

/// Whether `parts` is an outcome that `ratatui`'s `Layout::split` can give
/// for cutting `area` in `direction` by `constraints`. A relation, not a
/// function: the solver may give different outcomes for the same arguments.
pub uninterp spec fn split_outcome(area: Area, direction: Direction, constraints: Seq<Constraint>, parts: Seq<Area>) -> bool;

/// Splits an area with `ratatui::layout::Layout::default()`, its direction
/// and constraints set, and `Layout::split`. The solver's pivots follow the
/// iteration order of randomly seeded hash maps and its variables take their
/// identifiers from a global counter, so which parts come back is not stated
/// beyond their being an outcome of the split. Stated besides: there is one
/// part per constraint (the solver makes two boundaries per constraint plus
/// two), and each part lies within `area`, since every boundary is a required
/// constraint between the start and the end of the (clamped) area along the
/// cut, and across the cut a part copies the area. `split` panics when its
/// solver refuses the constraints; which constraints it refuses is left
/// unsaid here.
#[verifier::external_body]
fn split_area(area: Area, direction: Direction, constraints: &Vec<Constraint>) -> (parts: Vec<Area>)
    ensures
        split_outcome(area, direction, constraints@, parts@),
        parts@.len() == constraints@.len(),
        forall|k: int| 0 <= k < parts@.len() ==> within(#[trigger] parts@[k], area),
{
    let direction = match direction {
        Direction::Vertical => Cut::Vertical,
        Direction::Horizontal => Cut::Horizontal,
    };
    let cs: Vec<Room> = constraints.iter().map(|c| match c {
        Constraint::Length(n) => Room::Length(*n),
        Constraint::Min(n) => Room::Min(*n),
        Constraint::Percentage(n) => Room::Percentage(*n),
    }).collect();
    let rect = Rect::new(area.x, area.y, area.width, area.height);
    let parts = Layout::default().direction(direction).constraints(cs).split(rect);
    parts.iter().map(|r| Area { x: r.x, y: r.y, width: r.width, height: r.height }).collect()
}

/// Three parts: a middle share of `percent` and what is left shared evenly
/// before and after it.
pub open spec fn centered_constraints(percent: u16) -> Seq<Constraint> {
    let side = ((100 - percent) / 2) as u16;
    seq![Constraint::Percentage(side), Constraint::Percentage(percent), Constraint::Percentage(side)]
}

/// The constraints that put a share of `percent` in the middle.
pub fn centered_vec(percent: u16) -> (v: Vec<Constraint>)
    requires
        percent <= 100,
    ensures
        v@ == centered_constraints(percent),
{
    let side = (100 - percent) / 2;
    let v = vec![Constraint::Percentage(side), Constraint::Percentage(percent), Constraint::Percentage(side)];
    assert(v@ =~= centered_constraints(percent));
    v
}

/// `c` is the middle part of the middle row of `r`, for some outcome of
/// cutting `r` into rows by `centered_constraints(percent_y)` and of cutting
/// that row into columns by `centered_constraints(percent_x)`.
pub open spec fn is_centered_in(c: Area, percent_x: u16, percent_y: u16, r: Area) -> bool {
    exists|rows: Seq<Area>, cols: Seq<Area>|
        #[trigger] split_outcome(r, Direction::Vertical, centered_constraints(percent_y), rows)
            && #[trigger] split_outcome(rows[1], Direction::Horizontal, centered_constraints(percent_x), cols)
            && rows.len() == 3 && cols.len() == 3 && c == cols[1]
}

/// The area of a dialog: the middle part of the middle row of `r`, cut with
/// `centered_constraints(percent_y)` into rows and that row with
/// `centered_constraints(percent_x)` into columns. It lies within `r`.
pub fn centered_rect(percent_x: u16, percent_y: u16, r: Area) -> (c: Area)
    requires
        percent_x <= 100,
        percent_y <= 100,
    ensures
        is_centered_in(c, percent_x, percent_y, r),
        within(c, r),
{
    let rows = split_area(r, Direction::Vertical, &centered_vec(percent_y));
    let cols = split_area(rows[1], Direction::Horizontal, &centered_vec(percent_x));
    assert(within(rows@[1], r));
    assert(within(cols@[1], rows@[1]));
    assert(split_outcome(r, Direction::Vertical, centered_constraints(percent_y), rows@));
    assert(split_outcome(rows@[1], Direction::Horizontal, centered_constraints(percent_x), cols@));
    cols[1]
}

/// The parts of the notes screen: the search box, the list, the preview and
/// the footer.
pub struct ScreenAreas {
    pub search: Area,
    pub list: Area,
    pub preview: Area,
    pub footer: Area,
}

/// Search box three rows high, footer two rows high, at least five rows
/// between them.
pub open spec fn screen_rows() -> Seq<Constraint> {
    seq![Constraint::Length(3), Constraint::Min(5), Constraint::Length(2)]
}

/// List on 38% of the width, preview on the rest.
pub open spec fn screen_columns() -> Seq<Constraint> {
    seq![Constraint::Percentage(38), Constraint::Percentage(62)]
}

/// The rows of the notes screen, as constraints.
pub fn screen_rows_vec() -> (v: Vec<Constraint>)
    ensures
        v@ == screen_rows(),
{
    let v = vec![Constraint::Length(3), Constraint::Min(5), Constraint::Length(2)];
    assert(v@ =~= screen_rows());
    v
}

/// The columns of the middle row of the notes screen, as constraints.
pub fn screen_columns_vec() -> (v: Vec<Constraint>)
    ensures
        v@ == screen_columns(),
{
    let v = vec![Constraint::Percentage(38), Constraint::Percentage(62)];
    assert(v@ =~= screen_columns());
    v
}

/// `s` holds the first, middle-left, middle-right and last parts of an
/// outcome of cutting `full` into `screen_rows()` rows and the middle row into
/// `screen_columns()` columns.
pub open spec fn is_screen_layout(s: ScreenAreas, full: Area) -> bool {
    exists|rows: Seq<Area>, cols: Seq<Area>|
        #[trigger] split_outcome(full, Direction::Vertical, screen_rows(), rows)
            && #[trigger] split_outcome(rows[1], Direction::Horizontal, screen_columns(), cols)
            && rows.len() == 3 && cols.len() == 2 && s.search == rows[0] && s.list == cols[0]
            && s.preview == cols[1] && s.footer == rows[2]
}

/// Cuts the whole terminal area into the parts of the notes screen: the
/// first, middle and last of the `screen_rows()` rows, the middle one cut
/// into the `screen_columns()` columns. Every part lies within `full`.
pub fn screen_areas(full: Area) -> (s: ScreenAreas)
    ensures
        is_screen_layout(s, full),
        within(s.search, full),
        within(s.list, full),
        within(s.preview, full),
        within(s.footer, full),
{
    let rows = split_area(full, Direction::Vertical, &screen_rows_vec());
    let cols = split_area(rows[1], Direction::Horizontal, &screen_columns_vec());
    assert(within(rows@[0], full) && within(rows@[1], full) && within(rows@[2], full));
    assert(within(cols@[0], rows@[1]) && within(cols@[1], rows@[1]));
    assert(split_outcome(full, Direction::Vertical, screen_rows(), rows@));
    assert(split_outcome(rows@[1], Direction::Horizontal, screen_columns(), cols@));
    ScreenAreas { search: rows[0], list: cols[0], preview: cols[1], footer: rows[2] }
}

} // verus!

//! Where the parts of the screen are.
use ratatui::layout::{Constraint as Size, Direction as Way, Layout, Margin, Rect};
use vstd::prelude::*;

verus! {

/// A part of the screen, in cells.
#[derive(Clone, Copy, PartialEq, Eq, Structural, Debug)]
pub struct Area {
    pub x: u16,
    pub y: u16,
    pub width: u16,
    pub height: u16,
}

/// The direction in which an area is split.
#[derive(Clone, Copy, PartialEq, Eq, Structural, Debug)]
pub enum Direction {
    Horizontal,
    Vertical,
}

/// The size that a part of an area is to have.
#[derive(Clone, Copy, PartialEq, Eq, Structural, Debug)]
pub enum Constraint {
    /// So many cells.
    Length(u16),
    /// At least so many cells.
    Min(u16),
    /// So many percent of the area.
    Percentage(u16),
    /// A share of what the other parts leave.
    Fill(u16),
}

/// Where something of a size ends: the last place is the end of what can be counted.
pub open spec fn end_of(start: u16, size: u16) -> int {
    if start + size > u16::MAX {
        u16::MAX as int
    } else {
        start + size
    }
}

/// Whether `part` reaches from one side of `whole` to the other, across the direction in
/// which that was split, and along that direction lies in it.
pub open spec fn spans_across(part: Area, whole: Area, direction: Direction) -> bool {
    match direction {
        Direction::Horizontal => {
            &&& part.y == whole.y
            &&& part.height == whole.height
            &&& whole.x <= part.x
            &&& part.x + part.width <= end_of(whole.x, whole.width)
        },
        Direction::Vertical => {
            &&& part.x == whole.x
            &&& part.width == whole.width
            &&& whole.y <= part.y
            &&& part.y + part.height <= end_of(whole.y, whole.height)
        },
    }
}

/// Whether `part` lies in `whole`.
pub open spec fn is_inside(part: Area, whole: Area) -> bool {
    &&& whole.x <= part.x
    &&& whole.y <= part.y
    &&& part.x + part.width <= whole.x + whole.width
    &&& part.y + part.height <= whole.y + whole.height
}

/// Whether areas are parts of `whole`, one for each constraint.
pub open spec fn are_parts(parts: Seq<Area>, whole: Area, direction: Direction, count: nat) -> bool {
    &&& parts.len() == count
    &&& forall|i: int| 0 <= i < parts.len() ==> spans_across(#[trigger] parts[i], whole, direction)
}

/// Whether `ratatui::layout::Layout::split` may split an area, by some constraints, into
/// these parts.
pub uninterp spec fn may_split(direction: Direction, constraints: Seq<Constraint>, area: Area, parts: Seq<Area>) -> bool;

/// `ratatui::layout::Layout::split`: one part for each constraint, each of which reaches
/// across the whole area and lies in it. How long the parts are is left to a solver that weighs the
/// constraints against each other; where they cannot all be met it may weigh them
/// differently from one process to the next.
#[verifier::external_body]
pub(crate) fn split_area(direction: Direction, constraints: &Vec<Constraint>, area: Area) -> (r: Vec<Area>)
    ensures
        may_split(direction, constraints@, area, r@),
        are_parts(r@, area, direction, constraints@.len()),
{
    let way = match direction {
        Direction::Horizontal => Way::Horizontal,
        Direction::Vertical => Way::Vertical,
    };
    let sizes = constraints.iter().map(|c| match c {
        Constraint::Length(n) => Size::Length(*n),
        Constraint::Min(n) => Size::Min(*n),
        Constraint::Percentage(n) => Size::Percentage(*n),
        Constraint::Fill(n) => Size::Fill(*n),
    });
    let whole = Rect { x: area.x, y: area.y, width: area.width, height: area.height };
    let parts = Layout::new(way, sizes).split(whole);
    parts.iter().map(|p| Area { x: p.x, y: p.y, width: p.width, height: p.height }).collect()
}

/// An area without a margin on both sides, and on top and bottom; nothing where the margins
/// do not fit.
pub open spec fn inset(area: Area, horizontal: u16, vertical: u16) -> Area {
    if area.width < 2 * horizontal || area.height < 2 * vertical {
        Area { x: 0, y: 0, width: 0, height: 0 }
    } else {
        Area {
            x: if area.x + horizontal > u16::MAX {
                u16::MAX
            } else {
                (area.x + horizontal) as u16
            },
            y: if area.y + vertical > u16::MAX {
                u16::MAX
            } else {
                (area.y + vertical) as u16
            },
            width: (area.width - 2 * horizontal) as u16,
            height: (area.height - 2 * vertical) as u16,
        }
    }
}

/// `ratatui::layout::Rect::inner`, with margins that stay in range when doubled.
#[verifier::external_body]
pub(crate) fn inner_area(area: Area, horizontal: u16, vertical: u16) -> (r: Area)
    requires
        horizontal < 0x8000,
        vertical < 0x8000,
    ensures
        r == inset(area, horizontal, vertical),
{
    let whole = Rect { x: area.x, y: area.y, width: area.width, height: area.height };
    let r = whole.inner(Margin { horizontal, vertical });
    Area { x: r.x, y: r.y, width: r.width, height: r.height }
}

/// The rows of the screen.
pub struct Rows {
    pub header: Area,
    pub body: Area,
    pub player: Area,
    pub controls: Area,
}

/// The constraints of the rows of the screen.
pub open spec fn row_constraints() -> Seq<Constraint> {
    seq![Constraint::Length(3), Constraint::Min(3), Constraint::Length(4), Constraint::Length(3)]
}

/// The rows of the screen, as the parts of it came out.
pub fn rows_of(parts: &Vec<Area>) -> (r: Rows)
    requires
        parts@.len() == row_constraints().len(),
    ensures
        r == (Rows { header: parts@[0], body: parts@[1], player: parts@[2], controls: parts@[3] }),
{
    Rows { header: parts[0], body: parts[1], player: parts[2], controls: parts[3] }
}

/// The rows of the screen. Each is as wide as the screen, and lies in it.
pub fn screen_rows(screen: Area) -> (r: Rows)
    ensures
        may_split(
            Direction::Vertical,
            row_constraints(),
            screen,
            seq![r.header, r.body, r.player, r.controls],
        ),
        are_parts(
            seq![r.header, r.body, r.player, r.controls],
            screen,
            Direction::Vertical,
            row_constraints().len(),
        ),
        is_inside(r.header, screen),
        is_inside(r.body, screen),
        is_inside(r.player, screen),
        is_inside(r.controls, screen),
{
    let mut constraints: Vec<Constraint> = Vec::new();
    constraints.push(Constraint::Length(3));
    constraints.push(Constraint::Min(3));
    constraints.push(Constraint::Length(4));
    constraints.push(Constraint::Length(3));
    assert(constraints@ =~= row_constraints());
    let parts: Vec<Area> = split_area(Direction::Vertical, &constraints, screen);
    let r: Rows = rows_of(&parts);
    assert(seq![r.header, r.body, r.player, r.controls] =~= parts@);
    assert(spans_across(parts@[0], screen, Direction::Vertical));
    assert(spans_across(parts@[1], screen, Direction::Vertical));
    assert(spans_across(parts@[2], screen, Direction::Vertical));
    assert(spans_across(parts@[3], screen, Direction::Vertical));
    r
}

/// The constraints of the two columns of the zen view.
pub open spec fn column_constraints() -> Seq<Constraint> {
    seq![Constraint::Percentage(45), Constraint::Percentage(55)]
}

/// The columns of the zen view: that of the artwork and that of the track. Each is as high as
/// the area, and lies in it.
pub fn zen_columns(area: Area) -> (r: (Area, Area))
    ensures
        may_split(Direction::Horizontal, column_constraints(), area, seq![r.0, r.1]),
        are_parts(seq![r.0, r.1], area, Direction::Horizontal, column_constraints().len()),
        is_inside(r.0, area),
        is_inside(r.1, area),
{
    let mut constraints: Vec<Constraint> = Vec::new();
    constraints.push(Constraint::Percentage(45));
    constraints.push(Constraint::Percentage(55));
    assert(constraints@ =~= column_constraints());
    let parts: Vec<Area> = split_area(Direction::Horizontal, &constraints, area);
    let r: (Area, Area) = (parts[0], parts[1]);
    assert(seq![r.0, r.1] =~= parts@);
    assert(spans_across(parts@[0], area, Direction::Horizontal));
    assert(spans_across(parts@[1], area, Direction::Horizontal));
    r
}

/// The constraints that put a part of a size in the middle.
pub open spec fn centering(size: u16) -> Seq<Constraint> {
    seq![Constraint::Fill(1), Constraint::Length(size), Constraint::Fill(1)]
}

fn centering_constraints(size: u16) -> (r: Vec<Constraint>)
    ensures
        r@ == centering(size),
{
    let mut out: Vec<Constraint> = Vec::new();
    out.push(Constraint::Fill(1));
    out.push(Constraint::Length(size));
    out.push(Constraint::Fill(1));
    assert(out@ =~= centering(size));
    out
}

/// Whether `r` may be the area of a size in the middle of another: the middle part of the
/// middle row.
pub open spec fn may_be_centered(width: u16, height: u16, area: Area, r: Area) -> bool {
    exists|rows: Seq<Area>, columns: Seq<Area>|
        {
            &&& #[trigger] may_split(Direction::Vertical, centering(height), area, rows)
            &&& are_parts(rows, area, Direction::Vertical, 3)
            &&& #[trigger] may_split(Direction::Horizontal, centering(width), rows[1], columns)
            &&& are_parts(columns, rows[1], Direction::Horizontal, 3)
            &&& r == columns[1]
        }
}

/// An area of a size in the middle of another, in which it lies.
pub fn centered_rect(width: u16, height: u16, area: Area) -> (r: Area)
    ensures
        may_be_centered(width, height, area, r),
        is_inside(r, area),
        r.x + r.width <= u16::MAX,
        r.y + r.height <= u16::MAX,
{
    let rows: Vec<Area> = split_area(Direction::Vertical, &centering_constraints(height), area);
    assert(spans_across(rows@[1], area, Direction::Vertical));
    let columns: Vec<Area> = split_area(Direction::Horizontal, &centering_constraints(width), rows[1]);
    assert(spans_across(columns@[1], rows@[1], Direction::Horizontal));
    columns[1]
}

/// The size of the window that asks whether to quit.
pub const POPUP_WIDTH: u16 = 44;

pub const POPUP_HEIGHT: u16 = 7;

/// The window that asks whether to quit, in the middle of the screen.
pub fn popup_area(screen: Area) -> (r: Area)
    ensures
        may_be_centered(POPUP_WIDTH, POPUP_HEIGHT, screen, r),
        is_inside(r, screen),
{
    centered_rect(POPUP_WIDTH, POPUP_HEIGHT, screen)
}

/// The part of a list's area that its scrollbar is drawn in: all but the lines of the border
/// on top and bottom.
pub fn scrollbar_area(area: Area) -> (r: Area)
    ensures
        r == inset(area, 0, 1),
{
    inner_area(area, 0, 1)
}

/// A margin leaves what lies so far inside on every side.
pub proof fn margin_is_left_on_every_side(area: Area, horizontal: u16, vertical: u16)
    requires
        2 * horizontal <= area.width,
        2 * vertical <= area.height,
        area.x + area.width <= u16::MAX,
        area.y + area.height <= u16::MAX,
    ensures
        ({
            let r = inset(area, horizontal, vertical);
            &&& r.x - area.x == horizontal
            &&& r.y - area.y == vertical
            &&& area.x + area.width - (r.x + r.width) == horizontal
            &&& area.y + area.height - (r.y + r.height) == vertical
        }),
{
}

/// The rows are three lines, what is left, four and three; the columns are forty-five and
/// fifty-five percent; and what is centered has its size between equal shares.
pub proof fn sizes_that_are_asked_for(size: u16)
    ensures
        row_constraints().len() == 4,
        row_constraints()[0] == Constraint::Length(3) && row_constraints()[1] == Constraint::Min(3),
        row_constraints()[2] == Constraint::Length(4) && row_constraints()[3] == Constraint::Length(3),
        column_constraints().len() == 2,
        column_constraints()[0] == Constraint::Percentage(45),
        column_constraints()[1] == Constraint::Percentage(55),
        centering(size).len() == 3,
        centering(size)[1] == Constraint::Length(size),
        centering(size)[0] == Constraint::Fill(1) && centering(size)[2] == Constraint::Fill(1),
        POPUP_WIDTH == 44 && POPUP_HEIGHT == 7,
{
}

}

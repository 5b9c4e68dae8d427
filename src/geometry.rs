//! Rectangular regions of the grid and the layout calls that carve them up.
use ratatui::layout::{Constraint, Flex, Layout, Rect};
use ratatui::widgets::Block;
use vstd::prelude::*;

verus! {

/// A rectangle of grid cells: its top-left corner and its size.
#[derive(Clone, Copy, Debug, PartialEq, Eq, Structural)]
pub struct Area {
    pub x: u16,
    pub y: u16,
    pub width: u16,
    pub height: u16,
}

/// `a + b`, held at `u16::MAX` where it would exceed it.
pub open spec fn sat_add(a: int, b: int) -> u16 {
    if a + b > u16::MAX { u16::MAX } else { (a + b) as u16 }
}

/// `a - b`, held at zero where it would go below it.
pub open spec fn sat_sub(a: int, b: int) -> u16 {
    if a - b < 0 { 0 } else { (a - b) as u16 }
}

impl Area {
    /// The column just past the right edge.
    pub open spec fn right(self) -> u16 {
        sat_add(self.x as int, self.width as int)
    }

    /// The row just past the bottom edge.
    pub open spec fn bottom(self) -> u16 {
        sat_add(self.y as int, self.height as int)
    }

    /// The right and bottom edges lie within the coordinate range.
    pub open spec fn wf(self) -> bool {
        self.x + self.width <= u16::MAX && self.y + self.height <= u16::MAX
    }

    /// The point `(px, py)` lies inside the rectangle.
    pub open spec fn contains(self, px: int, py: int) -> bool {
        self.x <= px < self.x + self.width && self.y <= py < self.y + self.height
    }

    /// `self` lies between the left and right edges of `outer`, rows unchanged.
    pub open spec fn is_column_of(self, outer: Area) -> bool {
        &&& self.y == outer.y
        &&& self.height == outer.height
        &&& outer.x <= self.x
        &&& self.x + self.width <= outer.right()
    }

    /// `self` lies between the top and bottom edges of `outer`, columns unchanged.
    pub open spec fn is_row_of(self, outer: Area) -> bool {
        &&& self.x == outer.x
        &&& self.width == outer.width
        &&& outer.y <= self.y
        &&& self.y + self.height <= outer.bottom()
    }

    /// What is left inside a border of one cell on every side.
    pub open spec fn inside_border(self) -> Area {
        Area {
            x: if sat_add(self.x as int, 1) <= self.right() { sat_add(self.x as int, 1) } else { self.right() },
            y: if sat_add(self.y as int, 1) <= self.bottom() { sat_add(self.y as int, 1) } else { self.bottom() },
            width: sat_sub(self.width as int, 2),
            height: sat_sub(self.height as int, 2),
        }
    }

    pub fn new(x: u16, y: u16, width: u16, height: u16) -> (r: Area)
        ensures
            r == (Area { x, y, width, height }),
    {
        Area { x, y, width, height }
    }
}

/// Relies on ratatui's `Block::inner` for `Block::bordered()` (all borders, no padding,
/// no title): one cell is taken from each side, saturating at the edges.
#[verifier::external_body]
pub(crate) fn bordered_inner(area: Area) -> (r: Area)
    ensures
        r == area.inside_border(),
{
    let rect = Rect { x: area.x, y: area.y, width: area.width, height: area.height };
    let inner = Block::bordered().inner(rect);
    Area { x: inner.x, y: inner.y, width: inner.width, height: inner.height }
}

/// Relies on ratatui's `Layout::split` with `Direction::Horizontal` and the constraints
/// `Fill(1), Fill(2), Fill(1)`: three columns, each of the full height of `area` and lying
/// between its left and right edges.
#[verifier::external_body]
pub(crate) fn split_columns(area: Area) -> (r: Vec<Area>)
    ensures
        r@.len() == 3,
        forall|i: int| 0 <= i < 3 ==> (#[trigger] r@[i]).is_column_of(area),
{
    let rect = Rect { x: area.x, y: area.y, width: area.width, height: area.height };
    let parts = Layout::horizontal([Constraint::Fill(1), Constraint::Fill(2), Constraint::Fill(1)])
        .split(rect);
    parts.iter().map(|p| Area { x: p.x, y: p.y, width: p.width, height: p.height }).collect()
}

/// Relies on ratatui's `Layout::split` with `Direction::Vertical`, `Flex::Start` and one
/// `Constraint::Length` per entry of `lengths`: one row band per entry, each of the full
/// width of `area` and lying between its top and bottom edges.
#[verifier::external_body]
pub(crate) fn split_rows(area: Area, lengths: &Vec<u16>) -> (r: Vec<Area>)
    ensures
        r@.len() == lengths@.len(),
        forall|i: int| 0 <= i < r@.len() ==> (#[trigger] r@[i]).is_row_of(area),
{
    let rect = Rect { x: area.x, y: area.y, width: area.width, height: area.height };
    let constraints: Vec<Constraint> = lengths.iter().map(|h| Constraint::Length(*h)).collect();
    let parts = Layout::vertical(constraints).flex(Flex::Start).split(rect);
    parts.iter().map(|p| Area { x: p.x, y: p.y, width: p.width, height: p.height }).collect()
}

} // verus!

//! The widgets that paint a notebook: a text field, a bordered cell and the notebook itself.
use ratatui::buffer::Buffer;
use ratatui::layout::Rect;
use ratatui::text::Text;
use ratatui::widgets::{Block, Widget};
use vstd::prelude::*;

use crate::datatypes;
use crate::geometry::{bordered_inner, split_columns, split_rows, sat_add, Area};
use crate::text::{display_width, last_line_width, newline_count, newlines, trailing_line};

verus! {

/// ratatui's grid of styled cells, which the widgets paint into; it is carried through to
/// the painting calls and its contents are not modelled here.
#[verifier::external_type_specification]
#[verifier::external_body]
pub struct ExBuffer(Buffer);

/// Relies on ratatui's `Widget::render` for `Text`: paints `s` line by line from the
/// top-left corner of `area`, clipped to the buffer.
#[verifier::external_body]
fn paint_text(s: &str, area: Area, buf: &mut Buffer) {
    let rect = Rect { x: area.x, y: area.y, width: area.width, height: area.height };
    Text::from(s).render(rect, buf);
}

/// Relies on ratatui's `Widget::render` for `Block::bordered()`: paints a frame along the
/// edges of `area`, clipped to the buffer.
#[verifier::external_body]
fn paint_border(area: Area, buf: &mut Buffer) {
    let rect = Rect { x: area.x, y: area.y, width: area.width, height: area.height };
    Block::bordered().render(rect, buf);
}

/// The on-screen cursor for a caret at column `cx` and row `cy` of a field painted into
/// `area`, held at the largest coordinate where it would pass it.
pub open spec fn cursor_at(area: Area, cx: nat, cy: nat) -> (u16, u16) {
    (sat_add(area.x as int, cx as int), sat_add(area.y as int, cy as int))
}

/// The caret's column: the displayed width of the text after the last newline.
pub open spec fn caret_column(s: Seq<char>) -> nat {
    display_width(trailing_line(s))
}

/// The caret's row: the number of newlines.
pub open spec fn caret_row(s: Seq<char>) -> nat {
    newline_count(s)
}

/// The number of rows that a cell with code `code` needs: its lines plus two borders.
pub open spec fn cell_height(code: Seq<char>) -> nat {
    newline_count(code) + 3
}

/// The rows needed by each cell, in order.
pub open spec fn heights(cells: Seq<datatypes::Cell>) -> Seq<nat> {
    Seq::new(cells.len(), |i: int| cell_height(cells[i].code@))
}

/// The rows taken by the first `k` entries of `hs`.
pub open spec fn sum_first(hs: Seq<nat>, k: int) -> nat
    decreases k,
{
    if k <= 0 {
        0
    } else {
        sum_first(hs, k - 1) + hs[k - 1]
    }
}

/// Walking on from entry `k`: the number of leading entries that fit in `limit` rows,
/// stopping at the first one that does not.
pub open spec fn fit_count_from(hs: Seq<nat>, limit: nat, k: int) -> nat
    decreases hs.len() - k,
{
    if 0 <= k < hs.len() && sum_first(hs, k + 1) <= limit {
        fit_count_from(hs, limit, k + 1)
    } else if k < 0 {
        0
    } else {
        k as nat
    }
}

/// The number of leading entries of `hs` that fit, one under the other, in `limit` rows.
pub open spec fn fit_count(hs: Seq<nat>, limit: nat) -> nat {
    fit_count_from(hs, limit, 0)
}

/// A text field: a text buffer painted from the top-left corner of its area.
pub struct Textarea<'a> {
    pub data: &'a str,
    pub focused: bool,
}

impl<'a> Textarea<'a> {
    pub fn new(data: &'a str) -> (r: Self)
        ensures
            r.data == data,
            !r.focused,
    {
        Textarea { data, focused: false }
    }

    pub fn focused(self, focused: bool) -> (r: Self)
        ensures
            r.data == self.data,
            r.focused == focused,
    {
        let mut s = self;
        s.focused = focused;
        s
    }

    /// The caret's column: the displayed width of the text after the last newline, or of
    /// the whole buffer where it has none.
    pub fn caret_x(&self) -> (r: usize)
        ensures
            r as nat == caret_column(self.data@),
    {
        last_line_width(self.data)
    }

    /// The caret's row: the number of newlines in the buffer.
    pub fn caret_y(&self) -> (r: usize)
        ensures
            r as nat == caret_row(self.data@),
    {
        newlines(self.data)
    }

    /// The caret as (column, row); it sits at the end of the buffer.
    pub fn caret(&self) -> (r: (usize, usize))
        ensures
            r.0 as nat == caret_column(self.data@),
            r.1 as nat == caret_row(self.data@),
    {
        (self.caret_x(), self.caret_y())
    }

    /// Paints the buffer into `area`; where the field is focused, records the caret's
    /// on-screen position in `state`, and otherwise leaves `state` as it was.
    pub fn render(self, area: Area, buf: &mut Buffer, state: &mut Option<(u16, u16)>)
        ensures
            self.focused ==> *final(state) == Some(
                cursor_at(area, caret_column(self.data@), caret_row(self.data@)),
            ),
            !self.focused ==> *final(state) == *old(state),
    {
        if self.focused {
            let (cx, cy) = self.caret();
            *state = Some(cursor_position(area, cx, cy));
        }
        paint_text(self.data, area, buf);
    }
}

/// The on-screen position of a caret at column `cx` and row `cy` of a text field painted
/// into `area`: its origin moved by the caret, held at the largest coordinate.
pub fn cursor_position(area: Area, cx: usize, cy: usize) -> (r: (u16, u16))
    ensures
        r == cursor_at(area, cx as nat, cy as nat),
{
    (offset(area.x, cx), offset(area.y, cy))
}

/// `base + d`, held at `u16::MAX` where it would pass it.
fn offset(base: u16, d: usize) -> (r: u16)
    ensures
        r == sat_add(base as int, d as int),
{
    if d >= (u16::MAX - base) as usize {
        u16::MAX
    } else {
        base + d as u16
    }
}


/// Running totals of rows never shrink.
pub proof fn lemma_sum_first_monotone(hs: Seq<nat>, a: int, b: int)
    requires
        a <= b,
    ensures
        sum_first(hs, a) <= sum_first(hs, b),
    decreases b - a,
{
    if a < b {
        lemma_sum_first_monotone(hs, a, b - 1);
    }
}

/// Walking on from a leading run that fits ends on a longer run that fits, and stops only
/// at the end or at an entry that would overflow.
pub proof fn lemma_fit_count_from(hs: Seq<nat>, limit: nat, k: int)
    requires
        0 <= k <= hs.len(),
        sum_first(hs, k) <= limit,
    ensures
        k <= fit_count_from(hs, limit, k) <= hs.len(),
        sum_first(hs, fit_count_from(hs, limit, k) as int) <= limit,
        fit_count_from(hs, limit, k) < hs.len() ==> sum_first(
            hs,
            fit_count_from(hs, limit, k) + 1 as int,
        ) > limit,
    decreases hs.len() - k,
{
    if k < hs.len() && sum_first(hs, k + 1) <= limit {
        lemma_fit_count_from(hs, limit, k + 1);
    }
}

/// The cells that are painted are exactly a leading run of the notebook, and together they
/// take no more rows than are available.
pub proof fn lemma_fit_count(hs: Seq<nat>, limit: nat)
    ensures
        fit_count(hs, limit) <= hs.len(),
        sum_first(hs, fit_count(hs, limit) as int) <= limit,
        fit_count(hs, limit) < hs.len() ==> sum_first(hs, fit_count(hs, limit) + 1 as int) > limit,
{
    lemma_fit_count_from(hs, limit, 0);
}

/// Once the running total of rows through cell `i` exceeds the rows available, neither
/// cell `i` nor any later cell `j` is painted, whatever the height of cell `j` alone.
pub proof fn lemma_truncation_is_final(hs: Seq<nat>, limit: nat, i: int, j: int)
    requires
        0 <= i < j < hs.len(),
        sum_first(hs, i + 1) > limit,
    ensures
        fit_count(hs, limit) <= i,
        fit_count(hs, limit) < j,
{
    lemma_fit_count(hs, limit);
    if fit_count(hs, limit) > i {
        lemma_sum_first_monotone(hs, i + 1, fit_count(hs, limit) as int);
    }
}

/// A caret that falls within its field's area puts the cursor inside that area: the
/// cursor written by a focused field at origin `(area.x, area.y)` lies in
/// `area.x <= x < area.x + area.width` and `area.y <= y < area.y + area.height`.
pub proof fn lemma_cursor_in_field(area: Area, cx: nat, cy: nat)
    requires
        area.wf(),
        cx < area.width,
        cy < area.height,
    ensures
        area.contains(cursor_at(area, cx, cy).0 as int, cursor_at(area, cx, cy).1 as int),
{
}

/// In a buffer without a newline the caret sits on row 0, at the displayed width of the
/// whole buffer.
pub proof fn lemma_caret_of_single_line(s: Seq<char>)
    requires
        newline_count(s) == 0,
    ensures
        caret_column(s) == display_width(s),
        caret_row(s) == 0,
{
    crate::text::lemma_single_line(s);
}

/// In a buffer whose last newline is followed by `q`, the caret sits at the displayed width
/// of `q`, on the row after the newlines of the text before it.
pub proof fn lemma_caret_after_newline(p: Seq<char>, q: Seq<char>)
    requires
        newline_count(q) == 0,
    ensures
        caret_column(p.push('\n') + q) == display_width(q),
        caret_row(p.push('\n') + q) == newline_count(p) + 1,
{
    crate::text::lemma_after_last_newline(p, q);
}

/// A bordered frame around a text field: one cell of a notebook.
pub struct Cell<'a> {
    pub data: &'a datatypes::Cell,
    pub focused: bool,
}

impl<'a> Cell<'a> {
    pub fn new(data: &'a datatypes::Cell) -> (r: Self)
        ensures
            r.data == data,
            !r.focused,
    {
        Cell { data, focused: false }
    }

    pub fn focused(self, focused: bool) -> (r: Self)
        ensures
            r.data == self.data,
            r.focused == focused,
    {
        let mut s = self;
        s.focused = focused;
        s
    }

    /// The rows that `data` needs: one per newline of its code, plus three for the line
    /// itself and the two borders.
    pub fn get_height(data: &datatypes::Cell) -> (r: usize)
        requires
            data.code@.len() + 3 <= usize::MAX,
        ensures
            r as nat == cell_height(data.code@),
    {
        proof {
            crate::text::lemma_newline_count_bound(data.code@);
        }
        newlines(data.code.as_str()) + 3
    }

    /// Paints a frame over `area` and the code inside it; where the cell is focused, records
    /// the caret's on-screen position in `state`, and otherwise leaves `state` as it was.
    pub fn render(self, area: Area, buf: &mut Buffer, state: &mut Option<(u16, u16)>)
        ensures
            self.focused ==> *final(state) == Some(
                cursor_at(
                    area.inside_border(),
                    caret_column(self.data.code@),
                    caret_row(self.data.code@),
                ),
            ),
            !self.focused ==> *final(state) == *old(state),
    {
        let inner = bordered_inner(area);
        let field = Textarea::new(self.data.code.as_str()).focused(self.focused);
        paint_border(area, buf);
        field.render(inner, buf, state);
    }
}


/// `r` lies inside `outer`.
pub open spec fn lies_in(r: Area, outer: Area) -> bool {
    &&& outer.x <= r.x
    &&& r.x + r.width <= outer.right()
    &&& outer.y <= r.y
    &&& r.y + r.height <= outer.bottom()
}

/// Paints the cells of a notebook, one under the other, in the middle column of its area.
pub struct Notebook<'a> {
    pub data: &'a datatypes::Notebook,
    /// The index of the cell whose text field is focused.
    pub selected: usize,
}

impl<'a> Notebook<'a> {
    pub fn new(data: &'a datatypes::Notebook) -> (r: Self)
        ensures
            r.data == data,
            r.selected == 0,
    {
        Notebook { data, selected: 0 }
    }

    /// The heights of the leading cells that fit, one under the other, in `limit` rows;
    /// walking stops at the first cell that does not fit.
    pub fn fitting_heights(&self, limit: u16) -> (r: Vec<u16>)
        ensures
            r@.len() == fit_count(heights(self.data.cells@), limit as nat),
            forall|i: int| 0 <= i < r@.len() ==> r@[i] as nat == heights(self.data.cells@)[i],
            sum_first(heights(self.data.cells@), r@.len() as int) <= limit,
    {
        let ghost hs = heights(self.data.cells@);
        let n = self.data.cells.len();
        let mut r: Vec<u16> = Vec::new();
        let mut acc: u16 = 0;
        let mut i: usize = 0;
        let mut full = false;
        while i < n && !full
            invariant
                n == self.data.cells@.len(),
                hs == heights(self.data.cells@),
                i <= n,
                r@.len() == i,
                acc as nat == sum_first(hs, i as int),
                acc <= limit,
                forall|j: int| 0 <= j < i ==> r@[j] as nat == hs[j],
                full ==> fit_count(hs, limit as nat) == i,
                !full ==> fit_count_from(hs, limit as nat, i as int) == fit_count(hs, limit as nat),
            decreases n - i, if full { 0int } else { 1int },
        {
            let lines = newlines(self.data.cells[i].code.as_str());
            let room = limit - acc;
            assert(hs[i as int] == lines + 3);
            if room < 3 || lines > (room - 3) as usize {
                full = true;
            } else {
                let h = lines as u16 + 3;
                r.push(h);
                acc = acc + h;
                i = i + 1;
            }
        }
        r
    }

    /// The band of rows that each painted cell takes: the cells that fit in the height of
    /// `area`, in order, each inside the middle column of `area`.
    pub fn cell_areas(&self, area: Area) -> (r: Vec<Area>)
        ensures
            r@.len() == fit_count(heights(self.data.cells@), area.height as nat),
            forall|i: int| 0 <= i < r@.len() ==> lies_in(#[trigger] r@[i], area),
            forall|i: int| 0 <= i < r@.len() ==> (#[trigger] r@[i]).x == r@[0].x && r@[i].width == r@[0].width,
    {
        let columns = split_columns(area);
        let lengths = self.fitting_heights(area.height);
        let rows = split_rows(columns[1], &lengths);
        proof {
            assert(columns@[1].is_column_of(area));
            assert forall|i: int| 0 <= i < rows@.len() implies lies_in(#[trigger] rows@[i], area) by {
                assert(rows@[i].is_row_of(columns@[1]));
            }
        }
        rows
    }

    /// Paints every cell that fits into `area` and leaves the rest out. `state` is set
    /// afresh: to the caret's on-screen position in the selected cell where that cell is
    /// painted, and to nothing otherwise.
    pub fn render(self, area: Area, buf: &mut Buffer, state: &mut Option<(u16, u16)>)
        ensures
            (*final(state) is Some) <==> self.selected < fit_count(
                heights(self.data.cells@),
                area.height as nat,
            ),
            self.selected < fit_count(heights(self.data.cells@), area.height as nat) ==> exists|
                r: Area,
            |
                lies_in(r, area) && *final(state) == Some(
                    cursor_at(
                        r.inside_border(),
                        caret_column(self.data.cells@[self.selected as int].code@),
                        caret_row(self.data.cells@[self.selected as int].code@),
                    ),
                ),
    {
        let areas = self.cell_areas(area);
        let ghost k = fit_count(heights(self.data.cells@), area.height as nat);
        proof {
            lemma_fit_count(heights(self.data.cells@), area.height as nat);
        }
        *state = None;
        let mut i: usize = 0;
        while i < areas.len()
            invariant
                areas@.len() == k,
                k <= self.data.cells@.len(),
                forall|j: int| 0 <= j < areas@.len() ==> lies_in(#[trigger] areas@[j], area),
                i <= areas@.len(),
                self.selected < i ==> *state == Some(
                    cursor_at(
                        areas@[self.selected as int].inside_border(),
                        caret_column(self.data.cells@[self.selected as int].code@),
                        caret_row(self.data.cells@[self.selected as int].code@),
                    ),
                ),
                self.selected >= i ==> *state == None::<(u16, u16)>,
            decreases areas@.len() - i,
        {
            let cell = Cell::new(&self.data.cells[i]).focused(i == self.selected);
            cell.render(areas[i], buf, state);
            i = i + 1;
        }
        proof {
            if self.selected < k {
                assert(lies_in(areas@[self.selected as int], area));
            }
        }
    }
}

} // verus!

use notebook_tui::datatypes;
use notebook_tui::geometry::Area;
use notebook_tui::text::{last_line_start, last_line_width, newlines};
use notebook_tui::widgets::{cursor_position, Cell, Notebook, Textarea};
use ratatui::buffer::Buffer;
use ratatui::layout::Rect;

fn cell(code: &str) -> datatypes::Cell {
    datatypes::Cell { code: code.to_string(), result: None }
}

fn notebook(codes: &[&str]) -> datatypes::Notebook {
    datatypes::Notebook { cells: codes.iter().map(|c| cell(c)).collect() }
}

fn row_text(buf: &Buffer, y: u16) -> String {
    (0..buf.area.width).map(|x| buf[(x, y)].symbol().to_string()).collect()
}

#[test]
fn height_is_newlines_plus_three() {
    assert_eq!(Cell::get_height(&cell("console.log(123)")), 3);
    assert_eq!(Cell::get_height(&cell("")), 3);
    assert_eq!(Cell::get_height(&cell("a\nb\nc")), 5);
    assert_eq!(Cell::get_height(&cell("\n\n\n")), 6);
}

#[test]
fn newline_scan() {
    assert_eq!(newlines("ab\ncd\n"), 2);
    assert_eq!(newlines("héllo"), 0);
    assert_eq!(last_line_start("ab\ncd"), 3);
    assert_eq!(last_line_start("abc"), 0);
    assert_eq!(last_line_start("ab\n"), 3);
}

#[test]
fn caret_after_newline() {
    let t = Textarea::new("ab\ncd");
    assert_eq!(t.caret_y(), 1);
    assert_eq!(t.caret_x(), 2);
    assert_eq!(t.caret(), (2, 1));
}

#[test]
fn caret_without_newline_is_full_width() {
    let t = Textarea::new("console.log(123)");
    assert_eq!(t.caret(), (16, 0));
    assert_eq!(Textarea::new("").caret(), (0, 0));
}

#[test]
fn caret_counts_display_columns() {
    assert_eq!(Textarea::new("你好").caret_x(), 4);
    assert_eq!(Textarea::new("x\n你好a").caret(), (5, 1));
    assert_eq!(last_line_width("abc\n你"), 2);
}

#[test]
fn caret_after_trailing_newline() {
    assert_eq!(Textarea::new("abc\n").caret(), (0, 1));
}

#[test]
fn textarea_builder() {
    let t = Textarea::new("x");
    assert!(!t.focused);
    let t = t.focused(true);
    assert!(t.focused);
    assert_eq!(t.data, "x");
}

#[test]
fn focused_textarea_writes_cursor() {
    let mut buf = Buffer::empty(Rect::new(0, 0, 20, 10));
    let mut state = None;
    Textarea::new("ab\ncd").focused(true).render(Area::new(2, 3, 10, 5), &mut buf, &mut state);
    assert_eq!(state, Some((4, 4)));
    assert_eq!(row_text(&buf, 3), "  ab                ");
    assert_eq!(row_text(&buf, 4), "  cd                ");
}

#[test]
fn unfocused_textarea_keeps_state() {
    let mut buf = Buffer::empty(Rect::new(0, 0, 20, 10));
    let mut state = Some((7, 7));
    Textarea::new("ab").render(Area::new(0, 0, 10, 5), &mut buf, &mut state);
    assert_eq!(state, Some((7, 7)));
    let mut none = None;
    Textarea::new("ab").render(Area::new(0, 0, 10, 5), &mut buf, &mut none);
    assert_eq!(none, None);
}

#[test]
fn cursor_saturates_at_coordinate_limit() {
    let mut buf = Buffer::empty(Rect::new(0, 0, 4, 4));
    let mut state = None;
    Textarea::new("0123456789").focused(true).render(Area::new(65530, 1, 5, 1), &mut buf, &mut state);
    assert_eq!(state, Some((65535, 1)));
}

#[test]
fn cell_frames_its_text() {
    let data = cell("ab");
    let mut buf = Buffer::empty(Rect::new(0, 0, 6, 3));
    let mut state = None;
    let c = Cell::new(&data);
    assert!(!c.focused);
    c.focused(true).render(Area::new(0, 0, 6, 3), &mut buf, &mut state);
    assert_eq!(state, Some((3, 1)));
    assert_eq!(row_text(&buf, 0), "┌────┐");
    assert_eq!(row_text(&buf, 1), "│ab  │");
    assert_eq!(row_text(&buf, 2), "└────┘");
}

#[test]
fn unfocused_cell_keeps_state() {
    let data = cell("ab");
    let mut buf = Buffer::empty(Rect::new(0, 0, 6, 3));
    let mut state = None;
    Cell::new(&data).render(Area::new(0, 0, 6, 3), &mut buf, &mut state);
    assert_eq!(state, None);
}

#[test]
fn notebook_new_selects_first() {
    let data = notebook(&["a"]);
    let nb = Notebook::new(&data);
    assert_eq!(nb.selected, 0);
    assert_eq!(nb.data.cells.len(), 1);
}

#[test]
fn two_cells_fit_in_ten_rows() {
    let data = notebook(&["console.log(123)", "console.log(true)"]);
    let nb = Notebook::new(&data);
    assert_eq!(nb.fitting_heights(10), vec![3, 3]);
    let areas = nb.cell_areas(Area::new(0, 0, 40, 10));
    assert_eq!(areas, vec![Area::new(10, 0, 20, 3), Area::new(10, 3, 20, 3)]);
}

#[test]
fn two_cells_render_in_center_band() {
    let data = notebook(&["console.log(123)", "console.log(true)"]);
    let mut buf = Buffer::empty(Rect::new(0, 0, 40, 10));
    let mut state = None;
    Notebook::new(&data).render(Area::new(0, 0, 40, 10), &mut buf, &mut state);
    assert_eq!(row_text(&buf, 0), format!("{}┌{}┐{}", " ".repeat(10), "─".repeat(18), " ".repeat(10)));
    assert_eq!(row_text(&buf, 1), format!("{}│console.log(123)  │{}", " ".repeat(10), " ".repeat(10)));
    assert_eq!(row_text(&buf, 4), format!("{}│console.log(true) │{}", " ".repeat(10), " ".repeat(10)));
    assert_eq!(row_text(&buf, 5), format!("{}└{}┘{}", " ".repeat(10), "─".repeat(18), " ".repeat(10)));
    for y in 6..10 {
        assert_eq!(row_text(&buf, y), " ".repeat(40));
    }
    assert_eq!(state, Some((11 + 16, 1)));
}

#[test]
fn second_cell_dropped_in_five_rows() {
    let data = notebook(&["console.log(123)", "console.log(true)"]);
    let nb = Notebook::new(&data);
    assert_eq!(nb.fitting_heights(5), vec![3]);
    let areas = nb.cell_areas(Area::new(0, 0, 40, 5));
    assert_eq!(areas, vec![Area::new(10, 0, 20, 3)]);
    let mut buf = Buffer::empty(Rect::new(0, 0, 40, 5));
    let mut state = None;
    Notebook::new(&data).render(Area::new(0, 0, 40, 5), &mut buf, &mut state);
    assert_eq!(row_text(&buf, 3), " ".repeat(40));
    assert_eq!(row_text(&buf, 4), " ".repeat(40));
}

#[test]
fn empty_notebook_paints_nothing() {
    let data = notebook(&[]);
    let nb = Notebook::new(&data);
    assert!(nb.cell_areas(Area::new(0, 0, 40, 10)).is_empty());
    let mut buf = Buffer::empty(Rect::new(0, 0, 40, 10));
    let mut state = Some((1, 1));
    Notebook::new(&data).render(Area::new(0, 0, 40, 10), &mut buf, &mut state);
    assert_eq!(buf, Buffer::empty(Rect::new(0, 0, 40, 10)));
    assert_eq!(state, None);
}

#[test]
fn truncation_stops_at_first_misfit() {
    let data = notebook(&["a", "1\n2\n3\n4\n5\n6\n7", "b"]);
    let nb = Notebook::new(&data);
    assert_eq!(nb.fitting_heights(8), vec![3]);
    assert_eq!(nb.cell_areas(Area::new(0, 0, 8, 8)).len(), 1);
}

#[test]
fn cell_taller_than_band_is_omitted() {
    let data = notebook(&["1\n2\n3\n4\n5"]);
    let nb = Notebook::new(&data);
    assert!(nb.fitting_heights(6).is_empty());
    assert_eq!(nb.fitting_heights(7), vec![7]);
}

#[test]
fn nothing_below_the_area() {
    let data = notebook(&["a", "b", "c"]);
    let mut buf = Buffer::empty(Rect::new(0, 0, 12, 12));
    let mut state = None;
    Notebook::new(&data).render(Area::new(0, 2, 12, 7), &mut buf, &mut state);
    for y in [0u16, 1, 8, 9, 10, 11] {
        assert_eq!(row_text(&buf, y), " ".repeat(12));
    }
    for r in Notebook::new(&data).cell_areas(Area::new(0, 2, 12, 7)) {
        assert!(r.y >= 2 && r.y + r.height <= 9);
    }
}

#[test]
fn selected_cell_sets_cursor() {
    let data = notebook(&["a", "x\nyz"]);
    let mut nb = Notebook::new(&data);
    nb.selected = 1;
    let mut buf = Buffer::empty(Rect::new(0, 0, 40, 10));
    let mut state = None;
    nb.render(Area::new(0, 0, 40, 10), &mut buf, &mut state);
    assert_eq!(state, Some((13, 5)));
}

#[test]
fn selected_cell_out_of_view_clears_cursor() {
    let data = notebook(&["a", "b"]);
    let mut nb = Notebook::new(&data);
    nb.selected = 1;
    let mut buf = Buffer::empty(Rect::new(0, 0, 40, 4));
    let mut state = Some((3, 3));
    nb.render(Area::new(0, 0, 40, 4), &mut buf, &mut state);
    assert_eq!(state, None);
}

#[test]
fn zero_size_area_paints_nothing() {
    let data = notebook(&["a"]);
    let mut buf = Buffer::empty(Rect::new(0, 0, 8, 8));
    let mut state = None;
    Notebook::new(&data).render(Area::new(0, 0, 0, 0), &mut buf, &mut state);
    assert_eq!(buf, Buffer::empty(Rect::new(0, 0, 8, 8)));
    assert_eq!(state, None);
}

#[test]
fn area_constructor() {
    let a = Area::new(1, 2, 3, 4);
    assert_eq!((a.x, a.y, a.width, a.height), (1, 2, 3, 4));
}

#[test]
fn cursor_position_offsets_origin() {
    assert_eq!(cursor_position(Area::new(2, 3, 10, 5), 2, 1), (4, 4));
    assert_eq!(cursor_position(Area::new(0, 0, 10, 5), 0, 0), (0, 0));
    assert_eq!(cursor_position(Area::new(65530, 65534, 5, 1), 7, 3), (65535, 65535));
}

#[test]
fn cursor_stays_in_field_for_short_line() {
    let area = Area::new(5, 7, 8, 3);
    let t = Textarea::new("x\nabc");
    let (cx, cy) = t.caret();
    assert!(cx < area.width as usize && cy < area.height as usize);
    let (x, y) = cursor_position(area, cx, cy);
    assert!(area.x <= x && x < area.x + area.width);
    assert!(area.y <= y && y < area.y + area.height);
    assert_eq!((x, y), (8, 8));
}

//! The screen buffer on concrete values.

use rust_terminal::colors::{DEFAULT_BG, DEFAULT_FG};
use rust_terminal::grid::{Cell, CursorStyle, Grid, FLAG_BOLD};

fn write(g: &mut Grid, s: &str) {
    for c in s.chars() {
        match c {
            '\n' => {
                g.carriage_return();
                g.line_feed();
            }
            _ => g.put(c),
        }
    }
}

fn row(g: &Grid, y: usize) -> String {
    g.display_line(y).iter().map(|c| c.ch).collect()
}

fn rows(g: &Grid) -> Vec<String> {
    (0..g.rows).map(|y| row(g, y)).collect()
}

#[test]
fn new_grid_is_blank() {
    let g = Grid::new(3, 2, 10);
    assert_eq!((g.cols, g.rows), (3, 2));
    assert_eq!(rows(&g), vec!["   ", "   "]);
    assert_eq!((g.cx, g.cy, g.top, g.bot), (0, 0, 0, 1));
    assert!(g.cursor_visible);
    assert_eq!(g.cursor_style, CursorStyle::Block);
    assert_eq!(g.display_line(0)[0], Cell { ch: ' ', fg: DEFAULT_FG, bg: DEFAULT_BG, flags: 0 });
    assert_eq!(Cell::default(), g.display_line(1)[2]);
}

#[test]
fn a_grid_has_at_least_one_cell() {
    let mut g = Grid::new(0, 0, 0);
    assert_eq!((g.cols, g.rows), (1, 1));
    g.resize(0, 5);
    assert_eq!((g.cols, g.rows), (1, 5));
}

#[test]
fn text_wraps_late() {
    let mut g = Grid::new(3, 2, 10);
    write(&mut g, "abc");
    assert_eq!((g.cx, g.cy), (2, 0));
    assert!(g.wrap_pending);
    write(&mut g, "d");
    assert_eq!(rows(&g), vec!["abc", "d  "]);
    assert_eq!((g.cx, g.cy), (1, 1));
    assert!(!g.wrap_pending);
}

#[test]
fn cells_take_the_attributes_of_the_pen() {
    let mut g = Grid::new(3, 1, 0);
    g.fg = 1;
    g.bg = 2;
    g.flags = FLAG_BOLD;
    g.put('x');
    assert_eq!(g.display_line(0)[0], Cell { ch: 'x', fg: 1, bg: 2, flags: FLAG_BOLD });
    g.reset_attrs();
    assert_eq!((g.fg, g.bg, g.flags), (DEFAULT_FG, DEFAULT_BG, 0));
}

#[test]
fn backspace_stops_at_the_margin() {
    let mut g = Grid::new(4, 1, 0);
    write(&mut g, "ab");
    g.backspace();
    assert_eq!(g.cx, 1);
    g.backspace();
    g.backspace();
    assert_eq!(g.cx, 0);
}

#[test]
fn tab_stops_every_eight_columns() {
    let mut g = Grid::new(20, 1, 0);
    g.tab();
    assert_eq!(g.cx, 8);
    g.put('x');
    g.tab();
    assert_eq!(g.cx, 16);
    g.tab();
    assert_eq!(g.cx, 19);
}

#[test]
fn cursor_moves_stay_on_screen() {
    let mut g = Grid::new(5, 4, 0);
    g.set_cursor(2, 1);
    g.move_cursor(1, 2);
    assert_eq!((g.cx, g.cy), (3, 3));
    g.move_cursor(100, 100);
    assert_eq!((g.cx, g.cy), (4, 3));
    g.move_cursor(isize::MIN, isize::MIN);
    assert_eq!((g.cx, g.cy), (0, 0));
    g.set_cursor(usize::MAX, usize::MAX);
    assert_eq!((g.cx, g.cy), (4, 3));
}

#[test]
fn scrolling_keeps_every_line() {
    let mut g = Grid::new(2, 2, 10);
    write(&mut g, "a\nb\nc\nd");
    assert_eq!(rows(&g), vec!["c ", "d "]);
    let history: Vec<char> = g.scrollback.iter().map(|l| l[0].ch).collect();
    assert_eq!(history, vec!['a', 'b']);
}

#[test]
fn history_holds_the_newest_lines() {
    let mut g = Grid::new(1, 1, 2);
    write(&mut g, "a\nb\nc\nd");
    let history: Vec<char> = g.scrollback.iter().map(|l| l[0].ch).collect();
    assert_eq!(history, vec!['b', 'c']);
    let mut none = Grid::new(1, 1, 0);
    write(&mut none, "a\nb");
    assert_eq!(none.scrollback.len(), 0);
}

#[test]
fn partial_scroll_keeps_history() {
    let mut g = Grid::new(1, 4, 10);
    write(&mut g, "a\nb\nc\nd");
    g.scroll_up_in(1, 2, 1, true);
    assert_eq!(rows(&g), vec!["a", "c", " ", "d"]);
    assert_eq!(g.scrollback.len(), 0);
    g.scroll_up_in(0, 3, 1, false);
    assert_eq!(g.scrollback.len(), 0);
    assert_eq!(rows(&g), vec!["c", " ", "d", " "]);
}

#[test]
fn scroll_stays_in_region() {
    let mut g = Grid::new(1, 4, 10);
    write(&mut g, "a\nb\nc\nd");
    g.scroll_down_in(1, 2, 1);
    assert_eq!(rows(&g), vec!["a", " ", "b", "d"]);
}

#[test]
fn scroll_down_and_up_blanks_the_end() {
    let mut g = Grid::new(1, 4, 10);
    write(&mut g, "a\nb\nc\nd");
    g.scroll_down_in(0, 3, 2);
    g.scroll_up_in(0, 3, 2, false);
    assert_eq!(rows(&g), vec!["a", "b", " ", " "]);
}

#[test]
fn scrolling_by_more_than_the_region_blanks_it() {
    let mut g = Grid::new(1, 3, 10);
    write(&mut g, "a\nb\nc");
    g.scroll_up_in(0, 2, 99, true);
    assert_eq!(rows(&g), vec![" ", " ", " "]);
    assert_eq!(g.scrollback.len(), 3);
    g.scroll_down_in(0, 2, 0);
    assert_eq!(rows(&g), vec![" ", " ", " "]);
}

#[test]
fn lines_are_inserted_and_deleted_in_the_region() {
    let mut g = Grid::new(1, 4, 10);
    write(&mut g, "a\nb\nc\nd");
    g.set_scroll_region(0, 2);
    g.set_cursor(0, 1);
    g.insert_lines(1);
    assert_eq!(rows(&g), vec!["a", " ", "b", "d"]);
    g.delete_lines(1);
    assert_eq!(rows(&g), vec!["a", "b", " ", "d"]);
    g.set_cursor(0, 3);
    g.insert_lines(1);
    g.delete_lines(1);
    assert_eq!(rows(&g), vec!["a", "b", " ", "d"]);
}

#[test]
fn characters_inserted_and_deleted() {
    let mut g = Grid::new(5, 1, 0);
    write(&mut g, "abcd");
    g.set_cursor(1, 0);
    g.insert_chars(2);
    assert_eq!(row(&g, 0), "a  bc");
    g.delete_chars(2);
    assert_eq!(row(&g, 0), "abc  ");
    g.delete_chars(99);
    assert_eq!(row(&g, 0), "a    ");
}

#[test]
fn erase_chars_stops_at_the_margin() {
    let mut g = Grid::new(4, 1, 0);
    write(&mut g, "abcd");
    g.set_cursor(1, 0);
    g.erase_chars(1);
    assert_eq!(row(&g, 0), "a cd");
    g.erase_chars(usize::MAX);
    assert_eq!(row(&g, 0), "a   ");
}

#[test]
fn erase_halves_make_the_whole() {
    let fill = |g: &mut Grid| {
        write(g, "abc\ndef\nghi");
        g.set_cursor(1, 1);
    };
    let mut below = Grid::new(3, 3, 0);
    fill(&mut below);
    below.erase_display(0);
    assert_eq!(rows(&below), vec!["abc", "d  ", "   "]);
    below.erase_display(1);
    assert_eq!(rows(&below), vec!["   ", "   ", "   "]);
    let mut above = Grid::new(3, 3, 0);
    fill(&mut above);
    above.erase_display(1);
    assert_eq!(rows(&above), vec!["   ", "  f", "ghi"]);
    let mut all = Grid::new(3, 3, 0);
    fill(&mut all);
    all.erase_display(2);
    assert_eq!(rows(&all), rows(&below));
    assert_eq!((all.cx, all.cy), (1, 1));
}

#[test]
fn erase_line_modes() {
    let make = || {
        let mut g = Grid::new(3, 2, 0);
        write(&mut g, "abc\ndef");
        g.set_cursor(1, 1);
        g
    };
    let mut g = make();
    g.erase_line(0);
    assert_eq!(rows(&g), vec!["abc", "d  "]);
    let mut g = make();
    g.erase_line(1);
    assert_eq!(rows(&g), vec!["abc", "  f"]);
    let mut g = make();
    g.erase_line(2);
    assert_eq!(rows(&g), vec!["abc", "   "]);
}

#[test]
fn erasing_leaves_the_current_background() {
    let mut g = Grid::new(2, 1, 0);
    g.bg = 7;
    g.flags = FLAG_BOLD;
    g.erase_line(2);
    assert_eq!(g.display_line(0)[0], Cell { ch: ' ', fg: DEFAULT_FG, bg: 7, flags: 0 });
}

#[test]
fn region_of_one_line_is_refused() {
    let mut g = Grid::new(2, 5, 0);
    g.set_cursor(1, 1);
    g.set_scroll_region(1, 3);
    assert_eq!((g.top, g.bot, g.cx, g.cy), (1, 3, 0, 0));
    g.set_scroll_region(2, 2);
    assert_eq!((g.top, g.bot), (0, 4));
    g.set_scroll_region(3, 99);
    assert_eq!((g.top, g.bot), (3, 4));
}

#[test]
fn line_feed_and_back_cancel_inside_the_region() {
    let mut g = Grid::new(2, 4, 0);
    write(&mut g, "a\nb\nc\nd");
    g.set_cursor(1, 1);
    let before = rows(&g);
    g.line_feed();
    g.reverse_line_feed();
    assert_eq!(rows(&g), before);
    assert_eq!((g.cx, g.cy), (1, 1));
    g.set_cursor(0, 0);
    g.reverse_line_feed();
    assert_eq!(rows(&g), vec!["  ", "a ", "b ", "c "]);
}

#[test]
fn restore_brings_back_what_was_saved() {
    let mut g = Grid::new(5, 5, 0);
    g.set_cursor(3, 2);
    g.fg = 9;
    g.flags = FLAG_BOLD;
    g.save_cursor();
    g.set_cursor(0, 0);
    g.reset_attrs();
    g.restore_cursor();
    assert_eq!((g.cx, g.cy, g.fg, g.flags), (3, 2, 9, FLAG_BOLD));
    let mut fresh = Grid::new(5, 5, 0);
    fresh.set_cursor(1, 1);
    fresh.restore_cursor();
    assert_eq!((fresh.cx, fresh.cy), (1, 1));
}

#[test]
fn alternate_screen_round_trip() {
    let mut g = Grid::new(3, 2, 10);
    write(&mut g, "abc\nd");
    g.enter_alt();
    assert_eq!(rows(&g), vec!["   ", "   "]);
    assert_eq!((g.cx, g.cy), (0, 0));
    write(&mut g, "xyz\nx\ny\nz");
    assert_eq!(g.scrollback.len(), 0);
    g.leave_alt();
    assert_eq!(rows(&g), vec!["abc", "d  "]);
    assert_eq!((g.cx, g.cy), (1, 1));
    g.enter_alt();
    assert_eq!(rows(&g), vec!["   ", "   "]);
}

#[test]
fn full_reset_clears_all_but_the_mouse_modes() {
    let mut g = Grid::new(2, 1, 5);
    write(&mut g, "a\nb");
    g.app_cursor = true;
    g.bracketed_paste = true;
    g.mouse_report = true;
    g.cursor_visible = false;
    g.full_reset();
    assert_eq!(rows(&g), vec!["  "]);
    assert_eq!(g.scrollback.len(), 0);
    assert!(!g.app_cursor && !g.bracketed_paste && g.cursor_visible && g.mouse_report);
}

#[test]
fn resize_keeps_the_corner() {
    let mut g = Grid::new(3, 3, 0);
    write(&mut g, "abc\ndef\nghi");
    g.set_scroll_region(0, 1);
    g.set_cursor(2, 2);
    g.resize(2, 2);
    assert_eq!(rows(&g), vec!["ab", "de"]);
    assert_eq!((g.cx, g.cy, g.top, g.bot), (1, 1, 0, 1));
    g.resize(3, 3);
    assert_eq!(rows(&g), vec!["ab ", "de ", "   "]);
}

#[test]
fn growing_and_shrinking_back_changes_nothing() {
    let mut g = Grid::new(3, 2, 0);
    write(&mut g, "abc\ndef");
    let before = rows(&g);
    g.resize(9, 7);
    g.resize(3, 2);
    assert_eq!(rows(&g), before);
}

#[test]
fn view_scrolls_within_the_history() {
    let mut g = Grid::new(1, 2, 10);
    write(&mut g, "a\nb\nc\nd");
    assert_eq!(g.max_offset(), 2);
    g.scroll_view(1);
    assert_eq!(rows(&g), vec!["b", "c"]);
    assert_eq!(g.display_vline(0), 1);
    g.scroll_view(isize::MAX);
    assert_eq!(g.view_offset, 2);
    assert_eq!(rows(&g), vec!["a", "b"]);
    g.scroll_view(isize::MIN);
    assert_eq!(g.view_offset, 0);
    g.scroll_view(2);
    g.snap_to_bottom();
    assert_eq!(rows(&g), vec!["c", "d"]);
    g.scroll_view(2);
    g.scrollback.clear();
    g.clamp_view();
    assert_eq!(g.view_offset, 0);
}

#[test]
fn selection_reads_in_order() {
    let mut g = Grid::new(5, 2, 10);
    write(&mut g, "ab\ncd ef\ngh");
    assert_eq!(g.scrollback.len(), 1);
    assert_eq!(g.sel_norm(), None);
    assert_eq!(g.selection_text(), "");
    g.sel_begin(2, 0);
    g.sel_update(0, 1);
    assert_eq!(g.sel_norm(), Some((0, 1, 2, 0)));
    assert_eq!(g.selection_text(), "b\r\ncd ef\r\ng");
    g.sel_begin(0, 1);
    g.sel_update(2, 0);
    assert_eq!(g.selection_text(), "b\r\ncd ef\r\ng");
    g.sel_begin(1, 0);
    g.sel_update(99, 0);
    assert_eq!(g.selection_text(), "cd ef\r\ngh\r\n");
    g.sel_clear();
    assert_eq!(g.selection_text(), "");
    g.sel_update(1, 1);
    assert!(g.selection.is_none());
}

//! Laws of editing: what scrolling, inserting, deleting, erasing, resizing and resetting make of
//! every cell, line by line and column by column, and what they leave alone.

use vstd::prelude::*;

use crate::colors::{DEFAULT_BG, DEFAULT_FG};
use crate::grid::{Cell, CursorStyle};
use crate::print_laws;
use crate::screen::GridView;

verus! {

/// From `g` to `r` cells of the screen being drawn on may have changed, and nothing else: the
/// cursor, the history and every mode are as they were.
pub open spec fn only_edited(g: GridView, r: GridView) -> bool {
    &&& print_laws::only_drawn(g, r)
    &&& r.cx == g.cx
    &&& r.cy == g.cy
    &&& r.wrap_pending == g.wrap_pending
    &&& r.lines().len() == g.rows
    &&& forall|y: int| 0 <= y < g.rows ==> (#[trigger] r.lines()[y]).len() == g.cols
}

// ---- scrolling ----

/// Scrolled up by `n`, each line of the region holds what the line `n` below it held, and the
/// lines that nothing moves into are blank, in the current colors.
pub proof fn law_scroll_up_moves_lines(
    g: GridView,
    top: int,
    bot: int,
    n: int,
    capture: bool,
    x: int,
    y: int,
)
    requires
        g.wf(),
        0 <= top <= bot < g.rows,
        0 <= n,
        0 <= x < g.cols,
        0 <= y < g.rows,
    ensures
        ({
            let r = g.scroll_up(top, bot, n, capture);
            &&& only_edited(g, GridView { scrollback: g.scrollback, ..r })
            &&& top <= y && y + n <= bot ==> r.lines()[y] == g.lines()[y + n]
            &&& top <= y <= bot && y + n > bot ==> r.lines()[y][x] == (Cell {
                ch: ' ',
                fg: g.fg,
                bg: g.bg,
                flags: 0,
            })
            &&& y < top || bot < y ==> r.lines()[y] == g.lines()[y]
        }),
{
}

/// The lines that a scroll takes off the whole primary screen follow the history in order, where
/// they are to be kept; the oldest lines go where that is more than the history holds.
pub proof fn law_scroll_up_feeds_history(g: GridView, n: int, i: int)
    requires
        g.wf(),
        !g.on_alt,
        0 <= n <= g.rows,
    ensures
        ({
            let r = g.scroll_up(0, g.rows - 1, n, true).scrollback;
            let all = g.scrollback.len() + n;
            let gone = if all > g.max_scrollback {
                all - g.max_scrollback
            } else {
                0
            };
            &&& r.len() == all - gone
            &&& 0 <= i < r.len() && i + gone < g.scrollback.len() ==> r[i] == g.scrollback[i + gone]
            &&& 0 <= i < r.len() && i + gone >= g.scrollback.len() ==> r[i] == g.lines()[i + gone
                - g.scrollback.len()]
        }),
{
}

/// Scrolled down by `n`, each line of the region holds what the line `n` above it held, and the
/// lines that nothing moves into are blank, in the current colors.
pub proof fn law_scroll_down_moves_lines(g: GridView, top: int, bot: int, n: int, x: int, y: int)
    requires
        g.wf(),
        0 <= top <= bot < g.rows,
        0 <= n,
        0 <= x < g.cols,
        0 <= y < g.rows,
    ensures
        ({
            let r = g.scroll_down(top, bot, n);
            &&& only_edited(g, r)
            &&& top <= y - n && y <= bot ==> r.lines()[y] == g.lines()[y - n]
            &&& top <= y <= bot && y - n < top ==> r.lines()[y][x] == (Cell {
                ch: ' ',
                fg: g.fg,
                bg: g.bg,
                flags: 0,
            })
            &&& y < top || bot < y ==> r.lines()[y] == g.lines()[y]
        }),
{
}

/// Lines are inserted at the cursor: it and what is below it in the scroll region move down, and
/// blank lines open up. Outside the region nothing happens.
pub proof fn law_insert_lines_opens_lines(g: GridView, n: int, x: int, y: int)
    requires
        g.wf(),
        0 <= n,
        0 <= x < g.cols,
        0 <= y < g.rows,
    ensures
        ({
            let r = g.insert_lines(n);
            &&& only_edited(g, r)
            &&& !(g.top <= g.cy <= g.bot) ==> r == g
            &&& g.top <= g.cy <= g.bot ==> {
                &&& y < g.cy || g.bot < y ==> r.lines()[y] == g.lines()[y]
                &&& g.cy <= y <= g.bot && y < g.cy + n ==> r.lines()[y][x] == (Cell {
                    ch: ' ',
                    fg: g.fg,
                    bg: g.bg,
                    flags: 0,
                })
                &&& g.cy + n <= y <= g.bot ==> r.lines()[y] == g.lines()[y - n]
            }
        }),
{
    if g.top <= g.cy <= g.bot {
        law_scroll_down_moves_lines(g, g.cy, g.bot, n, x, y);
    }
}

/// Lines are deleted at the cursor: what is below them in the scroll region moves up, and blank
/// lines come in at its end. They do not go to the history. Outside the region nothing happens.
pub proof fn law_delete_lines_closes_up(g: GridView, n: int, x: int, y: int)
    requires
        g.wf(),
        0 <= n,
        0 <= x < g.cols,
        0 <= y < g.rows,
    ensures
        ({
            let r = g.delete_lines(n);
            &&& only_edited(g, r)
            &&& !(g.top <= g.cy <= g.bot) ==> r == g
            &&& g.top <= g.cy <= g.bot ==> {
                &&& y < g.cy || g.bot < y ==> r.lines()[y] == g.lines()[y]
                &&& g.cy <= y && y + n <= g.bot ==> r.lines()[y] == g.lines()[y + n]
                &&& g.cy <= y <= g.bot && y + n > g.bot ==> r.lines()[y][x] == (Cell {
                    ch: ' ',
                    fg: g.fg,
                    bg: g.bg,
                    flags: 0,
                })
            }
        }),
{
    if g.top <= g.cy <= g.bot {
        law_scroll_up_moves_lines(g, g.cy, g.bot, n, false, x, y);
    }
}

// ---- within a line ----

/// Cells are inserted at the cursor: the rest of its line moves to the right, off the edge if need
/// be, and blanks open up. No other line changes.
pub proof fn law_insert_chars_opens_cells(g: GridView, n: int, x: int, y: int)
    requires
        g.wf(),
        0 <= n,
        0 <= x < g.cols,
        0 <= y < g.rows,
    ensures
        ({
            let r = g.insert_chars(n);
            &&& only_edited(g, r)
            &&& y != g.cy || x < g.cx ==> r.lines()[y][x] == g.lines()[y][x]
            &&& y == g.cy && g.cx <= x < g.cx + n ==> r.lines()[y][x] == (Cell {
                ch: ' ',
                fg: g.fg,
                bg: g.bg,
                flags: 0,
            })
            &&& y == g.cy && x >= g.cx + n ==> r.lines()[y][x] == g.lines()[y][x - n]
        }),
{
}

/// Cells are deleted at the cursor: the rest of its line moves to the left, and blanks come in at
/// its end. No other line changes.
pub proof fn law_delete_chars_closes_up(g: GridView, n: int, x: int, y: int)
    requires
        g.wf(),
        0 <= n,
        0 <= x < g.cols,
        0 <= y < g.rows,
    ensures
        ({
            let r = g.delete_chars(n);
            &&& only_edited(g, r)
            &&& y != g.cy || x < g.cx ==> r.lines()[y][x] == g.lines()[y][x]
            &&& y == g.cy && g.cx <= x && x + n < g.cols ==> r.lines()[y][x] == g.lines()[y][x + n]
            &&& y == g.cy && g.cx <= x && x + n >= g.cols ==> r.lines()[y][x] == (Cell {
                ch: ' ',
                fg: g.fg,
                bg: g.bg,
                flags: 0,
            })
        }),
{
}

/// Cells are erased from the cursor on, in place.
pub proof fn law_erase_chars_in_place(g: GridView, n: int, x: int, y: int)
    requires
        g.wf(),
        0 <= x < g.cols,
        0 <= y < g.rows,
    ensures
        ({
            let r = g.erase_chars(n);
            &&& only_edited(g, r)
            &&& y == g.cy && g.cx <= x < g.cx + n ==> r.lines()[y][x] == (Cell {
                ch: ' ',
                fg: g.fg,
                bg: g.bg,
                flags: 0,
            })
            &&& !(y == g.cy && g.cx <= x < g.cx + n) ==> r.lines()[y][x] == g.lines()[y][x]
        }),
{
}

// ---- erasing ----

/// The screen is erased from the cursor to its end, from its start to the cursor, or all of it:
/// exactly those cells are blank after it, in the current colors, and the others are as before.
pub proof fn law_erase_display_reach(g: GridView, mode: u16, x: int, y: int)
    requires
        g.wf(),
        0 <= x < g.cols,
        0 <= y < g.rows,
    ensures
        ({
            let r = g.erase_display(mode);
            let after = y > g.cy || (y == g.cy && x > g.cx);
            let before = y < g.cy || (y == g.cy && x < g.cx);
            let kept = (mode == 0 && before) || (mode == 1 && after);
            &&& only_edited(g, r)
            &&& kept ==> r.lines()[y][x] == g.lines()[y][x]
            &&& !kept ==> r.lines()[y][x] == (Cell { ch: ' ', fg: g.fg, bg: g.bg, flags: 0 })
        }),
{
}

/// The cursor's line is erased from the cursor to its end, from its start to the cursor, or all of
/// it: exactly those cells are blank after it, in the current colors, and the others are as before.
pub proof fn law_erase_line_reach(g: GridView, mode: u16, x: int, y: int)
    requires
        g.wf(),
        0 <= x < g.cols,
        0 <= y < g.rows,
    ensures
        ({
            let r = g.erase_line(mode);
            let kept = y != g.cy || (mode == 0 && x < g.cx) || (mode == 1 && x > g.cx);
            &&& only_edited(g, r)
            &&& kept ==> r.lines()[y][x] == g.lines()[y][x]
            &&& !kept ==> r.lines()[y][x] == (Cell { ch: ' ', fg: g.fg, bg: g.bg, flags: 0 })
        }),
{
}

// ---- region, saved cursor, screens ----

/// A scroll region of at least two lines that starts on the screen is taken as asked for, as far
/// down as the screen goes; anything else stands for the whole screen. The cursor goes home, and
/// nothing else changes.
pub proof fn law_region_as_asked(g: GridView, top: int, bot: int)
    requires
        g.wf(),
        0 <= top,
        0 <= bot,
    ensures
        ({
            let r = g.set_scroll_region(top, bot);
            &&& r == (GridView { top: r.top, bot: r.bot, cx: 0, cy: 0, wrap_pending: false, ..g })
            &&& top < bot < g.rows ==> r.top == top && r.bot == bot
            &&& top < g.rows - 1 && g.rows <= bot ==> r.top == top && r.bot == g.rows - 1
            &&& bot <= top || g.rows - 1 <= top ==> r.top == 0 && r.bot == g.rows - 1
        }),
{
}

/// Saving the cursor changes nothing to be seen. Restoring brings back its place, cut to the
/// screen, and its colors and attributes, and draws nothing; without a save it does nothing.
pub proof fn law_saved_cursor(g: GridView, later: GridView)
    requires
        g.wf(),
        later.wf(),
        later.saved == g.save_cursor().saved,
    ensures
        g.save_cursor() == (GridView { saved: g.save_cursor().saved, ..g }),
        ({
            let r = later.restore_cursor();
            &&& r == (GridView {
                cx: r.cx,
                cy: r.cy,
                fg: g.fg,
                bg: g.bg,
                flags: g.flags,
                wrap_pending: false,
                ..later
            })
            &&& g.cx < later.cols ==> r.cx == g.cx
            &&& g.cx >= later.cols ==> r.cx == later.cols - 1
            &&& g.cy < later.rows ==> r.cy == g.cy
            &&& g.cy >= later.rows ==> r.cy == later.rows - 1
        }),
        (GridView { saved: None, ..later }).restore_cursor() == (GridView { saved: None, ..later }),
{
}

/// Entering the alternate screen shows a screen of fresh cells, with the cursor home and the whole
/// screen to scroll, and keeps all else: the primary screen, the history, attributes and modes.
/// Entering it again does nothing.
pub proof fn law_enter_alternate(g: GridView, x: int, y: int)
    requires
        g.wf(),
        0 <= x < g.cols,
        0 <= y < g.rows,
    ensures
        ({
            let r = g.enter_alt();
            &&& g.on_alt ==> r == g
            &&& !g.on_alt ==> {
                &&& r == (GridView {
                    on_alt: true,
                    alt: r.alt,
                    primary_cursor: (g.cx, g.cy),
                    top: 0,
                    bot: g.rows - 1,
                    cx: 0,
                    cy: 0,
                    wrap_pending: false,
                    view_offset: 0,
                    ..g
                })
                &&& r.alt.len() == g.rows && r.alt[y].len() == g.cols
                &&& r.alt[y][x] == (Cell { ch: ' ', fg: DEFAULT_FG, bg: DEFAULT_BG, flags: 0 })
            }
            &&& r.enter_alt() == r
        }),
{
}

/// Leaving the alternate screen shows the primary screen with the cursor where it was, cut to the
/// screen, and the whole screen to scroll, and keeps all else. On the primary screen it does
/// nothing.
pub proof fn law_leave_alternate(g: GridView)
    requires
        g.wf(),
    ensures
        ({
            let r = g.leave_alt();
            &&& !g.on_alt ==> r == g
            &&& g.on_alt ==> {
                &&& r == (GridView {
                    on_alt: false,
                    top: 0,
                    bot: g.rows - 1,
                    cx: r.cx,
                    cy: r.cy,
                    wrap_pending: false,
                    ..g
                })
                &&& g.primary_cursor.0 < g.cols ==> r.cx == g.primary_cursor.0
                &&& g.primary_cursor.0 >= g.cols ==> r.cx == g.cols - 1
                &&& g.primary_cursor.1 < g.rows ==> r.cy == g.primary_cursor.1
                &&& g.primary_cursor.1 >= g.rows ==> r.cy == g.rows - 1
            }
            &&& r.leave_alt() == r
        }),
{
}

/// A new screen is all fresh cells, spaces in the default colors, with the cursor home, an empty
/// history, the default attributes, the cursor shown as a block and no other mode set.
pub proof fn law_fresh_screen(cols: int, rows: int, max_scrollback: int, x: int, y: int)
    requires
        0 <= x < cols,
        0 <= y < rows,
    ensures
        ({
            let g = GridView::fresh(cols, rows, max_scrollback);
            let c = Cell { ch: ' ', fg: DEFAULT_FG, bg: DEFAULT_BG, flags: 0 };
            &&& g.cols == cols && g.rows == rows && g.max_scrollback == max_scrollback
            &&& g.primary.len() == rows && g.primary[y].len() == cols && g.primary[y][x] == c
            &&& g.alt.len() == rows && g.alt[y].len() == cols && g.alt[y][x] == c
            &&& !g.on_alt && g.scrollback.len() == 0 && g.view_offset == 0
            &&& g.cx == 0 && g.cy == 0 && !g.wrap_pending
            &&& g.top == 0 && g.bot == rows - 1
            &&& g.fg == DEFAULT_FG && g.bg == DEFAULT_BG && g.flags == 0
            &&& g.cursor_visible && g.cursor_style == CursorStyle::Block
            &&& !g.app_cursor && !g.bracketed_paste && !g.mouse_report && !g.mouse_sgr
            &&& g.saved is None && g.selection is None
        }),
{
}

/// A reset leaves what a new screen of the same size and capacity has, but for the mouse modes,
/// the selection and the remembered cursor of the primary screen, which stay.
pub proof fn law_reset_starts_over(g: GridView, x: int, y: int)
    requires
        g.wf(),
        0 <= x < g.cols,
        0 <= y < g.rows,
    ensures
        ({
            let r = g.full_reset();
            let c = Cell { ch: ' ', fg: DEFAULT_FG, bg: DEFAULT_BG, flags: 0 };
            &&& r.cols == g.cols && r.rows == g.rows && r.max_scrollback == g.max_scrollback
            &&& r.primary.len() == g.rows && r.primary[y].len() == g.cols && r.primary[y][x] == c
            &&& r.alt.len() == g.rows && r.alt[y].len() == g.cols && r.alt[y][x] == c
            &&& !r.on_alt && r.scrollback.len() == 0 && r.view_offset == 0
            &&& r.cx == 0 && r.cy == 0 && !r.wrap_pending
            &&& r.top == 0 && r.bot == g.rows - 1
            &&& r.fg == DEFAULT_FG && r.bg == DEFAULT_BG && r.flags == 0
            &&& r.cursor_visible && r.cursor_style == CursorStyle::Block
            &&& !r.app_cursor && !r.bracketed_paste && r.saved is None
            &&& r.mouse_report == g.mouse_report && r.mouse_sgr == g.mouse_sgr
            &&& r.selection == g.selection && r.primary_cursor == g.primary_cursor
        }),
{
}

// ---- resizing ----

/// A resize keeps the cursor where it is, as far as the new screen reaches: growing the screen
/// moves it nowhere. History, view, attributes and modes stay.
pub proof fn law_resize_keeps_cursor(g: GridView, cols: int, rows: int)
    requires
        g.wf(),
        1 <= cols,
        1 <= rows,
    ensures
        ({
            let r = g.resize(cols, rows);
            &&& g.cx < cols ==> r.cx == g.cx
            &&& g.cx >= cols ==> r.cx == cols - 1
            &&& g.cy < rows ==> r.cy == g.cy
            &&& g.cy >= rows ==> r.cy == rows - 1
            &&& cols == g.cols && rows == g.rows ==> r == g
            &&& cols != g.cols || rows != g.rows ==> r == (GridView {
                cols,
                rows,
                primary: r.primary,
                alt: r.alt,
                cx: r.cx,
                cy: r.cy,
                top: 0,
                bot: rows - 1,
                wrap_pending: false,
                ..g
            })
        }),
{
}

/// After a resize both screens have the new size. A cell that both sizes have holds what it held,
/// and a cell that only the new one has is fresh.
pub proof fn law_resize_keeps_cells(g: GridView, cols: int, rows: int, x: int, y: int)
    requires
        g.wf(),
        0 <= x < cols,
        0 <= y < rows,
    ensures
        ({
            let r = g.resize(cols, rows);
            let c = Cell { ch: ' ', fg: DEFAULT_FG, bg: DEFAULT_BG, flags: 0 };
            &&& r.cols == cols && r.rows == rows
            &&& r.primary.len() == rows && r.primary[y].len() == cols
            &&& r.alt.len() == rows && r.alt[y].len() == cols
            &&& x < g.cols && y < g.rows ==> r.primary[y][x] == g.primary[y][x] && r.alt[y][x]
                == g.alt[y][x]
            &&& x >= g.cols || y >= g.rows ==> r.primary[y][x] == c && r.alt[y][x] == c
        }),
{
}

} // verus!

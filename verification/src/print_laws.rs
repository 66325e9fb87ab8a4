//! Laws of printing: where characters land, and how controls and line feeds move the cursor and
//! the lines.

use vstd::prelude::*;

use crate::grid::Cell;
use crate::screen::GridView;
use crate::term_laws;

verus! {

/// From `g` to `r` the screen being drawn on, the cursor and a pending wrap may have changed, and
/// nothing else.
pub open spec fn only_drawn(g: GridView, r: GridView) -> bool {
    &&& r == (GridView {
        primary: r.primary,
        alt: r.alt,
        cx: r.cx,
        cy: r.cy,
        wrap_pending: r.wrap_pending,
        ..g
    })
    &&& g.on_alt ==> r.primary == g.primary
    &&& !g.on_alt ==> r.alt == g.alt
}

/// From `g` to `r` the cursor has moved and no longer waits to wrap, and that is all.
pub open spec fn only_moved(g: GridView, r: GridView) -> bool {
    r == (GridView { cx: r.cx, cy: r.cy, wrap_pending: false, ..g })
}

/// What is drawn on is what the screen shows: the alternate screen while it is on, else the
/// primary one.
pub proof fn law_one_screen_is_shown(g: GridView)
    ensures
        g.on_alt ==> g.lines() == g.alt,
        !g.on_alt ==> g.lines() == g.primary,
{
}

/// A character lands at the cursor, in the attributes set, and every other cell stays. The cursor
/// goes one column on; at the last column it stays, and the next character wraps.
pub proof fn law_print_places_character(g: GridView, ch: char, x: int, y: int)
    requires
        g.wf(),
        !g.wrap_pending,
        0 <= x < g.cols,
        0 <= y < g.rows,
    ensures
        ({
            let r = g.put(ch);
            &&& only_drawn(g, r)
            &&& x == g.cx && y == g.cy ==> r.lines()[y][x] == (Cell {
                ch,
                fg: g.fg,
                bg: g.bg,
                flags: g.flags,
            })
            &&& x != g.cx || y != g.cy ==> r.lines()[y][x] == g.lines()[y][x]
            &&& r.cy == g.cy
            &&& g.cx + 1 < g.cols ==> r.cx == g.cx + 1 && !r.wrap_pending
            &&& g.cx + 1 == g.cols ==> r.cx == g.cx && r.wrap_pending
        }),
{
}

/// A character that wraps is printed as after a carriage return and a line feed.
#[verifier::rlimit(40)]
pub proof fn law_wrap_is_a_new_line(g: GridView, ch: char)
    requires
        g.wf(),
        g.wrap_pending,
    ensures
        g.put(ch) == g.carriage_return().line_feed().put(ch),
{
}

/// A character that wraps on the last line of the scroll region overwrites nothing: the region
/// moves up by a line, and the character is alone on a blank last line.
pub proof fn law_wrap_scrolls_at_the_bottom(g: GridView, ch: char, x: int, y: int)
    requires
        g.wf(),
        g.wrap_pending,
        g.cy == g.bot,
        0 <= x < g.cols,
        0 <= y < g.rows,
    ensures
        ({
            let r = g.put(ch);
            &&& g.top <= y < g.bot ==> r.lines()[y] == g.lines()[y + 1]
            &&& y < g.top || g.bot < y ==> r.lines()[y] == g.lines()[y]
            &&& y == g.bot && x == 0 ==> r.lines()[y][x] == (Cell {
                ch,
                fg: g.fg,
                bg: g.bg,
                flags: g.flags,
            })
            &&& y == g.bot && x > 0 ==> r.lines()[y][x] == (Cell {
                ch: ' ',
                fg: g.fg,
                bg: g.bg,
                flags: 0,
            })
            &&& r.cy == g.bot
            &&& !g.on_alt && g.top == 0 && g.bot == g.rows - 1 && g.max_scrollback > 0
                ==> r.scrollback.len() > 0 && r.scrollback.last() == g.lines()[0]
        }),
{
    let f = GridView { cx: 0, ..g };
    law_line_feed_scrolls_at_the_bottom(f, 0, y);
    law_line_feed_scrolls_at_the_bottom(f, x, y);
    law_line_feed_scrolls_at_the_bottom(f, x, g.bot);
}

/// A line feed on the last line of the scroll region moves the lines of the region up by one and
/// blanks the last, in the current colors. The cursor stays. A line that leaves the whole primary
/// screen is the newest of the history; a line that leaves a part of it, or the alternate screen,
/// is gone.
pub proof fn law_line_feed_scrolls_at_the_bottom(g: GridView, x: int, y: int)
    requires
        g.wf(),
        g.cy == g.bot,
        0 <= x < g.cols,
        0 <= y < g.rows,
    ensures
        ({
            let r = g.line_feed();
            let kept = !g.on_alt && g.top == 0 && g.bot == g.rows - 1;
            &&& only_drawn(g, GridView { scrollback: g.scrollback, ..r })
            &&& r.cx == g.cx && r.cy == g.cy && !r.wrap_pending
            &&& r.lines().len() == g.rows && r.lines()[y].len() == g.cols
            &&& g.top <= y < g.bot ==> r.lines()[y] == g.lines()[y + 1]
            &&& y < g.top || g.bot < y ==> r.lines()[y] == g.lines()[y]
            &&& y == g.bot ==> r.lines()[y][x] == (Cell { ch: ' ', fg: g.fg, bg: g.bg, flags: 0 })
            &&& !kept ==> r.scrollback == g.scrollback
            &&& kept && g.scrollback.len() < g.max_scrollback ==> r.scrollback
                == g.scrollback.push(g.lines()[0])
            &&& kept && g.scrollback.len() == g.max_scrollback ==> r.scrollback
                == g.scrollback.push(g.lines()[0]).skip(1)
        }),
{
    let l = g.lines();
    let all = g.scrollback + l.subrange(0, 1);
    let r = g.line_feed();
    assert(all =~= g.scrollback.push(l[0]));
    if !g.on_alt && g.top == 0 && g.bot == g.rows - 1 && g.scrollback.len() == g.max_scrollback {
        assert(r.scrollback =~= g.scrollback.push(l[0]).skip(1));
    }
}

/// A line feed anywhere else takes the cursor one line down in its column, on the last line of
/// the screen nowhere, and draws nothing.
pub proof fn law_line_feed_goes_down(g: GridView)
    requires
        g.wf(),
        g.cy != g.bot,
    ensures
        only_moved(g, g.line_feed()),
        g.line_feed().cx == g.cx,
        g.cy + 1 < g.rows ==> g.line_feed().cy == g.cy + 1,
        g.cy + 1 == g.rows ==> g.line_feed().cy == g.cy,
{
}

/// A reverse line feed on the first line of the scroll region moves the lines of the region down
/// by one and blanks the first. The history stays, and so does the cursor.
pub proof fn law_reverse_line_feed_scrolls_at_the_top(g: GridView, x: int, y: int)
    requires
        g.wf(),
        g.cy == g.top,
        0 <= x < g.cols,
        0 <= y < g.rows,
    ensures
        ({
            let r = g.reverse_line_feed();
            &&& only_drawn(g, r)
            &&& r.cx == g.cx && r.cy == g.cy && !r.wrap_pending
            &&& r.lines().len() == g.rows && r.lines()[y].len() == g.cols
            &&& g.top < y <= g.bot ==> r.lines()[y] == g.lines()[y - 1]
            &&& y < g.top || g.bot < y ==> r.lines()[y] == g.lines()[y]
            &&& y == g.top ==> r.lines()[y][x] == (Cell { ch: ' ', fg: g.fg, bg: g.bg, flags: 0 })
        }),
{
}

/// A reverse line feed anywhere else takes the cursor one line up in its column, on the first line
/// of the screen nowhere, and draws nothing.
pub proof fn law_reverse_line_feed_goes_up(g: GridView)
    requires
        g.wf(),
        g.cy != g.top,
    ensures
        only_moved(g, g.reverse_line_feed()),
        g.reverse_line_feed().cx == g.cx,
        g.cy > 0 ==> g.reverse_line_feed().cy == g.cy - 1,
        g.cy == 0 ==> g.reverse_line_feed().cy == 0,
{
}

/// A carriage return takes the cursor to the start of its line, a backspace one column back, and
/// neither draws or leaves the line.
pub proof fn law_return_and_backspace(g: GridView)
    requires
        g.wf(),
    ensures
        only_moved(g, g.carriage_return()),
        g.carriage_return().cx == 0,
        g.carriage_return().cy == g.cy,
        only_moved(g, g.backspace()),
        g.backspace().cy == g.cy,
        g.cx > 0 ==> g.backspace().cx == g.cx - 1,
        g.cx == 0 ==> g.backspace().cx == 0,
{
}

/// A tab takes the cursor to the first tab stop after it: the next column that is a multiple of
/// 8, or the last column where none is left.
pub proof fn law_tab_finds_the_next_stop(g: GridView, stop: int)
    requires
        g.wf(),
    ensures
        ({
            let r = g.tab();
            &&& only_moved(g, r)
            &&& r.cy == g.cy
            &&& g.cx <= r.cx < g.cols
            &&& r.cx % 8 == 0 || r.cx == g.cols - 1
            &&& g.cx < g.cols - 1 ==> g.cx < r.cx
            &&& g.cx < stop < r.cx ==> stop % 8 != 0
        }),
{
}

/// The cursor goes where it is sent, as far as the screen reaches.
pub proof fn law_cursor_goes_where_sent(g: GridView, x: int, y: int)
    requires
        g.wf(),
        0 <= x,
        0 <= y,
    ensures
        ({
            let r = g.set_cursor(x, y);
            &&& only_moved(g, r)
            &&& x < g.cols ==> r.cx == x
            &&& x >= g.cols ==> r.cx == g.cols - 1
            &&& y < g.rows ==> r.cy == y
            &&& y >= g.rows ==> r.cy == g.rows - 1
        }),
{
}

/// The cursor moves by as much as it is told, to the right and down for positive amounts, and
/// stops at the edges of the screen.
pub proof fn law_cursor_moves_as_told(g: GridView, dx: int, dy: int)
    requires
        g.wf(),
    ensures
        ({
            let r = g.move_cursor(dx, dy);
            &&& only_moved(g, r)
            &&& 0 <= g.cx + dx < g.cols ==> r.cx == g.cx + dx
            &&& g.cx + dx < 0 ==> r.cx == 0
            &&& g.cx + dx >= g.cols ==> r.cx == g.cols - 1
            &&& 0 <= g.cy + dy < g.rows ==> r.cy == g.cy + dy
            &&& g.cy + dy < 0 ==> r.cy == 0
            &&& g.cy + dy >= g.rows ==> r.cy == g.rows - 1
        }),
{
}

/// `text`, printed character by character.
pub open spec fn printed(g: GridView, text: Seq<char>) -> GridView
    decreases text.len(),
{
    if text.len() == 0 {
        g
    } else {
        printed(g, text.drop_last()).put(text.last())
    }
}

/// Text that fits in the rest of the line stands there as it was printed, left to right, and the
/// cursor behind it. The rest of the screen stays.
pub proof fn law_text_reads_as_printed(g: GridView, text: Seq<char>)
    requires
        g.wf(),
        !g.wrap_pending,
        text.len() <= g.cols - g.cx,
    ensures
        ({
            let r = printed(g, text);
            &&& r.wf()
            &&& only_drawn(g, r)
            &&& r.cy == g.cy
            &&& r.wrap_pending <==> text.len() > 0 && text.len() == g.cols - g.cx
            &&& !r.wrap_pending ==> r.cx == g.cx + text.len()
            &&& forall|i: int|
                0 <= i < text.len() ==> (#[trigger] r.lines()[g.cy][g.cx + i]) == (Cell {
                    ch: text[i],
                    fg: g.fg,
                    bg: g.bg,
                    flags: g.flags,
                })
            &&& forall|x: int, y: int|
                0 <= x < g.cols && 0 <= y < g.rows && (y != g.cy || x < g.cx || x >= g.cx
                    + text.len()) ==> #[trigger] r.lines()[y][x] == g.lines()[y][x]
        }),
    decreases text.len(),
{
    if text.len() > 0 {
        let init = text.drop_last();
        law_text_reads_as_printed(g, init);
        let m = printed(g, init);
        let r = printed(g, text);
        assert(r == m.put(text.last()));
        assert forall|i: int| 0 <= i < text.len() implies (#[trigger] r.lines()[g.cy][g.cx + i])
            == (Cell { ch: text[i], fg: g.fg, bg: g.bg, flags: g.flags }) by {
            law_print_places_character(m, text.last(), g.cx + i, g.cy);
            if i < init.len() {
                assert(m.lines()[g.cy][g.cx + i].ch == init[i]);
            }
        }
        assert forall|x: int, y: int|
            0 <= x < g.cols && 0 <= y < g.rows && (y != g.cy || x < g.cx || x >= g.cx
                + text.len()) implies #[trigger] r.lines()[y][x] == g.lines()[y][x] by {
            law_print_places_character(m, text.last(), x, y);
            assert(m.lines()[y][x] == g.lines()[y][x]);
        }
        law_print_places_character(m, text.last(), 0, 0);
        term_laws::lemma_put_wf(m, text.last());
    }
}

} // verus!

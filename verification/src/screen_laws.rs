//! Laws of the screen model.

use vstd::prelude::*;

use crate::screen;
use crate::screen::GridView;

verus! {

/// A later restore brings back the position and attributes of the last save, as
/// long as the screen keeps its size.
pub proof fn law_save_restore(g: GridView, later: GridView)
    requires
        g.wf(),
        later.saved == g.save_cursor().saved,
        later.cols == g.cols,
        later.rows == g.rows,
    ensures
        later.restore_cursor() == (GridView {
            cx: g.cx,
            cy: g.cy,
            fg: g.fg,
            bg: g.bg,
            flags: g.flags,
            wrap_pending: false,
            ..later
        }),
{
}

/// Leaving the alternate screen shows the primary screen as it was when the
/// alternate screen was entered, with its cursor, whatever was drawn in between.
pub proof fn law_alternate_round_trip(g: GridView, later: GridView)
    requires
        g.wf(),
        !g.on_alt,
        later.on_alt,
        later.cols == g.cols,
        later.rows == g.rows,
        later.primary == g.enter_alt().primary,
        later.primary_cursor == g.enter_alt().primary_cursor,
    ensures
        !later.leave_alt().on_alt,
        later.leave_alt().lines() == g.lines(),
        later.leave_alt().cx == g.cx,
        later.leave_alt().cy == g.cy,
{
}

/// The alternate screen starts out cleared, and is shown live.
pub proof fn law_alternate_starts_clear(g: GridView)
    requires
        g.wf(),
        !g.on_alt,
    ensures
        g.enter_alt().on_alt,
        g.enter_alt().lines() == screen::uniform(g.cols, g.rows, screen::default_cell()),
        g.enter_alt().view_offset == 0,
{
}

/// Scrolling the whole primary screen loses no line while the history has room: the
/// virtual lines are those from before, followed by the blank ones.
pub proof fn law_scroll_keeps_every_line(g: GridView, n: int)
    requires
        g.wf(),
        !g.on_alt,
        0 <= n <= g.rows,
        g.scrollback.len() + n <= g.max_scrollback,
    ensures
        g.scroll_up(0, g.rows - 1, n, true).vlines() == g.vlines() + g.blank_lines(n),
{
    assert(g.scroll_up(0, g.rows - 1, n, true).vlines() =~= g.vlines() + g.blank_lines(n));
}

/// However far the whole primary screen is scrolled, the history holds its newest
/// lines: the end of what it held and of the lines that left the screen.
pub proof fn law_history_holds_newest(g: GridView, n: int)
    requires
        g.wf(),
        !g.on_alt,
        0 < n <= g.rows,
    ensures
        ({
            let sb = g.scroll_up(0, g.rows - 1, n, true).scrollback;
            let all = g.scrollback + g.lines().subrange(0, n);
            &&& sb.len() == screen::min(all.len() as int, g.max_scrollback)
            &&& sb == all.subrange(all.len() - sb.len(), all.len() as int)
        }),
{
    let all = g.scrollback + g.lines().subrange(0, n);
    assert(all.subrange(0, all.len() as int) =~= all);
}

/// The history is untouched by scrolling on the alternate screen, or in a region
/// that is not the whole screen.
pub proof fn law_partial_scroll_keeps_history(
    g: GridView,
    top: int,
    bot: int,
    n: int,
    capture: bool,
)
    requires
        g.on_alt || top != 0 || bot != g.rows - 1 || !capture,
    ensures
        g.scroll_up(top, bot, n, capture).scrollback == g.scrollback,
        g.scroll_down(top, bot, n).scrollback == g.scrollback,
{
}

/// Lines outside the scrolled region stay.
pub proof fn law_scroll_stays_in_region(
    g: GridView,
    top: int,
    bot: int,
    n: int,
    capture: bool,
    y: int,
)
    requires
        g.wf(),
        0 <= top <= bot < g.rows,
        0 <= y < g.rows,
        y < top || bot < y,
    ensures
        g.scroll_up(top, bot, n, capture).lines()[y] == g.lines()[y],
        g.scroll_down(top, bot, n).lines()[y] == g.lines()[y],
{
}

/// Scrolling down and up again by the same amount restores the region but for its
/// last lines, which are blank.
pub proof fn law_scroll_down_up(g: GridView, top: int, bot: int, n: int)
    requires
        g.wf(),
        0 <= top <= bot < g.rows,
        0 < n <= bot - top + 1,
    ensures
        g.scroll_down(top, bot, n).scroll_up(top, bot, n, false) == g.with_lines(
            g.lines().subrange(0, bot + 1 - n) + g.blank_lines(n) + g.lines().subrange(
                bot + 1,
                g.rows,
            ),
        ),
{
    let l = g.lines();
    let d = g.scroll_down(top, bot, n);
    let r = d.scroll_up(top, bot, n, false);
    assert(d.lines() =~= l.subrange(0, top) + g.blank_lines(n) + l.subrange(top, bot + 1 - n)
        + l.subrange(bot + 1, g.rows));
    assert(r.lines() =~= l.subrange(0, bot + 1 - n) + g.blank_lines(n) + l.subrange(
        bot + 1,
        g.rows,
    ));
}

/// Inserting characters and deleting as many restores the line but for its last
/// cells, which are blank.
pub proof fn law_insert_delete_chars(g: GridView, n: int)
    requires
        g.wf(),
        0 <= n <= g.cols - g.cx,
    ensures
        g.insert_chars(n).delete_chars(n) == g.with_cursor_line(
            g.lines()[g.cy].subrange(0, g.cols - n) + g.blank_cells(n),
        ),
{
    let l = g.lines()[g.cy];
    let i = g.insert_chars(n);
    let d = i.delete_chars(n);
    assert(i.lines()[g.cy] =~= l.subrange(0, g.cx) + g.blank_cells(n) + l.subrange(
        g.cx,
        g.cols - n,
    ));
    assert(d.lines()[g.cy] =~= l.subrange(0, g.cols - n) + g.blank_cells(n));
    assert(d.lines() =~= g.lines().update(
        g.cy,
        l.subrange(0, g.cols - n) + g.blank_cells(n),
    ));
}

/// Erasing up to the cursor and from the cursor on erases the whole screen.
pub proof fn law_erase_halves(g: GridView)
    requires
        g.wf(),
    ensures
        g.erase_display(0).erase_display(1) == g.erase_display(2),
{
    let a = g.erase_display(0).erase_display(1);
    let b = g.erase_display(2);
    assert forall|y: int| 0 <= y < g.rows implies a.lines()[y] == b.lines()[y] by {
        assert(a.lines()[y] =~= b.lines()[y]);
    }
    assert(a.lines() =~= b.lines());
}

/// Erasing moves nothing: every cell is either kept or blanked, in place.
pub proof fn law_erase_in_place(g: GridView, mode: u16, x: int, y: int)
    requires
        g.wf(),
        0 <= x < g.cols,
        0 <= y < g.rows,
    ensures
        g.erase_display(mode).lines()[y][x] == g.lines()[y][x] || g.erase_display(
            mode,
        ).lines()[y][x] == g.blank(),
        g.erase_line(mode).lines()[y][x] == g.lines()[y][x] || g.erase_line(mode).lines()[y][x]
            == g.blank(),
        y != g.cy ==> g.erase_line(mode).lines()[y][x] == g.lines()[y][x],
        g.erase_display(mode).cx == g.cx && g.erase_display(mode).cy == g.cy,
        g.erase_line(mode).cx == g.cx && g.erase_line(mode).cy == g.cy,
{
}

/// A resize keeps the common top-left rectangle of both screens and the whole
/// history.
pub proof fn law_resize_keeps_corner(g: GridView, cols: int, rows: int, x: int, y: int)
    requires
        g.wf(),
        1 <= cols,
        1 <= rows,
        0 <= x < cols,
        0 <= y < rows,
        x < g.cols,
        y < g.rows,
    ensures
        g.resize(cols, rows).primary[y][x] == g.primary[y][x],
        g.resize(cols, rows).alt[y][x] == g.alt[y][x],
        g.resize(cols, rows).scrollback == g.scrollback,
{
}

/// Growing a screen and shrinking it back changes no cell.
pub proof fn law_resize_back(g: GridView, cols: int, rows: int)
    requires
        g.wf(),
        g.cols <= cols,
        g.rows <= rows,
    ensures
        g.resize(cols, rows).resize(g.cols, g.rows).primary == g.primary,
        g.resize(cols, rows).resize(g.cols, g.rows).alt == g.alt,
{
    let b = g.resize(cols, rows).resize(g.cols, g.rows);
    assert forall|y: int| 0 <= y < g.rows implies b.primary[y] == g.primary[y] && b.alt[y]
        == g.alt[y] by {
        assert(b.primary[y] =~= g.primary[y]);
        assert(b.alt[y] =~= g.alt[y]);
    }
    assert(b.primary =~= g.primary);
    assert(b.alt =~= g.alt);
}

/// A view at the bottom shows the active screen, row by row.
pub proof fn law_live_view(g: GridView, y: int)
    requires
        g.wf(),
        0 <= y < g.rows,
    ensures
        g.snap_to_bottom().vlines()[g.snap_to_bottom().display_vline(y)] == g.lines()[y],
{
}

/// However the view is scrolled, each display row shows an existing virtual line.
pub proof fn law_view_in_range(g: GridView, delta: int, y: int)
    requires
        g.wf(),
        0 <= y < g.rows,
    ensures
        0 <= g.scroll_view(delta).view_offset <= g.scrollback.len(),
        0 <= g.scroll_view(delta).display_vline(y) < g.vlines().len(),
{
}

/// A scroll region has at least two lines, or is the whole screen.
pub proof fn law_region_size(g: GridView, top: int, bot: int)
    requires
        g.wf(),
        0 <= top,
        0 <= bot,
    ensures
        ({
            let r = g.set_scroll_region(top, bot);
            (r.top < r.bot) || (r.top == 0 && r.bot == g.rows - 1)
        }),
{
}

/// Inside the scroll region, a line feed and a reverse line feed cancel out.
pub proof fn law_line_feed_and_back(g: GridView)
    requires
        g.wf(),
        g.top <= g.cy < g.bot,
    ensures
        g.line_feed().reverse_line_feed() == (GridView { wrap_pending: false, ..g }),
{
}

/// A selection and its mirror image cover the same cells and give the same text.
pub proof fn law_selection_symmetric(g: GridView, a: (usize, usize), b: (usize, usize))
    ensures
        g.sel_begin(a.0, a.1).sel_update(b.0, b.1).sel_norm() == g.sel_begin(
            b.0,
            b.1,
        ).sel_update(a.0, a.1).sel_norm(),
        forall|vline: int, x: int|
            g.sel_begin(a.0, a.1).sel_update(b.0, b.1).selects(vline, x) == g.sel_begin(
                b.0,
                b.1,
            ).sel_update(a.0, a.1).selects(vline, x),
        g.sel_begin(a.0, a.1).sel_update(b.0, b.1).selection_text() == g.sel_begin(
            b.0,
            b.1,
        ).sel_update(a.0, a.1).selection_text(),
{
    let p = g.sel_begin(a.0, a.1).sel_update(b.0, b.1);
    let q = g.sel_begin(b.0, b.1).sel_update(a.0, a.1);
    let (al, ac, bl, bc) = p.sel_norm()->0;
    lemma_selected_until_same(
        p,
        q,
        screen::min(bl + 1, p.vlines().len() as int),
        al,
        ac,
        bl,
        bc,
    );
}

/// The text of a given selection depends on the virtual lines and the width alone.
proof fn lemma_selected_until_same(
    p: GridView,
    q: GridView,
    end: int,
    al: int,
    ac: int,
    bl: int,
    bc: int,
)
    requires
        p.vlines() == q.vlines(),
        p.cols == q.cols,
    ensures
        p.selected_until(end, al, ac, bl, bc) == q.selected_until(end, al, ac, bl, bc),
    decreases end - al,
{
    if end > al {
        lemma_selected_until_same(p, q, end - 1, al, ac, bl, bc);
    }
}

} // verus!

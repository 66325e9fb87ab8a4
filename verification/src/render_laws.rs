//! What holds of every picture: each cell is drawn once and as it looks, things are drawn where
//! they answer to the mouse, and what must sit on top is drawn last.

use vstd::prelude::*;

use crate::cells;
use crate::cells::RunView;
use crate::chrome;
use crate::chrome::{CaptionBtn, Hit, CHROME_H, PAD_X, PAD_Y};
use crate::colors::DEFAULT_BG;
use crate::render;
use crate::render::{ChromeView, Fonts, OpView};
use crate::screen;
use crate::screen::GridView;

verus! {

/// The runs of a row from column `x` on follow one another without gap or overlap to its end. The
/// cells of a run are alike, and those of two neighboring runs are not.
pub proof fn law_runs_tile_row(g: GridView, y: int, x: int)
    requires
        0 <= x <= g.cols,
    ensures
        ({
            let runs = cells::runs_from(g, y, x);
            &&& x < g.cols <==> runs.len() > 0
            &&& runs.len() > 0 ==> runs[0].start == x && runs.last().end == g.cols
            &&& forall|k: int|
                0 <= k < runs.len() ==> (#[trigger] runs[k]).y == y && x <= runs[k].start
                    < runs[k].end <= g.cols
            &&& forall|k: int, i: int|
                0 <= k < runs.len() && runs[k].start <= i < runs[k].end ==> cells::alike(
                    cells::look(g, y, (#[trigger] runs[k]).start),
                    #[trigger] cells::look(g, y, i),
                )
            &&& forall|k: int, j: int|
                0 <= k && j == k + 1 && j < runs.len() ==> (#[trigger] runs[k]).end == (
                #[trigger] runs[j]).start && !cells::alike(
                    cells::look(g, y, runs[k].start),
                    cells::look(g, y, runs[j].start),
                )
        }),
    decreases g.cols - x,
{
    if x < g.cols {
        let end = cells::run_end(g, y, x, x + 1);
        cells::lemma_run_end(g, y, x, x + 1);
        law_runs_tile_row(g, y, end);
        let runs = cells::runs_from(g, y, x);
        let rest = cells::runs_from(g, y, end);
        assert(runs == seq![RunView { y, start: x, end }] + rest);
        assert(forall|k: int| 0 < k < runs.len() ==> runs[k] == rest[k - 1]);
        assert forall|k: int| 0 <= k < runs.len() implies (#[trigger] runs[k]).y == y && x
            <= runs[k].start < runs[k].end <= g.cols by {
            if k > 0 {
                assert(runs[k] == rest[k - 1]);
            }
        }
        assert forall|k: int, i: int|
            0 <= k < runs.len() && runs[k].start <= i < runs[k].end implies cells::alike(
            cells::look(g, y, (#[trigger] runs[k]).start),
            #[trigger] cells::look(g, y, i),
        ) by {
            if k > 0 {
                assert(runs[k] == rest[k - 1]);
            }
        }
        assert forall|k: int, j: int| 0 <= k && j == k + 1 && j < runs.len() implies (
        #[trigger] runs[k]).end == (#[trigger] runs[j]).start && !cells::alike(
            cells::look(g, y, runs[k].start),
            cells::look(g, y, runs[j].start),
        ) by {
            assert(runs[j] == rest[k]);
            if k > 0 {
                assert(runs[k] == rest[k - 1]);
                assert(rest[k - 1].end == rest[k].start);
            }
        }
    }
}

/// The run of row `y` that holds column `x`.
proof fn lemma_run_holding(g: GridView, y: int, from: int, x: int) -> (k: int)
    requires
        0 <= from <= x < g.cols,
    ensures
        ({
            let runs = cells::runs_from(g, y, from);
            0 <= k < runs.len() && runs[k].y == y && runs[k].start <= x < runs[k].end
        }),
    decreases g.cols - from,
{
    let end = cells::run_end(g, y, from, from + 1);
    cells::lemma_run_end(g, y, from, from + 1);
    if x < end {
        0
    } else {
        let k = lemma_run_holding(g, y, end, x);
        assert(cells::runs_from(g, y, from)[k + 1] == cells::runs_from(g, y, end)[k]);
        k + 1
    }
}

proof fn lemma_joined_holds(n: int, f: spec_fn(int) -> Seq<RunView>, i: int, k: int) -> (at: int)
    requires
        0 <= i < n,
        0 <= k < f(i).len(),
    ensures
        0 <= at < render::joined(n, f).len(),
        render::joined(n, f)[at] == f(i)[k],
    decreases n,
{
    let init = render::joined(n - 1, f);
    if i == n - 1 {
        init.len() + k
    } else {
        lemma_joined_holds(n - 1, f, i, k)
    }
}

/// Every cell of the screen is drawn as it looks: step `at.1` of run `at.0`, which holds the cell,
/// covers the cell's pixels in the cell's own colors and has the cell's character at the cell's
/// place in the run.
pub proof fn law_every_cell_drawn(g: GridView, f: Fonts, x: int, y: int) -> (at: (int, int))
    requires
        f.wf(),
        f.drawable(g.cols, g.rows),
        0 <= x < g.cols,
        0 <= y < g.rows,
    ensures
        ({
            let runs = cells::all_runs(g);
            let r = runs[at.0];
            let steps = cells::run_steps(g, f, runs, at.0);
            let c = cells::look(g, y, x);
            &&& 0 <= at.0 < runs.len()
            &&& r.y == y
            &&& r.start <= x < r.end
            &&& 0 <= at.1 < steps.len()
            &&& steps[at.1] matches OpView::Run { rect, units, fg, bg, .. }
            &&& fg == c.fg
            &&& bg == c.bg
            &&& rect.left <= PAD_X + x * f.cw
            &&& PAD_X + (x + 1) * f.cw <= rect.right
            &&& rect.top == CHROME_H + PAD_Y + y * f.ch
            &&& rect.bottom == rect.top + f.ch
            &&& units.len() == r.end - r.start
            &&& units[x - r.start] == cells::cell_unit(c.ch)
        }),
{
    let row = |y: int| cells::runs_from(g, y, 0);
    let in_row = lemma_run_holding(g, y, 0, x);
    let k = lemma_joined_holds(g.rows, row, y, in_row);
    let runs = cells::all_runs(g);
    law_runs_tile_row(g, y, 0);
    assert(runs[k] == row(y)[in_row]);
    assert(cells::alike(cells::look(g, y, row(y)[in_row].start), cells::look(g, y, x)));
    let i: int = if k == 0 || cells::is_bold(g, runs[k]) != cells::is_bold(g, runs[k - 1]) {
        1
    } else {
        0
    };
    let r = runs[k];
    cells::lemma_pixels(f, g.cols, g.rows, r.start, y);
    cells::lemma_pixels(f, g.cols, g.rows, r.end, y);
    assert(r.start * f.cw <= x * f.cw && (x + 1) * f.cw <= r.end * f.cw) by (nonlinear_arith)
        requires
            r.start <= x < r.end,
            f.cw >= 1,
    ;
    (k, i)
}

/// The selection shows: a selected cell is drawn in the selection's colors, whatever its own.
pub proof fn law_selection_shows(g: GridView, x: int, y: int)
    requires
        g.selects(g.display_vline(y), x),
    ensures
        cells::look(g, y, x).fg == crate::colors::SEL_FG,
        cells::look(g, y, x).bg == crate::colors::SEL_BG,
        cells::look(g, y, x).ch == cells::look(GridView { selection: None, ..g }, y, x).ch,
{
}

/// A grid sized for an area fills it as far as whole cells go, where the area has room for one and
/// the count fits in 16 bits.
pub proof fn law_grid_fills_area(extent: int, size: int)
    requires
        0 < size <= extent,
        extent / size < 0x1_0000,
    ensures
        ({
            let n = screen::max(extent / size, 1) % 0x1_0000;
            n * size <= extent < (n + 1) * size
        }),
{
    let n = extent / size;
    assert(1 <= n && n * size <= extent < (n + 1) * size) by (nonlinear_arith)
        requires
            n == extent / size,
            0 < size <= extent,
    ;
}

/// The background is drawn first and the outline last: in the accent color when the window is
/// focused, else in gray, with square corners when it is maximized.
pub proof fn law_outline_on_top(width: int, height: int, g: GridView, f: Fonts, c: ChromeView)
    ensures
        ({
            let s = render::scene(width, height, g, f, c);
            &&& s[0] == (OpView::Fill {
                rect: render::area(0, 0, width, height),
                color: DEFAULT_BG,
            })
            &&& s.last() matches OpView::Frame { radius, color, .. }
            &&& color == (if c.focused {
                c.accent
            } else {
                render::BORDER_INACTIVE
            })
            &&& radius == (if c.is_max {
                0
            } else {
                chrome::RADIUS as int
            })
        }),
{
}

/// A tab's close button is drawn where it answers to the mouse: its highlight covers its close
/// box, and the points of it that no caption button lies over close the tab.
pub proof fn law_close_box_drawn_where_it_answers(c: ChromeView, width: int, i: int, x: int, y: int)
    requires
        c.labels.len() <= chrome::MAX_TABS,
        0 <= i < c.labels.len(),
        c.hover_close == Some(i as usize),
    ensures
        render::tab_close(c, i)[0] matches OpView::Fill { rect, .. } && {
            &&& rect.contains(x, y) <==> chrome::in_close_box(i, x, y)
            &&& x < chrome::caption_left(width, CaptionBtn::Min) ==> (rect.contains(x, y)
                <==> chrome::hit_at(c.labels.len() as int, width, x, y) == Hit::Close(i as usize))
        },
{
    let ntabs = c.labels.len() as int;
    chrome::law_hit_names_what_is_there(ntabs, width, x, y);
    if chrome::in_close_box(i, x, y) {
        chrome::law_close_box_inside_tab(i, x, y);
        if x < chrome::caption_left(width, CaptionBtn::Min) {
            chrome::law_strip_answers_where_drawn(ntabs, width, i, x, y);
        }
    }
}

/// A caption button is drawn where it answers to the mouse: its highlight covers the points of
/// the window that press it.
pub proof fn law_caption_drawn_where_it_answers(
    c: ChromeView,
    width: int,
    btn: CaptionBtn,
    x: int,
    y: int,
)
    requires
        c.drawable(width),
        width <= i32::MAX,
        c.hover == Some(btn),
        x < width,
        0 <= y,
    ensures
        render::caption(c, width, btn)[0] matches OpView::Fill { rect, .. } && (rect.contains(x, y)
            <==> chrome::hit_at(c.labels.len() as int, width, x, y) == match btn {
            CaptionBtn::Min => Hit::Minimize,
            CaptionBtn::Max => Hit::Maximize,
            CaptionBtn::Close => Hit::WindowClose,
        }),
{
}

/// A dropdown item is drawn where it answers to the mouse: its highlight covers the points that
/// pick it.
pub proof fn law_menu_drawn_where_it_answers(
    c: ChromeView,
    items: Seq<Seq<char>>,
    width: int,
    i: int,
    x: int,
    y: int,
)
    requires
        c.drawable(width),
        width <= i32::MAX,
        0 <= i < items.len() <= chrome::MAX_MENU,
        c.menu_hover == Some(i as usize),
    ensures
        render::menu_item(c, items, width, i)[0] matches OpView::Fill { rect, .. } && {
            &&& rect.contains(x, y) <==> chrome::in_menu_item(
                c.labels.len() as int,
                width,
                i,
                x,
                y,
            )
            &&& rect.contains(x, y) <==> chrome::menu_at(
                c.labels.len() as int,
                items.len() as int,
                width,
                x,
                y,
            ) == Some(i as usize)
        },
{
    chrome::law_menu_picks_item(c.labels.len() as int, items.len() as int, width, i, x, y);
}

} // verus!

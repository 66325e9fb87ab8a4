//! Drawing the terminal itself: its cells, in runs of identical attributes, and its cursor.

use vstd::prelude::*;

use crate::chrome::{CHROME_H, PAD_X, PAD_Y};
use crate::colors::{SEL_BG, SEL_FG};
use crate::grid::{Cell, CursorStyle, Grid, FLAG_BOLD, FLAG_REVERSE, FLAG_UNDERLINE};
use crate::render;
use crate::render::{emit, rect, FontKind, Fonts, Op, OpView};
use crate::screen;
use crate::screen::GridView;

verus! {

/// How the cell in column `x` of display row `y` looks: reverse video swaps its colors, and the
/// selection overrides them. Columns past the end of a line look blank.
pub open spec fn look(g: GridView, y: int, x: int) -> Cell {
    let line = g.vlines()[g.display_vline(y)];
    let c = if x < line.len() {
        line[x]
    } else {
        screen::default_cell()
    };
    if g.selects(g.display_vline(y), x) {
        Cell { ch: c.ch, fg: SEL_FG, bg: SEL_BG, flags: c.flags }
    } else if c.flags & FLAG_REVERSE != 0 {
        Cell { ch: c.ch, fg: c.bg, bg: c.fg, flags: c.flags }
    } else {
        c
    }
}

/// Two cells that can be drawn in one run.
pub open spec fn alike(a: Cell, b: Cell) -> bool {
    a.fg == b.fg && a.bg == b.bg && a.flags == b.flags
}

/// Where the cells alike to the one in column `start` end, counting on from column `x`.
pub open spec fn run_end(g: GridView, y: int, start: int, x: int) -> int
    decreases g.cols - x,
{
    if x < g.cols && alike(look(g, y, start), look(g, y, x)) {
        run_end(g, y, start, x + 1)
    } else {
        x
    }
}

/// A run ends no sooner than it is counted from and no later than the row. All of it is alike,
/// and what comes next is not.
pub proof fn lemma_run_end(g: GridView, y: int, start: int, x: int)
    requires
        x <= g.cols,
    ensures
        x <= run_end(g, y, start, x) <= g.cols,
        forall|i: int|
            x <= i < run_end(g, y, start, x) ==> alike(look(g, y, start), #[trigger] look(g, y, i)),
        run_end(g, y, start, x) < g.cols ==> !alike(
            look(g, y, start),
            look(g, y, run_end(g, y, start, x)),
        ),
    decreases g.cols - x,
{
    if x < g.cols && alike(look(g, y, start), look(g, y, x)) {
        lemma_run_end(g, y, start, x + 1);
    }
}

/// Columns `start..end` of display row `y`.
pub ghost struct RunView {
    pub y: int,
    pub start: int,
    pub end: int,
}

/// The columns of row `y` from `x` on, in the longest runs of cells alike.
pub open spec fn runs_from(g: GridView, y: int, x: int) -> Seq<RunView>
    decreases g.cols - x,
{
    if x < g.cols {
        let end = run_end(g, y, x, x + 1);
        proof {
            lemma_run_end(g, y, x, x + 1);
        }
        seq![RunView { y, start: x, end }] + runs_from(g, y, end)
    } else {
        seq![]
    }
}

/// The runs of the whole screen, row by row.
pub open spec fn all_runs(g: GridView) -> Seq<RunView> {
    render::joined(g.rows, |y: int| runs_from(g, y, 0))
}

/// The code unit that stands for a character in a cell.
pub open spec fn cell_unit(c: char) -> u16 {
    (c as u32 % 0x1_0000) as u16
}

pub open spec fn is_bold(g: GridView, r: RunView) -> bool {
    look(g, r.y, r.start).flags & FLAG_BOLD != 0
}

/// Run `k`: the font, where it differs from the run before, the cells on their background, and a
/// line along the bottom of underlined ones.
pub open spec fn run_steps(g: GridView, f: Fonts, runs: Seq<RunView>, k: int) -> Seq<OpView> {
    let r = runs[k];
    let c = look(g, r.y, r.start);
    let left = PAD_X + r.start * f.cw;
    let top = CHROME_H + PAD_Y + r.y * f.ch;
    let right = PAD_X + r.end * f.cw;
    (if k == 0 || is_bold(g, r) != is_bold(g, runs[k - 1]) {
        seq![
            OpView::Font(
                if is_bold(g, r) {
                    FontKind::Bold
                } else {
                    FontKind::Normal
                },
            ),
        ]
    } else {
        seq![]
    }) + seq![
        OpView::Run {
            x: left,
            y: top + f.lead,
            rect: render::area(left, top, right, top + f.ch),
            units: Seq::new(
                (r.end - r.start) as nat,
                |i: int| cell_unit(look(g, r.y, r.start + i).ch),
            ),
            fg: c.fg,
            bg: c.bg,
        },
    ] + (if c.flags & FLAG_UNDERLINE != 0 {
        seq![
            OpView::Fill { rect: render::area(left, top + f.ch - 1, right, top + f.ch), color: c.fg },
        ]
    } else {
        seq![]
    })
}

/// The terminal's cells.
pub open spec fn cells_picture(g: GridView, f: Fonts) -> Seq<OpView> {
    let runs = all_runs(g);
    render::joined(runs.len() as int, |k: int| run_steps(g, f, runs, k))
}

/// The cursor, in the style the program asked for: shown only where the view is on the live screen.
pub open spec fn cursor_picture(g: GridView, f: Fonts, accent: u32) -> Seq<OpView> {
    let left = PAD_X + g.cx * f.cw;
    let top = CHROME_H + PAD_Y + g.cy * f.ch;
    if !g.cursor_visible || g.view_offset != 0 {
        seq![]
    } else {
        match g.cursor_style {
            CursorStyle::Block => seq![
                OpView::Invert { rect: render::area(left, top, left + f.cw, top + f.ch) },
            ],
            CursorStyle::Underline => seq![
                OpView::Fill {
                    rect: render::area(left, top + f.ch - 2, left + f.cw, top + f.ch),
                    color: accent,
                },
            ],
            CursorStyle::Bar => seq![
                OpView::Fill { rect: render::area(left, top, left + 2, top + f.ch), color: accent },
            ],
        }
    }
}

/// Columns `start..end` of display row `y`.
struct Run {
    y: usize,
    start: usize,
    end: usize,
}

impl Run {
    spec fn shape(self) -> RunView {
        RunView { y: self.y as int, start: self.start as int, end: self.end as int }
    }
}

spec fn shapes(runs: Seq<Run>) -> Seq<RunView> {
    runs.map_values(|r: Run| r.shape())
}

fn look_at(grid: &Grid, y: usize, x: usize) -> (c: Cell)
    requires
        grid.wf(),
        grid@.vlines().len() <= usize::MAX,
        y < grid@.rows,
    ensures
        c == look(grid@, y as int, x as int),
{
    let line: &[Cell] = grid.display_line(y);
    let vline: usize = grid.display_vline(y);
    let c: Cell = if x < line.len() {
        line[x]
    } else {
        Cell::default()
    };
    if let Some((al, ac, bl, bc)) = grid.sel_norm() {
        if (vline > al || (vline == al && x >= ac)) && (vline < bl || (vline == bl && x <= bc)) {
            return Cell { ch: c.ch, fg: SEL_FG, bg: SEL_BG, flags: c.flags };
        }
    }
    if c.flags & FLAG_REVERSE != 0 {
        return Cell { ch: c.ch, fg: c.bg, bg: c.fg, flags: c.flags };
    }
    c
}

/// Append the runs of display row `y`.
fn row_runs(runs: &mut Vec<Run>, grid: &Grid, y: usize)
    requires
        grid.wf(),
        grid@.vlines().len() <= usize::MAX,
        y < grid@.rows,
    ensures
        shapes(final(runs)@) == shapes(old(runs)@) + runs_from(grid@, y as int, 0),
{
    let ghost r0 = shapes(runs@);
    let ghost row = runs_from(grid@, y as int, 0);
    let mut x: usize = 0;
    while x < grid.cols
        invariant
            grid.wf(),
            grid@.vlines().len() <= usize::MAX,
            y < grid@.rows,
            x <= grid@.cols,
            r0 + row == shapes(runs@) + runs_from(grid@, y as int, x as int),
        decreases grid.cols - x,
    {
        let start: usize = x;
        let first: Cell = look_at(grid, y, start);
        x = x + 1;
        loop
            invariant_except_break
                x <= grid@.cols,
                run_end(grid@, y as int, start as int, start + 1) == run_end(
                    grid@,
                    y as int,
                    start as int,
                    x as int,
                ),
            invariant
                grid.wf(),
                grid@.vlines().len() <= usize::MAX,
                y < grid@.rows,
                first == look(grid@, y as int, start as int),
                start < x,
            ensures
                x <= grid@.cols,
                x == run_end(grid@, y as int, start as int, start + 1),
            decreases grid.cols - x,
        {
            if x >= grid.cols {
                break;
            }
            let c: Cell = look_at(grid, y, x);
            if c.fg != first.fg || c.bg != first.bg || c.flags != first.flags {
                break;
            }
            x = x + 1;
        }
        let ghost before = shapes(runs@);
        runs.push(Run { y, start, end: x });
        proof {
            let run = RunView { y: y as int, start: start as int, end: x as int };
            assert(shapes(runs@) =~= before.push(run));
            assert(shapes(runs@) + runs_from(grid@, y as int, x as int) =~= before + runs_from(
                grid@,
                y as int,
                start as int,
            ));
        }
    }
    proof {
        assert(shapes(runs@) =~= r0 + row);
    }
}

/// The code units of the characters of a run.
fn run_units(grid: &Grid, r: &Run) -> (units: Vec<u16>)
    requires
        grid.wf(),
        grid@.vlines().len() <= usize::MAX,
        r.y < grid@.rows,
        r.start <= r.end,
    ensures
        units@ == Seq::new(
            (r.end - r.start) as nat,
            |i: int| cell_unit(look(grid@, r.y as int, r.start + i).ch),
        ),
{
    let mut units: Vec<u16> = Vec::new();
    let mut x: usize = r.start;
    while x < r.end
        invariant
            grid.wf(),
            grid@.vlines().len() <= usize::MAX,
            r.y < grid@.rows,
            r.start <= x <= r.end,
            units@ == Seq::new(
                (x - r.start) as nat,
                |i: int| cell_unit(look(grid@, r.y as int, r.start + i).ch),
            ),
        decreases r.end - x,
    {
        let c: Cell = look_at(grid, r.y, x);
        units.push((c.ch as u32 % 0x1_0000) as u16);
        x = x + 1;
        proof {
            assert(units@ =~= Seq::new(
                (x - r.start) as nat,
                |i: int| cell_unit(look(grid@, r.y as int, r.start + i).ch),
            ));
        }
    }
    units
}

/// The runs that `all_runs` lists.
fn screen_runs(grid: &Grid) -> (runs: Vec<Run>)
    requires
        grid.wf(),
        grid@.vlines().len() <= usize::MAX,
    ensures
        shapes(runs@) == all_runs(grid@),
{
    let ghost rows = |y: int| runs_from(grid@, y, 0);
    let mut runs: Vec<Run> = Vec::new();
    let mut y: usize = 0;
    proof {
        assert(shapes(runs@) =~= render::joined(0, rows));
    }
    while y < grid.rows
        invariant
            grid.wf(),
            grid@.vlines().len() <= usize::MAX,
            y <= grid@.rows,
            rows == |y: int| runs_from(grid@, y, 0),
            shapes(runs@) == render::joined(y as int, rows),
        decreases grid.rows - y,
    {
        row_runs(&mut runs, grid, y);
        y = y + 1;
    }
    runs
}

/// Every run lies in the screen and has at least one cell.
proof fn lemma_runs_on_screen(g: GridView, rows: int)
    requires
        0 <= rows <= g.rows,
    ensures
        ({
            let runs = render::joined(rows, |y: int| runs_from(g, y, 0));
            forall|k: int|
                0 <= k < runs.len() ==> 0 <= (#[trigger] runs[k]).y < g.rows && 0 <= runs[k].start
                    < runs[k].end <= g.cols
        }),
    decreases rows,
{
    if rows > 0 {
        lemma_runs_on_screen(g, rows - 1);
        lemma_row_runs_on_screen(g, rows - 1, 0);
        let row = |y: int| runs_from(g, y, 0);
        let (runs, init, last) = (render::joined(rows, row), render::joined(rows - 1, row), row(rows - 1));
        assert forall|k: int| 0 <= k < runs.len() implies 0 <= (#[trigger] runs[k]).y < g.rows && 0
            <= runs[k].start < runs[k].end <= g.cols by {
            if k < init.len() {
                assert(runs[k] == init[k]);
            } else {
                assert(runs[k] == last[k - init.len()]);
            }
        }
    }
}

proof fn lemma_row_runs_on_screen(g: GridView, y: int, x: int)
    requires
        0 <= y < g.rows,
        0 <= x,
    ensures
        ({
            let runs = runs_from(g, y, x);
            forall|k: int|
                0 <= k < runs.len() ==> (#[trigger] runs[k]).y == y && x <= runs[k].start
                    < runs[k].end <= g.cols
        }),
    decreases g.cols - x,
{
    if x < g.cols {
        lemma_run_end(g, y, x, x + 1);
        let end = run_end(g, y, x, x + 1);
        lemma_row_runs_on_screen(g, y, end);
        let (runs, rest) = (runs_from(g, y, x), runs_from(g, y, end));
        assert forall|k: int| 0 <= k < runs.len() implies (#[trigger] runs[k]).y == y && x
            <= runs[k].start < runs[k].end <= g.cols by {
            if k > 0 {
                assert(runs[k] == rest[k - 1]);
            }
        }
    }
}

/// A position inside a drawable grid has `i32` pixel coordinates.
pub proof fn lemma_pixels(f: Fonts, cols: int, rows: int, x: int, y: int)
    requires
        f.wf(),
        f.drawable(cols, rows),
        0 <= x <= cols,
        0 <= y < rows,
    ensures
        0 <= x * f.cw <= i32::MAX - PAD_X - 2,
        0 <= y * f.ch,
        y * f.ch + f.ch <= i32::MAX - CHROME_H - PAD_Y,
        x <= i32::MAX,
        y <= i32::MAX,
{
    let (cw, ch) = (f.cw as int, f.ch as int);
    assert(0 <= x * cw <= cols * cw && x <= x * cw) by (nonlinear_arith)
        requires
            0 <= x <= cols,
            cw >= 1,
    ;
    assert(0 <= y * ch && y * ch + ch <= rows * ch && y <= y * ch) by (nonlinear_arith)
        requires
            0 <= y < rows,
            ch >= 1,
    ;
}

/// Draw run `k` of `runs`.
fn draw_run(ops: &mut Vec<Op>, grid: &Grid, f: &Fonts, runs: &Vec<Run>, k: usize)
    requires
        grid.wf(),
        grid@.vlines().len() <= usize::MAX,
        f.wf(),
        f.drawable(grid@.cols, grid@.rows),
        shapes(runs@) == all_runs(grid@),
        k < runs@.len(),
    ensures
        render::steps(final(ops)@) == render::steps(old(ops)@) + run_steps(grid@, *f, shapes(runs@), k as int),
{
    let r: &Run = &runs[k];
    proof {
        lemma_runs_on_screen(grid@, grid@.rows);
        assert(shapes(runs@)[k as int] == r.shape());
        lemma_pixels(*f, grid@.cols, grid@.rows, r.start as int, r.y as int);
        lemma_pixels(*f, grid@.cols, grid@.rows, r.end as int, r.y as int);
    }
    let c: Cell = look_at(grid, r.y, r.start);
    let bold: bool = c.flags & FLAG_BOLD != 0;
    let changed: bool = if k == 0 {
        true
    } else {
        let p: &Run = &runs[k - 1];
        proof {
            assert(shapes(runs@)[k - 1] == p.shape());
        }
        let before: Cell = look_at(grid, p.y, p.start);
        bold != (before.flags & FLAG_BOLD != 0)
    };
    if changed {
        let font: FontKind = if bold {
            FontKind::Bold
        } else {
            FontKind::Normal
        };
        emit(ops, Op::Font(font));
    }
    let left: i32 = PAD_X + r.start as i32 * f.cw;
    let top: i32 = CHROME_H + PAD_Y + r.y as i32 * f.ch;
    let right: i32 = PAD_X + r.end as i32 * f.cw;
    emit(
        ops,
        Op::Run {
            x: left,
            y: top + f.lead,
            rect: rect(left, top, right, top + f.ch),
            units: run_units(grid, r),
            fg: c.fg,
            bg: c.bg,
        },
    );
    if c.flags & FLAG_UNDERLINE != 0 {
        let line: i32 = top + f.ch - 1;
        emit(ops, Op::Fill { rect: rect(left, line, right, line + 1), color: c.fg });
    }
    proof {
        assert(render::steps(ops@) =~= render::steps(old(ops)@) + run_steps(grid@, *f, shapes(runs@), k as int));
    }
}

/// Draw the cells of the terminal, in runs of identical attributes.
pub fn draw_cells(ops: &mut Vec<Op>, grid: &Grid, f: &Fonts)
    requires
        grid.wf(),
        grid@.vlines().len() <= usize::MAX,
        f.wf(),
        f.drawable(grid@.cols, grid@.rows),
    ensures
        render::steps(final(ops)@) == render::steps(old(ops)@) + cells_picture(grid@, *f),
{
    let runs: Vec<Run> = screen_runs(grid);
    let ghost all = all_runs(grid@);
    let ghost of_run = |k: int| run_steps(grid@, *f, all, k);
    let ghost s0 = render::steps(ops@);
    let mut k: usize = 0;
    proof {
        assert(s0 =~= s0 + render::joined(0, of_run));
    }
    while k < runs.len()
        invariant
            grid.wf(),
            grid@.vlines().len() <= usize::MAX,
            f.wf(),
            f.drawable(grid@.cols, grid@.rows),
            all == all_runs(grid@),
            shapes(runs@) == all,
            of_run == |k: int| run_steps(grid@, *f, all, k),
            k <= runs@.len(),
            render::steps(ops@) == s0 + render::joined(k as int, of_run),
        decreases runs@.len() - k,
    {
        draw_run(ops, grid, f, &runs, k);
        k = k + 1;
        proof {
            assert(render::steps(ops@) =~= s0 + render::joined(k as int, of_run));
        }
    }
}

/// Draw the cursor.
pub fn draw_cursor(ops: &mut Vec<Op>, grid: &Grid, f: &Fonts, accent: u32)
    requires
        grid.wf(),
        f.wf(),
        f.drawable(grid@.cols, grid@.rows),
    ensures
        render::steps(final(ops)@) == render::steps(old(ops)@) + cursor_picture(grid@, *f, accent),
{
    if grid.cursor_visible && grid.view_offset == 0 {
        proof {
            lemma_pixels(*f, grid@.cols, grid@.rows, grid@.cx, grid@.cy);
            lemma_pixels(*f, grid@.cols, grid@.rows, grid@.cx + 1, grid@.cy);
            assert((grid@.cx + 1) * f.cw == grid@.cx * f.cw + f.cw) by (nonlinear_arith);
        }
        let left: i32 = PAD_X + grid.cx as i32 * f.cw;
        let top: i32 = CHROME_H + PAD_Y + grid.cy as i32 * f.ch;
        let bottom: i32 = top + f.ch;
        match grid.cursor_style {
            CursorStyle::Block => {
                emit(ops, Op::Invert { rect: rect(left, top, left + f.cw, bottom) });
            },
            CursorStyle::Underline => {
                emit(
                    ops,
                    Op::Fill { rect: rect(left, bottom - 2, left + f.cw, bottom), color: accent },
                );
            },
            CursorStyle::Bar => {
                emit(ops, Op::Fill { rect: rect(left, top, left + 2, bottom), color: accent });
            },
        }
    }
    proof {
        assert(render::steps(ops@) =~= render::steps(old(ops)@) + cursor_picture(grid@, *f, accent));
    }
}

} // verus!

//! The terminal screen buffer: primary and alternate screens, a bounded
//! scrollback (of the primary screen), a scroll region, line and character
//! editing, cursor save and restore, a view into the scrollback and a selection.

use std::collections::VecDeque;

use vstd::prelude::*;
use vstd::slice::slice_subrange;

use crate::buffer;
use crate::buffer::{copy_within, fill_range};
use crate::colors::{DEFAULT_BG, DEFAULT_FG};
use crate::screen;
use crate::screen::{GridView, SavedCursor};
use crate::text::{push_chars, trimmed_len};

verus! {

pub const FLAG_BOLD: u8 = 1;

pub const FLAG_ITALIC: u8 = 2;

pub const FLAG_UNDERLINE: u8 = 4;

pub const FLAG_REVERSE: u8 = 8;

/// Shape of the drawn cursor.
#[derive(Clone, Copy, PartialEq, Eq, Structural, Debug)]
pub enum CursorStyle {
    Block,
    Underline,
    Bar,
}

/// One character cell: a glyph, its colors, and `FLAG_*` attribute bits.
#[derive(Clone, Copy, PartialEq, Eq, Structural, Debug)]
pub struct Cell {
    pub ch: char,
    pub fg: u32,
    pub bg: u32,
    pub flags: u8,
}

/// A text selection, endpoints in virtual-line space (scrollback, followed by
/// the active screen).
#[derive(Clone, Copy, Debug)]
pub struct Sel {
    /// (virtual line, column) where the selection was started.
    pub a: (usize, usize),
    /// (virtual line, column) where it currently ends.
    pub b: (usize, usize),
}

impl Default for Cell {
    /// A space in the default colors.
    fn default() -> (c: Self)
        ensures
            c == crate::screen::default_cell(),
    {
        Cell { ch: ' ', fg: DEFAULT_FG, bg: DEFAULT_BG, flags: 0 }
    }
}

#[derive(Clone, Copy)]
struct Saved {
    cx: usize,
    cy: usize,
    fg: u32,
    bg: u32,
    flags: u8,
}

/// What only the grid itself touches: the cells of the two screens, row after
/// row, and the cursors that were put aside.
pub struct Store {
    primary: Vec<Cell>,
    alt: Vec<Cell>,
    max_scrollback: usize,
    saved: Option<Saved>,
    /// Primary cursor, kept while on the alternate screen.
    primary_cursor: (usize, usize),
}

impl Store {
    pub closed spec fn primary_lines(&self, cols: int, rows: int) -> Seq<Seq<Cell>> {
        buffer::lines_of(self.primary@, cols, rows)
    }

    pub closed spec fn alt_lines(&self, cols: int, rows: int) -> Seq<Seq<Cell>> {
        buffer::lines_of(self.alt@, cols, rows)
    }

    pub closed spec fn scrollback_capacity(&self) -> int {
        self.max_scrollback as int
    }

    pub closed spec fn saved_cursor(&self) -> Option<SavedCursor> {
        match self.saved {
            Some(s) => Some(
                SavedCursor {
                    cx: s.cx as int,
                    cy: s.cy as int,
                    fg: s.fg,
                    bg: s.bg,
                    flags: s.flags,
                },
            ),
            None => None,
        }
    }

    pub closed spec fn kept_cursor(&self) -> (int, int) {
        (self.primary_cursor.0 as int, self.primary_cursor.1 as int)
    }

    /// Both screens have `n` cells.
    pub closed spec fn holds(&self, n: int) -> bool {
        self.primary@.len() == n && self.alt@.len() == n
    }
}

/// The terminal screen: what a program has drawn, and the state that drawing
/// depends on.
pub struct Grid {
    pub cols: usize,
    pub rows: usize,
    pub on_alt: bool,
    pub scrollback: VecDeque<Vec<Cell>>,
    pub cx: usize,
    pub cy: usize,
    pub fg: u32,
    pub bg: u32,
    pub flags: u8,
    pub wrap_pending: bool,
    pub cursor_visible: bool,
    pub cursor_style: CursorStyle,
    /// Scroll region, 0-based inclusive `top..=bot`.
    pub top: usize,
    pub bot: usize,
    /// Terminal modes that steer input, paste and the mouse.
    pub app_cursor: bool,
    pub bracketed_paste: bool,
    pub mouse_report: bool,
    pub mouse_sgr: bool,
    /// Scrollback view: 0 is the bottom (live), N is N lines up.
    pub view_offset: usize,
    pub selection: Option<Sel>,
    pub store: Store,
}

/// The lines of the history.
pub open spec fn history(scrollback: Seq<Vec<Cell>>) -> Seq<Seq<Cell>> {
    scrollback.map_values(|line: Vec<Cell>| line@)
}

impl View for Grid {
    type V = GridView;

    open spec fn view(&self) -> GridView {
        GridView {
            cols: self.cols as int,
            rows: self.rows as int,
            primary: self.store.primary_lines(self.cols as int, self.rows as int),
            alt: self.store.alt_lines(self.cols as int, self.rows as int),
            on_alt: self.on_alt,
            scrollback: history(self.scrollback@),
            max_scrollback: self.store.scrollback_capacity(),
            cx: self.cx as int,
            cy: self.cy as int,
            fg: self.fg,
            bg: self.bg,
            flags: self.flags,
            wrap_pending: self.wrap_pending,
            cursor_visible: self.cursor_visible,
            cursor_style: self.cursor_style,
            top: self.top as int,
            bot: self.bot as int,
            app_cursor: self.app_cursor,
            bracketed_paste: self.bracketed_paste,
            mouse_report: self.mouse_report,
            mouse_sgr: self.mouse_sgr,
            view_offset: self.view_offset as int,
            saved: self.store.saved_cursor(),
            primary_cursor: self.store.kept_cursor(),
            selection: self.selection,
        }
    }
}

impl Grid {
    /// The grid is a screen: see [`GridView::wf`].
    pub open spec fn wf(&self) -> bool {
        self@.wf() && self.store.holds(self.rows * self.cols)
    }

    /// Each position of the screen has its cell in the active buffer.
    spec fn laid_out(&self) -> bool {
        &&& 1 <= self.cols
        &&& 1 <= self.rows
        &&& screen::screen_fits(self.cols as int, self.rows as int)
        &&& self.store.holds(self.rows * self.cols)
    }

    spec fn active(&self) -> Seq<Cell> {
        if self.on_alt {
            self.store.alt@
        } else {
            self.store.primary@
        }
    }

    fn buf(&self) -> (r: &Vec<Cell>)
        ensures
            r@ == self.active(),
    {
        if self.on_alt {
            &self.store.alt
        } else {
            &self.store.primary
        }
    }

    fn buf_mut(&mut self) -> (r: &mut Vec<Cell>)
        ensures
            r@ == old(self).active(),
            *final(self) == (if old(self).on_alt {
                Grid { store: Store { alt: *final(r), ..old(self).store }, ..*old(self) }
            } else {
                Grid { store: Store { primary: *final(r), ..old(self).store }, ..*old(self) }
            }),
    {
        if self.on_alt {
            &mut self.store.alt
        } else {
            &mut self.store.primary
        }
    }

    /// Position in the buffer of the start of line `y`.
    fn row_start(&self, y: usize) -> (r: usize)
        requires
            self.laid_out(),
            y <= self.rows,
        ensures
            r == y * self.cols,
            r <= self.active().len(),
    {
        proof {
            assert(y * self.cols <= self.rows * self.cols) by (nonlinear_arith)
                requires
                    y <= self.rows,
            ;
        }
        y * self.cols
    }

    fn blank(&self) -> (c: Cell)
        ensures
            c == self@.blank(),
    {
        Cell { ch: ' ', fg: self.fg, bg: self.bg, flags: 0 }
    }

    /// Scroll rows `top..=bot` down by `n`, blanking the top.
    #[verifier::rlimit(30)]
    pub fn scroll_down_in(&mut self, top: usize, bot: usize, n: usize)
        requires
            old(self).wf(),
            top <= bot,
            n == 0 || bot < old(self).rows,
        ensures
            final(self).wf(),
            final(self)@ == old(self)@.scroll_down(top as int, bot as int, n as int),
    {
        if n == 0 {
            return;
        }
        let n: usize = if n <= bot - top {
            n
        } else {
            bot - top + 1
        };
        let ghost g0 = *self;
        let ghost b0 = self.active();
        let blank = self.blank();
        let src: usize = self.row_start(top);
        let end: usize = self.row_start(bot + 1 - n);
        let dst: usize = self.row_start(top + n);
        let bottom: usize = self.row_start(bot + 1);
        proof {
            let c = self.cols as int;
            assert((bot + 1 - n) * c - top * c == (bot + 1) * c - (top + n) * c)
                by (nonlinear_arith);
            assert(top * c <= (bot + 1 - n) * c) by (nonlinear_arith)
                requires
                    top <= bot + 1 - n,
                    0 <= c,
            ;
            assert((top + n) * c == top * c + n * c) by (nonlinear_arith);
            assert(0 <= n * c) by (nonlinear_arith)
                requires
                    0 <= n,
                    0 <= c,
            ;
        }
        let buf = self.buf_mut();
        copy_within(buf, src, end, dst);
        fill_range(buf, src, dst, blank);
        proof {
            buffer::lemma_scroll_down(
                b0,
                self.active(),
                self.cols as int,
                self.rows as int,
                top as int,
                bot as int,
                n as int,
                blank,
            );
        }
    }

    /// Cursor positions can be counted from 1.
    pub proof fn lemma_position_counts(&self)
        requires
            self.wf(),
        ensures
            self.cx + 1 <= usize::MAX,
            self.cy + 1 <= usize::MAX,
    {
        self.lemma_bounds();
    }

    /// A screen dimension is far below the machine limits.
    proof fn lemma_bounds(&self)
        requires
            self.wf(),
        ensures
            self.cols <= isize::MAX as int / 16,
            self.rows <= isize::MAX as int / 16,
    {
        assert(self.cols <= self.rows * self.cols) by (nonlinear_arith)
            requires
                1 <= self.rows,
                0 <= self.cols,
        ;
        assert(self.rows <= self.rows * self.cols) by (nonlinear_arith)
            requires
                1 <= self.cols,
                0 <= self.rows,
        ;
    }

    /// A copy of line `y`.
    fn row_vec(&self, y: usize) -> (r: Vec<Cell>)
        requires
            self.laid_out(),
            y < self.rows,
        ensures
            r@ == self@.lines()[y as int],
    {
        let start: usize = self.row_start(y);
        let end: usize = self.row_start(y + 1);
        proof {
            assert((y + 1) * self.cols == y * self.cols + self.cols) by (nonlinear_arith);
        }
        let mut line: Vec<Cell> = Vec::new();
        let mut i: usize = start;
        while i < end
            invariant
                self.laid_out(),
                start <= i <= end <= self.active().len(),
                line@ == self.active().subrange(start as int, i as int),
            decreases end - i,
        {
            line.push(self.buf()[i]);
            proof {
                assert(self.active().subrange(start as int, i + 1) =~= self.active().subrange(
                    start as int,
                    i as int,
                ).push(self.active()[i as int]));
            }
            i = i + 1;
        }
        proof {
            assert(line@ =~= self@.lines()[y as int]);
        }
        line
    }

    /// Append lines `0..n` to the history, dropping its oldest lines beyond the
    /// capacity.
    fn capture_lines(&mut self, n: usize)
        requires
            old(self).wf(),
            n <= old(self).rows,
        ensures
            final(self).wf(),
            final(self).store == old(self).store,
            final(self)@ == (GridView {
                scrollback: screen::last_n(
                    old(self)@.scrollback + old(self)@.lines().subrange(0, n as int),
                    old(self)@.max_scrollback,
                ),
                ..old(self)@
            }),
    {
        let ghost g0 = *self;
        let ghost l = self@.lines();
        proof {
            assert(history(self.scrollback@) =~= g0@.scrollback + l.subrange(0, 0));
        }
        let mut r: usize = 0;
        while r < n
            invariant
                g0.wf(),
                r <= n <= g0.rows,
                l == g0@.lines(),
                *self == (Grid { scrollback: self.scrollback, ..g0 }),
                history(self.scrollback@) == g0@.scrollback + l.subrange(0, r as int),
            decreases n - r,
        {
            let ghost sb = self.scrollback@;
            let line: Vec<Cell> = self.row_vec(r);
            self.scrollback.push_back(line);
            proof {
                assert(history(self.scrollback@) =~= history(sb).push(line@));
                assert(l.subrange(0, r + 1) =~= l.subrange(0, r as int).push(l[r as int]));
                assert(history(self.scrollback@) =~= g0@.scrollback + l.subrange(0, r + 1));
            }
            r = r + 1;
        }
        let ghost full = g0@.scrollback + l.subrange(0, n as int);
        proof {
            assert(full =~= screen::last_n(full, full.len() as int));
        }
        while self.scrollback.len() > self.store.max_scrollback
            invariant
                g0.wf(),
                *self == (Grid { scrollback: self.scrollback, ..g0 }),
                self.scrollback@.len() <= full.len(),
                full.len() <= g0.store.max_scrollback ==> self.scrollback@.len() == full.len(),
                full.len() > g0.store.max_scrollback ==> self.scrollback@.len()
                    >= g0.store.max_scrollback,
                history(self.scrollback@) == screen::last_n(full, self.scrollback@.len() as int),
            decreases self.scrollback@.len(),
        {
            let ghost sb = self.scrollback@;
            self.scrollback.pop_front();
            proof {
                assert(history(self.scrollback@) =~= history(sb).subrange(1, sb.len() as int));
                assert(history(self.scrollback@) =~= screen::last_n(full, sb.len() - 1));
            }
        }
        proof {
            assert(self@.scrollback =~= screen::last_n(full, g0@.max_scrollback));
            assert forall|i: int| 0 <= i < self@.scrollback.len() implies 1 <= (
            #[trigger] self@.scrollback[i]).len() by {
                let j = i + (full.len() - self@.scrollback.len());
                assert(self@.scrollback[i] == full[j]);
                if j < g0@.scrollback.len() {
                    assert(full[j] == g0@.scrollback[j]);
                } else {
                    assert(full[j] == l[j - g0@.scrollback.len()]);
                }
            }
        }
    }

    /// Move rows `top..=bot` up by `n`, blanking the bottom.
    fn shift_up(&mut self, top: usize, bot: usize, n: usize)
        requires
            old(self).wf(),
            top <= bot < old(self).rows,
            0 < n <= bot - top + 1,
        ensures
            final(self).wf(),
            final(self)@ == old(self)@.scroll_up(top as int, bot as int, n as int, false),
    {
        let ghost b0 = self.active();
        let blank = self.blank();
        let src: usize = self.row_start(top + n);
        let end: usize = self.row_start(bot + 1);
        let dst: usize = self.row_start(top);
        let kept: usize = self.row_start(bot + 1 - n);
        proof {
            let c = self.cols as int;
            assert((bot + 1 - n) * c - top * c == (bot + 1) * c - (top + n) * c)
                by (nonlinear_arith);
            assert(top * c <= (bot + 1 - n) * c) by (nonlinear_arith)
                requires
                    top <= bot + 1 - n,
                    0 <= c,
            ;
            assert((top + n) * c == top * c + n * c) by (nonlinear_arith);
            assert(0 <= n * c) by (nonlinear_arith)
                requires
                    0 <= n,
                    0 <= c,
            ;
        }
        let buf = self.buf_mut();
        copy_within(buf, src, end, dst);
        fill_range(buf, kept, end, blank);
        proof {
            buffer::lemma_scroll_up(
                b0,
                self.active(),
                self.cols as int,
                self.rows as int,
                top as int,
                bot as int,
                n as int,
                blank,
            );
        }
    }

    /// Scroll rows `top..=bot` up by `n`, blanking the bottom. If `capture` and
    /// the region is the full primary screen, evicted lines go to scrollback.
    pub fn scroll_up_in(&mut self, top: usize, bot: usize, n: usize, capture: bool)
        requires
            old(self).wf(),
            top <= bot,
            n == 0 || bot < old(self).rows,
        ensures
            final(self).wf(),
            final(self)@ == old(self)@.scroll_up(top as int, bot as int, n as int, capture),
    {
        if n == 0 {
            return;
        }
        let n: usize = if n <= bot - top {
            n
        } else {
            bot - top + 1
        };
        let cap: bool = capture && !self.on_alt && top == 0 && bot == self.rows - 1;
        if cap {
            self.capture_lines(n);
        }
        self.shift_up(top, bot, n);
    }

    /// A cleared screen of `cols` by `rows` cells, at least 1 by 1, that keeps up
    /// to `max_scrollback` lines of history.
    pub fn new(cols: usize, rows: usize, max_scrollback: usize) -> (g: Self)
        requires
            screen::screen_fits(screen::max(cols as int, 1), screen::max(rows as int, 1)),
        ensures
            g.wf(),
            g@ == GridView::fresh(
                screen::max(cols as int, 1),
                screen::max(rows as int, 1),
                max_scrollback as int,
            ),
    {
        let cols: usize = if cols < 1 {
            1
        } else {
            cols
        };
        let rows: usize = if rows < 1 {
            1
        } else {
            rows
        };
        let g = Grid {
            cols,
            rows,
            on_alt: false,
            scrollback: VecDeque::new(),
            cx: 0,
            cy: 0,
            fg: DEFAULT_FG,
            bg: DEFAULT_BG,
            flags: 0,
            wrap_pending: false,
            cursor_visible: true,
            cursor_style: CursorStyle::Block,
            top: 0,
            bot: rows - 1,
            app_cursor: false,
            bracketed_paste: false,
            mouse_report: false,
            mouse_sgr: false,
            view_offset: 0,
            selection: None,
            store: Store {
                primary: buffer::fresh(cols, rows),
                alt: buffer::fresh(cols, rows),
                max_scrollback,
                saved: None,
                primary_cursor: (0, 0),
            },
        };
        proof {
            assert(g@.scrollback =~= Seq::empty());
        }
        g
    }

    /// Change the size to `cols` by `rows`, at least 1 by 1. The common top-left
    /// part of both screens is kept.
    #[verifier::rlimit(30)]
    pub fn resize(&mut self, cols: usize, rows: usize)
        requires
            old(self).wf(),
            screen::screen_fits(screen::max(cols as int, 1), screen::max(rows as int, 1)),
        ensures
            final(self).wf(),
            final(self)@ == old(self)@.resize(
                screen::max(cols as int, 1),
                screen::max(rows as int, 1),
            ),
    {
        let cols: usize = if cols < 1 {
            1
        } else {
            cols
        };
        let rows: usize = if rows < 1 {
            1
        } else {
            rows
        };
        if cols == self.cols && rows == self.rows {
            return;
        }
        self.store.primary = buffer::regrid(&self.store.primary, self.cols, self.rows, cols, rows);
        self.store.alt = buffer::regrid(&self.store.alt, self.cols, self.rows, cols, rows);
        self.cols = cols;
        self.rows = rows;
        self.top = 0;
        self.bot = rows - 1;
        if self.cx > cols - 1 {
            self.cx = cols - 1;
        }
        if self.cy > rows - 1 {
            self.cy = rows - 1;
        }
        self.wrap_pending = false;
        self.clamp_view();
    }

    // ---- printing and basic movement ----

    /// Print `ch` at the cursor, wrapping first if a wrap is pending.
    pub fn put(&mut self, ch: char)
        requires
            old(self).wf(),
        ensures
            final(self).wf(),
            final(self)@ == old(self)@.put(ch),
    {
        self.carry_wrap();
        let cell = Cell { ch, fg: self.fg, bg: self.bg, flags: self.flags };
        self.write_cell(cell);
        if self.cx + 1 >= self.cols {
            self.wrap_pending = true;
        } else {
            self.cx = self.cx + 1;
        }
    }

    fn carry_wrap(&mut self)
        requires
            old(self).wf(),
        ensures
            final(self).wf(),
            final(self)@ == old(self)@.carry_wrap(),
    {
        if self.wrap_pending {
            self.cx = 0;
            self.line_feed();
        }
    }

    fn write_cell(&mut self, cell: Cell)
        requires
            old(self).wf(),
        ensures
            final(self).wf(),
            final(self)@ == old(self)@.write_cell(cell),
    {
        let ghost g0 = *self;
        let ghost b0 = self.active();
        let start: usize = self.row_start(self.cy);
        proof {
            buffer::lemma_row_order(
                self.cols as int,
                self.rows as int,
                self.cx as int,
                self.cy as int,
                0,
            );
            self.lemma_bounds();
        }
        let i: usize = start + self.cx;
        let buf = self.buf_mut();
        buf.set(i, cell);
        proof {
            let cols = self.cols as int;
            let rows = self.rows as int;
            let m = self@.lines();
            let r = g0@.write_cell(cell).lines();
            assert forall|x: int, y: int| 0 <= x < cols && 0 <= y < rows implies #[trigger] m[y][x]
                == r[y][x] by {
                buffer::lemma_row_order(cols, rows, x, y, g0.cy as int);
                buffer::lemma_row_order(cols, rows, x, y, g0.cy + 1);
                assert((g0.cy + 1) * cols == g0.cy * cols + cols) by (nonlinear_arith);
                assert(m[y][x] == self.active()[y * cols + x]);
            }
            buffer::lemma_same_cells(m, r, cols, rows);
        }
    }

    pub fn carriage_return(&mut self)
        requires
            old(self).wf(),
        ensures
            final(self).wf(),
            final(self)@ == old(self)@.carriage_return(),
    {
        self.cx = 0;
        self.wrap_pending = false;
    }

    pub fn line_feed(&mut self)
        requires
            old(self).wf(),
        ensures
            final(self).wf(),
            final(self)@ == old(self)@.line_feed(),
    {
        self.wrap_pending = false;
        if self.cy == self.bot {
            self.scroll_up_in(self.top, self.bot, 1, true);
        } else if self.cy < self.rows - 1 {
            self.cy = self.cy + 1;
        }
    }

    /// Reverse line feed (RI): up one, scrolling the region down at the top.
    pub fn reverse_line_feed(&mut self)
        requires
            old(self).wf(),
        ensures
            final(self).wf(),
            final(self)@ == old(self)@.reverse_line_feed(),
    {
        self.wrap_pending = false;
        if self.cy == self.top {
            self.scroll_down_in(self.top, self.bot, 1);
        } else if self.cy > 0 {
            self.cy = self.cy - 1;
        }
    }

    pub fn backspace(&mut self)
        requires
            old(self).wf(),
        ensures
            final(self).wf(),
            final(self)@ == old(self)@.backspace(),
    {
        self.wrap_pending = false;
        if self.cx > 0 {
            self.cx = self.cx - 1;
        }
    }

    pub fn tab(&mut self)
        requires
            old(self).wf(),
        ensures
            final(self).wf(),
            final(self)@ == old(self)@.tab(),
    {
        proof {
            self.lemma_bounds();
        }
        let next: usize = (self.cx / 8 + 1) * 8;
        self.cx = if next < self.cols - 1 {
            next
        } else {
            self.cols - 1
        };
        self.wrap_pending = false;
    }

    /// Put the cursor at `(x, y)`, or as near as the screen allows.
    pub fn set_cursor(&mut self, x: usize, y: usize)
        requires
            old(self).wf(),
        ensures
            final(self).wf(),
            final(self)@ == old(self)@.set_cursor(x as int, y as int),
    {
        self.cx = if x < self.cols - 1 {
            x
        } else {
            self.cols - 1
        };
        self.cy = if y < self.rows - 1 {
            y
        } else {
            self.rows - 1
        };
        self.wrap_pending = false;
    }

    /// Move the cursor by `(dx, dy)`, stopping at the edges.
    pub fn move_cursor(&mut self, dx: isize, dy: isize)
        requires
            old(self).wf(),
        ensures
            final(self).wf(),
            final(self)@ == old(self)@.move_cursor(dx as int, dy as int),
    {
        self.cx = step_within(self.cx, dx, self.cols - 1);
        self.cy = step_within(self.cy, dy, self.rows - 1);
        self.wrap_pending = false;
    }

    // ---- line and character editing ----

    /// Insert `n` blank lines at the cursor's line, within the scroll region.
    pub fn insert_lines(&mut self, n: usize)
        requires
            old(self).wf(),
        ensures
            final(self).wf(),
            final(self)@ == old(self)@.insert_lines(n as int),
    {
        if self.cy >= self.top && self.cy <= self.bot {
            self.scroll_down_in(self.cy, self.bot, n);
        }
    }

    /// Delete `n` lines from the cursor's line on, within the scroll region.
    pub fn delete_lines(&mut self, n: usize)
        requires
            old(self).wf(),
        ensures
            final(self).wf(),
            final(self)@ == old(self)@.delete_lines(n as int),
    {
        if self.cy >= self.top && self.cy <= self.bot {
            self.scroll_up_in(self.cy, self.bot, n, false);
        }
    }

    /// Insert `n` blanks at the cursor; cells pushed past the edge are lost.
    #[verifier::rlimit(30)]
    pub fn insert_chars(&mut self, n: usize)
        requires
            old(self).wf(),
        ensures
            final(self).wf(),
            final(self)@ == old(self)@.insert_chars(n as int),
    {
        let ghost g0 = *self;
        let ghost b0 = self.active();
        let cols: usize = self.cols;
        let row: usize = self.row_start(self.cy);
        let cx: usize = self.cx;
        let n: usize = if n < cols - cx {
            n
        } else {
            cols - cx
        };
        let blank = self.blank();
        proof {
            buffer::lemma_line_replaced(
                b0,
                b0,
                cols as int,
                self.rows as int,
                self.cy as int,
            );
        }
        let buf = self.buf_mut();
        let len: usize = buf.len();
        copy_within(buf, row + cx, row + cols - n, row + cx + n);
        fill_range(buf, row + cx, row + cx + n, blank);
        proof {
            let b1 = self.active();
            buffer::lemma_line_replaced(
                b0,
                b1,
                cols as int,
                self.rows as int,
                self.cy as int,
            );
            let l = g0@.lines()[g0@.cy];
            assert(b1.subrange(row as int, row + cols) =~= l.subrange(0, cx as int)
                + g0@.blank_cells(n as int) + l.subrange(cx as int, cols - n));
        }
    }

    /// Delete `n` cells at the cursor; blanks come in at the edge.
    #[verifier::rlimit(30)]
    pub fn delete_chars(&mut self, n: usize)
        requires
            old(self).wf(),
        ensures
            final(self).wf(),
            final(self)@ == old(self)@.delete_chars(n as int),
    {
        let ghost g0 = *self;
        let ghost b0 = self.active();
        let cols: usize = self.cols;
        let row: usize = self.row_start(self.cy);
        let cx: usize = self.cx;
        let n: usize = if n < cols - cx {
            n
        } else {
            cols - cx
        };
        let blank = self.blank();
        proof {
            buffer::lemma_line_replaced(
                b0,
                b0,
                cols as int,
                self.rows as int,
                self.cy as int,
            );
        }
        let buf = self.buf_mut();
        let len: usize = buf.len();
        copy_within(buf, row + cx + n, row + cols, row + cx);
        fill_range(buf, row + cols - n, row + cols, blank);
        proof {
            let b1 = self.active();
            buffer::lemma_line_replaced(
                b0,
                b1,
                cols as int,
                self.rows as int,
                self.cy as int,
            );
            let l = g0@.lines()[g0@.cy];
            assert(b1.subrange(row as int, row + cols) =~= l.subrange(0, cx as int) + l.subrange(
                cx + n,
                cols as int,
            ) + g0@.blank_cells(n as int));
        }
    }

    /// Blank the cells of the buffer range `from..to`, which are those that
    /// `erased` names.
    fn erase_range(&mut self, from: usize, to: usize, Ghost(erased): Ghost<
        spec_fn(int, int) -> bool,
    >)
        requires
            old(self).wf(),
            from <= to <= old(self).rows * old(self).cols,
            forall|x: int, y: int|
                0 <= x < old(self).cols && 0 <= y < old(self).rows ==> #[trigger] erased(x, y)
                    == (from <= y * old(self).cols + x < to),
        ensures
            final(self).wf(),
            final(self)@ == old(self)@.erase_where(erased),
    {
        let ghost g0 = *self;
        let ghost b0 = self.active();
        let blank = self.blank();
        let buf = self.buf_mut();
        fill_range(buf, from, to, blank);
        proof {
            let cols = self.cols as int;
            let rows = self.rows as int;
            let m = self@.lines();
            let r = g0@.erase_where(erased).lines();
            assert forall|x: int, y: int| 0 <= x < cols && 0 <= y < rows implies #[trigger] m[y][x]
                == r[y][x] by {
                buffer::lemma_row_order(cols, rows, x, y, 0);
                assert(m[y][x] == self.active()[y * cols + x]);
                assert(g0@.lines()[y][x] == b0[y * cols + x]);
                assert(erased(x, y) == (from <= y * cols + x < to));
            }
            buffer::lemma_same_cells(m, r, cols, rows);
        }
    }

    /// Blank `n` cells from the cursor on, at most to the end of the line.
    pub fn erase_chars(&mut self, n: usize)
        requires
            old(self).wf(),
        ensures
            final(self).wf(),
            final(self)@ == old(self)@.erase_chars(n as int),
    {
        let row: usize = self.row_start(self.cy);
        let end: usize = self.row_start(self.cy + 1);
        proof {
            self.lemma_line_at(row, end);
        }
        let n1: usize = if n < self.cols - self.cx {
            n
        } else {
            self.cols - self.cx
        };
        let ghost cx = self.cx as int;
        let ghost cy = self.cy as int;
        self.erase_range(
            row + self.cx,
            row + self.cx + n1,
            Ghost(|x: int, y: int| y == cy && cx <= x < cx + n),
        );
        proof {
            assert(old(self)@.erase_chars(n as int) == old(self)@.erase_where(
                |x: int, y: int| y == cy && cx <= x < cx + n,
            ));
        }
    }

    /// Where the cells of the cursor's line lie in the buffer.
    proof fn lemma_line_at(&self, row: usize, end: usize)
        requires
            self.wf(),
            row == self.cy * self.cols,
            end == (self.cy + 1) * self.cols,
        ensures
            end == row + self.cols,
            end <= self.rows * self.cols,
            forall|x: int, y: int|
                #![trigger y * self.cols + x]
                0 <= x < self.cols && 0 <= y < self.rows ==> {
                    &&& y < self.cy ==> y * self.cols + x < row
                    &&& y == self.cy ==> y * self.cols + x == row + x
                    &&& y > self.cy ==> y * self.cols + x >= end
                    &&& 0 <= y * self.cols + x < self.rows * self.cols
                },
    {
        let c = self.cols as int;
        assert((self.cy + 1) * c == self.cy * c + c) by (nonlinear_arith);
        buffer::lemma_row_order(c, self.rows as int, c - 1, self.cy as int, 0);
        assert forall|x: int, y: int|
            #![trigger y * self.cols + x]
            0 <= x < c && 0 <= y < self.rows implies {
            &&& y < self.cy ==> y * c + x < row
            &&& y == self.cy ==> y * c + x == row + x
            &&& y > self.cy ==> y * c + x >= end
            &&& 0 <= y * c + x < self.rows * c
        } by {
            buffer::lemma_row_order(c, self.rows as int, x, y, self.cy as int);
            buffer::lemma_row_order(c, self.rows as int, x, y, self.cy + 1);
        }
    }

    // ---- erase ----

    /// Erase from the cursor to the end of the screen (0), from its start through
    /// the cursor (1), or all of it.
    pub fn erase_display(&mut self, mode: u16)
        requires
            old(self).wf(),
        ensures
            final(self).wf(),
            final(self)@ == old(self)@.erase_display(mode),
    {
        let row: usize = self.row_start(self.cy);
        let end: usize = self.row_start(self.cy + 1);
        let all: usize = self.row_start(self.rows);
        proof {
            self.lemma_line_at(row, end);
        }
        let cur: usize = row + self.cx;
        let ghost cx = self.cx as int;
        let ghost cy = self.cy as int;
        if mode == 0 {
            self.erase_range(
                cur,
                all,
                Ghost(|x: int, y: int| screen::reading_le(cy, cx, y, x)),
            );
        } else if mode == 1 {
            self.erase_range(
                0,
                cur + 1,
                Ghost(|x: int, y: int| screen::reading_le(y, x, cy, cx)),
            );
        } else {
            self.erase_range(0, all, Ghost(|x: int, y: int| true));
        }
    }

    /// The same on the cursor's line.
    pub fn erase_line(&mut self, mode: u16)
        requires
            old(self).wf(),
        ensures
            final(self).wf(),
            final(self)@ == old(self)@.erase_line(mode),
    {
        let row: usize = self.row_start(self.cy);
        let end: usize = self.row_start(self.cy + 1);
        proof {
            self.lemma_line_at(row, end);
        }
        let cur: usize = row + self.cx;
        let ghost cx = self.cx as int;
        let ghost cy = self.cy as int;
        if mode == 0 {
            self.erase_range(cur, end, Ghost(|x: int, y: int| y == cy && cx <= x));
        } else if mode == 1 {
            self.erase_range(row, cur + 1, Ghost(|x: int, y: int| y == cy && x <= cx));
        } else {
            self.erase_range(row, end, Ghost(|x: int, y: int| y == cy));
        }
    }

    pub fn reset_attrs(&mut self)
        ensures
            old(self).wf() ==> final(self).wf(),
            final(self)@ == old(self)@.reset_attrs(),
    {
        self.fg = DEFAULT_FG;
        self.bg = DEFAULT_BG;
        self.flags = 0;
    }

    // ---- scroll region, cursor save, alternate screen ----

    /// Set the scroll region to `top..=bot`; see
    /// [`GridView::set_scroll_region`].
    pub fn set_scroll_region(&mut self, top: usize, bot: usize)
        requires
            old(self).wf(),
        ensures
            final(self).wf(),
            final(self)@ == old(self)@.set_scroll_region(top as int, bot as int),
    {
        let last: usize = self.rows - 1;
        let top: usize = if top < last {
            top
        } else {
            last
        };
        let bot: usize = if bot < last {
            bot
        } else {
            last
        };
        let whole: bool = top >= bot;
        self.top = if whole {
            0
        } else {
            top
        };
        self.bot = if whole {
            last
        } else {
            bot
        };
        self.set_cursor(0, 0);
    }

    /// Put the cursor position and attributes aside.
    pub fn save_cursor(&mut self)
        ensures
            old(self).wf() ==> final(self).wf(),
            final(self)@ == old(self)@.save_cursor(),
    {
        self.store.saved =
        Some(
            Saved { cx: self.cx, cy: self.cy, fg: self.fg, bg: self.bg, flags: self.flags },
        );
    }

    /// Return to the position and attributes put aside, if there are any.
    pub fn restore_cursor(&mut self)
        requires
            old(self).wf(),
        ensures
            final(self).wf(),
            final(self)@ == old(self)@.restore_cursor(),
    {
        if let Some(s) = self.store.saved {
            self.fg = s.fg;
            self.bg = s.bg;
            self.flags = s.flags;
            self.set_cursor(s.cx, s.cy);
        }
    }

    /// Switch to a cleared alternate screen.
    pub fn enter_alt(&mut self)
        requires
            old(self).wf(),
        ensures
            final(self).wf(),
            final(self)@ == old(self)@.enter_alt(),
    {
        if self.on_alt {
            return;
        }
        self.store.primary_cursor = (self.cx, self.cy);
        self.on_alt = true;
        let n: usize = self.store.alt.len();
        fill_range(&mut self.store.alt, 0, n, Cell::default());
        proof {
            buffer::lemma_filled(
                self.store.alt@,
                self.cols as int,
                self.rows as int,
                screen::default_cell(),
            );
        }
        self.top = 0;
        self.bot = self.rows - 1;
        self.view_offset = 0;
        self.set_cursor(0, 0);
    }

    /// Switch back to the primary screen.
    pub fn leave_alt(&mut self)
        requires
            old(self).wf(),
        ensures
            final(self).wf(),
            final(self)@ == old(self)@.leave_alt(),
    {
        if !self.on_alt {
            return;
        }
        self.on_alt = false;
        self.top = 0;
        self.bot = self.rows - 1;
        let (x, y) = self.store.primary_cursor;
        self.set_cursor(x, y);
    }

    /// Reset the terminal (RIS); see [`GridView::full_reset`].
    pub fn full_reset(&mut self)
        requires
            old(self).wf(),
        ensures
            final(self).wf(),
            final(self)@ == old(self)@.full_reset(),
    {
        let n: usize = self.store.primary.len();
        fill_range(&mut self.store.primary, 0, n, Cell::default());
        let n: usize = self.store.alt.len();
        fill_range(&mut self.store.alt, 0, n, Cell::default());
        proof {
            buffer::lemma_filled(
                self.store.primary@,
                self.cols as int,
                self.rows as int,
                screen::default_cell(),
            );
            buffer::lemma_filled(
                self.store.alt@,
                self.cols as int,
                self.rows as int,
                screen::default_cell(),
            );
        }
        self.scrollback.clear();
        self.on_alt = false;
        self.top = 0;
        self.bot = self.rows - 1;
        self.cx = 0;
        self.cy = 0;
        self.wrap_pending = false;
        self.cursor_visible = true;
        self.cursor_style = CursorStyle::Block;
        self.app_cursor = false;
        self.bracketed_paste = false;
        self.view_offset = 0;
        self.store.saved = None;
        proof {
            assert(self@.scrollback =~= Seq::empty());
        }
        self.reset_attrs();
    }

    // ---- scrollback view ----

    /// Keep the view within the history.
    pub fn clamp_view(&mut self)
        ensures
            *final(self) == (Grid { view_offset: final(self).view_offset, ..*old(self) }),
            final(self).view_offset == screen::min(
                old(self).view_offset as int,
                old(self)@.scrollback.len() as int,
            ),
    {
        let max: usize = self.max_offset();
        if self.view_offset > max {
            self.view_offset = max;
        }
    }

    /// Lines of history, hence how far up the view can go.
    pub fn max_offset(&self) -> (n: usize)
        ensures
            n == self@.scrollback.len(),
    {
        self.scrollback.len()
    }

    /// Scroll the view by `delta` lines, up being positive.
    pub fn scroll_view(&mut self, delta: isize)
        requires
            old(self).wf(),
        ensures
            final(self).wf(),
            final(self)@ == old(self)@.scroll_view(delta as int),
    {
        self.view_offset = step_within(self.view_offset, delta, self.max_offset());
    }

    /// Back to the live screen.
    pub fn snap_to_bottom(&mut self)
        ensures
            old(self).wf() ==> final(self).wf(),
            final(self)@ == old(self)@.snap_to_bottom(),
    {
        self.view_offset = 0;
    }

    // ---- selection ----

    /// Cells of a virtual line (scrollback lines first, followed by the active
    /// rows).
    fn line_cells(&self, vline: usize) -> (r: &[Cell])
        requires
            self.wf(),
            vline < self@.vlines().len(),
        ensures
            r@ == self@.vlines()[vline as int],
    {
        let sb: usize = self.scrollback.len();
        if vline < sb {
            self.scrollback[vline].as_slice()
        } else {
            self.row_slice(vline - sb)
        }
    }

    /// Cells of active row `y`.
    fn row_slice(&self, y: usize) -> (r: &[Cell])
        requires
            self.wf(),
            y < self.rows,
        ensures
            r@ == self@.lines()[y as int],
    {
        let start: usize = self.row_start(y);
        let end: usize = self.row_start(y + 1);
        proof {
            assert((y + 1) * self.cols == y * self.cols + self.cols) by (nonlinear_arith);
            assert(self.active().subrange(start as int, end as int) =~= self@.lines()[y as int]);
        }
        slice_subrange(self.buf().as_slice(), start, end)
    }

    /// Map a display row to a virtual line.
    pub fn display_vline(&self, y: usize) -> (v: usize)
        requires
            self.wf(),
            self@.display_vline(y as int) <= usize::MAX,
        ensures
            v == self@.display_vline(y as int),
    {
        (self.scrollback.len() - self.view_offset) + y
    }

    /// Start a selection at column `col` of virtual line `vline`.
    pub fn sel_begin(&mut self, vline: usize, col: usize)
        ensures
            old(self).wf() ==> final(self).wf(),
            final(self)@ == old(self)@.sel_begin(vline, col),
    {
        self.selection = Some(Sel { a: (vline, col), b: (vline, col) });
    }

    /// Extend the selection, if there is one, to column `col` of `vline`.
    pub fn sel_update(&mut self, vline: usize, col: usize)
        ensures
            old(self).wf() ==> final(self).wf(),
            final(self)@ == old(self)@.sel_update(vline, col),
    {
        if let Some(s) = self.selection {
            self.selection = Some(Sel { a: s.a, b: (vline, col) });
        }
    }

    pub fn sel_clear(&mut self)
        ensures
            old(self).wf() ==> final(self).wf(),
            final(self)@ == old(self)@.sel_clear(),
    {
        self.selection = None;
    }

    /// Selection normalized to reading order: (a_line, a_col, b_line, b_col).
    pub fn sel_norm(&self) -> (r: Option<(usize, usize, usize, usize)>)
        ensures
            match (r, self@.sel_norm()) {
                (Some(p), Some(q)) => p.0 == q.0 && p.1 == q.1 && p.2 == q.2 && p.3 == q.3,
                (None, None) => true,
                _ => false,
            },
    {
        match self.selection {
            Some(s) => {
                let (al, ac) = s.a;
                let (bl, bc) = s.b;
                if bl < al || (bl == al && bc < ac) {
                    Some((bl, bc, al, ac))
                } else {
                    Some((al, ac, bl, bc))
                }
            },
            None => None,
        }
    }

    /// The selected part of virtual line `vline`, without trailing whitespace.
    fn selected_line(
        &self,
        vline: usize,
        al: usize,
        ac: usize,
        bl: usize,
        bc: usize,
    ) -> (line: Vec<char>)
        requires
            self.wf(),
            vline < self@.vlines().len(),
        ensures
            line@ == self@.selected_in_line(
                vline as int,
                al as int,
                ac as int,
                bl as int,
                bc as int,
            ),
    {
        let cells = self.line_cells(vline);
        let from: usize = if vline == al {
            ac
        } else {
            0
        };
        let to: usize = if vline == bl {
            bc
        } else {
            self.cols - 1
        };
        let to: usize = if to < cells.len() - 1 {
            to
        } else {
            cells.len() - 1
        };
        let mut line: Vec<char> = Vec::new();
        if from > to {
            return line;
        }
        let ghost all = cells@.subrange(from as int, to + 1).map_values(|c: Cell| c.ch);
        let mut x: usize = from;
        while x <= to
            invariant
                from <= x <= to + 1,
                to < cells@.len() <= usize::MAX,
                all == cells@.subrange(from as int, to + 1).map_values(|c: Cell| c.ch),
                line@ == all.take(x - from),
            decreases to + 1 - x,
        {
            line.push(cells[x].ch);
            proof {
                assert(all.take(x + 1 - from) =~= all.take(x - from).push(cells@[x as int].ch));
            }
            x = x + 1;
        }
        proof {
            assert(all.take(x - from) =~= all);
        }
        let n: usize = trimmed_len(&line);
        line.truncate(n);
        proof {
            assert(line@ =~= all.take(n as int));
        }
        line
    }

    /// Extract the selected text, trimming trailing blanks per line.
    pub fn selection_text(&self) -> (out: String)
        requires
            self.wf(),
        ensures
            out@ == self@.selection_text(),
    {
        let mut out: String = String::new();
        match self.sel_norm() {
            Some((al, ac, bl, bc)) => {
                let sb: usize = self.scrollback.len();
                let ghost end = screen::min(bl + 1, self@.vlines().len() as int);
                let ghost total = self@.vlines().len() as int;
                let mut vline: usize = al;
                while vline <= bl && (vline < sb || vline - sb < self.rows)
                    invariant
                        self.wf(),
                        self@.sel_norm() == Some((al as int, ac as int, bl as int, bc as int)),
                        sb == self@.scrollback.len(),
                        total == self@.vlines().len(),
                        total == sb + self.rows,
                        al <= vline,
                        vline <= bl + 1,
                        end == screen::min(bl + 1, total),
                        al <= end ==> vline <= end,
                        al > end ==> vline == al,
                        out@ == self@.selected_until(
                            vline as int,
                            al as int,
                            ac as int,
                            bl as int,
                            bc as int,
                        ),
                    decreases end - vline,
                {
                    let line: Vec<char> = self.selected_line(vline, al, ac, bl, bc);
                    push_chars(&mut out, &line);
                    if vline != bl {
                        out.push('\r');
                        out.push('\n');
                    }
                    proof {
                        let s = self@.selected_until(
                            vline + 1,
                            al as int,
                            ac as int,
                            bl as int,
                            bc as int,
                        );
                        assert(out@ =~= s);
                    }
                    if vline == bl {
                        return out;
                    }
                    vline = vline + 1;
                }
            },
            None => {},
        }
        out
    }

    /// Cells of display row `y`, honoring the scrollback view offset.
    pub fn display_line(&self, y: usize) -> (r: &[Cell])
        requires
            self.wf(),
            y < self.rows + self.view_offset,
        ensures
            r@ == self@.vlines()[self@.display_vline(y as int)],
    {
        let sb: usize = self.scrollback.len();
        if y < self.view_offset {
            self.scrollback[sb - self.view_offset + y].as_slice()
        } else {
            self.row_slice(y - self.view_offset)
        }
    }
}

/// `v + d`, limited to `0..=hi`.
fn step_within(v: usize, d: isize, hi: usize) -> (r: usize)
    requires
        v <= hi,
    ensures
        r == screen::clamp(v + d, 0, hi as int),
{
    if d >= 0 {
        if d as usize >= hi - v {
            hi
        } else {
            v + d as usize
        }
    } else {
        let back: usize = (-(d + 1)) as usize;
        if back >= v {
            0
        } else {
            v - back - 1
        }
    }
}

} // verus!

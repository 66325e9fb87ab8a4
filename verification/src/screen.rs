//! The mathematical model of a terminal screen: lines of cells, a cursor, a
//! scroll region, a bounded history and the modes a program can set.
//!
//! [`crate::grid::Grid`] is the executable counterpart; each of its methods is
//! specified by one operation on [`GridView`].

use vstd::prelude::*;

use crate::colors::{DEFAULT_BG, DEFAULT_FG};
use crate::grid::{Cell, CursorStyle, Sel};
use crate::text;

verus! {

/// The cursor position and attributes kept by a cursor save.
pub struct SavedCursor {
    pub cx: int,
    pub cy: int,
    pub fg: u32,
    pub bg: u32,
    pub flags: u8,
}

/// What a [`crate::grid::Grid`] holds.
pub struct GridView {
    pub cols: int,
    pub rows: int,
    pub primary: Seq<Seq<Cell>>,
    pub alt: Seq<Seq<Cell>>,
    pub on_alt: bool,
    pub scrollback: Seq<Seq<Cell>>,
    pub max_scrollback: int,
    pub cx: int,
    pub cy: int,
    pub fg: u32,
    pub bg: u32,
    pub flags: u8,
    pub wrap_pending: bool,
    pub cursor_visible: bool,
    pub cursor_style: CursorStyle,
    pub top: int,
    pub bot: int,
    pub app_cursor: bool,
    pub bracketed_paste: bool,
    pub mouse_report: bool,
    pub mouse_sgr: bool,
    pub view_offset: int,
    pub saved: Option<SavedCursor>,
    pub primary_cursor: (int, int),
    pub selection: Option<Sel>,
}

pub open spec fn min(a: int, b: int) -> int {
    if a <= b {
        a
    } else {
        b
    }
}

pub open spec fn max(a: int, b: int) -> int {
    if a <= b {
        b
    } else {
        a
    }
}

/// `v` limited to the range `lo..=hi`.
pub open spec fn clamp(v: int, lo: int, hi: int) -> int {
    if v < lo {
        lo
    } else if v > hi {
        hi
    } else {
        v
    }
}

/// A fresh cell: a space in the default colors.
pub open spec fn default_cell() -> Cell {
    Cell { ch: ' ', fg: DEFAULT_FG, bg: DEFAULT_BG, flags: 0 }
}

/// A screen of `rows` lines of `cols` copies of `c`.
pub open spec fn uniform(cols: int, rows: int, c: Cell) -> Seq<Seq<Cell>> {
    Seq::new(rows as nat, |y: int| Seq::new(cols as nat, |x: int| c))
}

/// `lines` on a new size: the common top-left rectangle is kept, the rest is
/// fresh.
pub open spec fn regrid(lines: Seq<Seq<Cell>>, oc: int, or: int, cols: int, rows: int) -> Seq<
    Seq<Cell>,
> {
    Seq::new(
        rows as nat,
        |y: int|
            Seq::new(
                cols as nat,
                |x: int|
                    if y < or && x < oc {
                        lines[y][x]
                    } else {
                        default_cell()
                    },
            ),
    )
}

/// A screen buffer of this size can exist: its cells, of 16 bytes each, do not
/// exceed the `isize::MAX` bytes that one allocation can hold.
pub open spec fn screen_fits(cols: int, rows: int) -> bool {
    rows * cols <= isize::MAX as int / 16
}

/// `lines` has `rows` lines of `cols` cells.
pub open spec fn is_screen(lines: Seq<Seq<Cell>>, cols: int, rows: int) -> bool {
    &&& lines.len() == rows
    &&& forall|y: int| 0 <= y < rows ==> (#[trigger] lines[y]).len() == cols
}

/// The last `n` elements of `s`, or all of it where it is shorter.
pub open spec fn last_n<A>(s: Seq<A>, n: int) -> Seq<A> {
    if s.len() <= n {
        s
    } else {
        s.subrange(s.len() - n, s.len() as int)
    }
}

/// Position `(l1, c1)` does not come after `(l2, c2)` in reading order.
pub open spec fn reading_le(l1: int, c1: int, l2: int, c2: int) -> bool {
    l1 < l2 || (l1 == l2 && c1 <= c2)
}

impl GridView {
    /// The screen of a new terminal.
    pub open spec fn fresh(cols: int, rows: int, max_scrollback: int) -> GridView {
        GridView {
            cols,
            rows,
            primary: uniform(cols, rows, default_cell()),
            alt: uniform(cols, rows, default_cell()),
            on_alt: false,
            scrollback: Seq::empty(),
            max_scrollback,
            cx: 0,
            cy: 0,
            fg: DEFAULT_FG,
            bg: DEFAULT_BG,
            flags: 0,
            wrap_pending: false,
            cursor_visible: true,
            cursor_style: CursorStyle::Block,
            top: 0,
            bot: rows - 1,
            app_cursor: false,
            bracketed_paste: false,
            mouse_report: false,
            mouse_sgr: false,
            view_offset: 0,
            saved: None,
            primary_cursor: (0, 0),
            selection: None,
        }
    }

    /// What holds of every screen: the cursor and the scroll region lie on it,
    /// the history stays within its capacity, and the view within the history.
    pub open spec fn wf(self) -> bool {
        &&& 1 <= self.cols
        &&& 1 <= self.rows
        &&& screen_fits(self.cols, self.rows)
        &&& is_screen(self.primary, self.cols, self.rows)
        &&& is_screen(self.alt, self.cols, self.rows)
        &&& 0 <= self.cx < self.cols
        &&& 0 <= self.cy < self.rows
        &&& 0 <= self.top <= self.bot < self.rows
        &&& self.scrollback.len() <= self.max_scrollback
        &&& forall|i: int|
            0 <= i < self.scrollback.len() ==> 1 <= (#[trigger] self.scrollback[i]).len()
        &&& 0 <= self.view_offset <= self.scrollback.len()
        &&& 0 <= self.primary_cursor.0
        &&& 0 <= self.primary_cursor.1
        &&& self.saved matches Some(s) ==> 0 <= s.cx && 0 <= s.cy
    }

    /// The lines being drawn on: those of the alternate or the primary screen.
    pub open spec fn lines(self) -> Seq<Seq<Cell>> {
        if self.on_alt {
            self.alt
        } else {
            self.primary
        }
    }

    pub open spec fn with_lines(self, lines: Seq<Seq<Cell>>) -> GridView {
        if self.on_alt {
            GridView { alt: lines, ..self }
        } else {
            GridView { primary: lines, ..self }
        }
    }

    /// What erasing leaves behind: a space in the current colors.
    pub open spec fn blank(self) -> Cell {
        Cell { ch: ' ', fg: self.fg, bg: self.bg, flags: 0 }
    }

    pub open spec fn blank_lines(self, n: int) -> Seq<Seq<Cell>> {
        uniform(self.cols, n, self.blank())
    }

    pub open spec fn blank_cells(self, n: int) -> Seq<Cell> {
        Seq::new(n as nat, |x: int| self.blank())
    }

    /// Blank the cells `(x, y)` of which `erased(x, y)` holds.
    pub open spec fn erase_where(self, erased: spec_fn(int, int) -> bool) -> GridView {
        self.with_lines(
            Seq::new(
                self.rows as nat,
                |y: int|
                    Seq::new(
                        self.cols as nat,
                        |x: int|
                            if erased(x, y) {
                                self.blank()
                            } else {
                                self.lines()[y][x]
                            },
                    ),
            ),
        )
    }

    pub open spec fn resize(self, cols: int, rows: int) -> GridView {
        if cols == self.cols && rows == self.rows {
            self
        } else {
            GridView {
                cols,
                rows,
                primary: regrid(self.primary, self.cols, self.rows, cols, rows),
                alt: regrid(self.alt, self.cols, self.rows, cols, rows),
                top: 0,
                bot: rows - 1,
                cx: min(self.cx, cols - 1),
                cy: min(self.cy, rows - 1),
                wrap_pending: false,
                view_offset: min(self.view_offset, self.scrollback.len() as int),
                ..self
            }
        }
    }

    /// Write `cell` at the cursor, which stays where it is.
    pub open spec fn write_cell(self, cell: Cell) -> GridView {
        self.with_lines(
            self.lines().update(self.cy, self.lines()[self.cy].update(self.cx, cell)),
        )
    }

    /// Carry out a pending wrap: on to the start of the next line.
    pub open spec fn carry_wrap(self) -> GridView {
        if self.wrap_pending {
            GridView { cx: 0, ..self }.line_feed()
        } else {
            self
        }
    }

    /// Print one character: a pending wrap is carried out first; the cursor
    /// advances, or at the last column leaves a wrap pending.
    pub open spec fn put(self, ch: char) -> GridView {
        let g = self.carry_wrap();
        let w = g.write_cell(Cell { ch, fg: g.fg, bg: g.bg, flags: g.flags });
        if g.cx + 1 >= g.cols {
            GridView { wrap_pending: true, ..w }
        } else {
            GridView { cx: g.cx + 1, ..w }
        }
    }

    pub open spec fn carriage_return(self) -> GridView {
        GridView { cx: 0, wrap_pending: false, ..self }
    }

    /// One line down; at the bottom of the scroll region the region scrolls.
    pub open spec fn line_feed(self) -> GridView {
        let g = GridView { wrap_pending: false, ..self };
        if self.cy == self.bot {
            g.scroll_up(self.top, self.bot, 1, true)
        } else if self.cy + 1 < self.rows {
            GridView { cy: self.cy + 1, ..g }
        } else {
            g
        }
    }

    /// One line up; at the top of the scroll region the region scrolls down.
    pub open spec fn reverse_line_feed(self) -> GridView {
        let g = GridView { wrap_pending: false, ..self };
        if self.cy == self.top {
            g.scroll_down(self.top, self.bot, 1)
        } else if self.cy > 0 {
            GridView { cy: self.cy - 1, ..g }
        } else {
            g
        }
    }

    pub open spec fn backspace(self) -> GridView {
        GridView { cx: max(self.cx - 1, 0), wrap_pending: false, ..self }
    }

    /// On to the next multiple of 8, or the last column.
    pub open spec fn tab(self) -> GridView {
        GridView { cx: min((self.cx / 8 + 1) * 8, self.cols - 1), wrap_pending: false, ..self }
    }

    pub open spec fn set_cursor(self, x: int, y: int) -> GridView {
        GridView {
            cx: min(x, self.cols - 1),
            cy: min(y, self.rows - 1),
            wrap_pending: false,
            ..self
        }
    }

    pub open spec fn move_cursor(self, dx: int, dy: int) -> GridView {
        GridView {
            cx: clamp(self.cx + dx, 0, self.cols - 1),
            cy: clamp(self.cy + dy, 0, self.rows - 1),
            wrap_pending: false,
            ..self
        }
    }

    /// Whether a scroll of `top..=bot` keeps the lines that leave: it must be
    /// of the whole primary screen.
    pub open spec fn captures(self, top: int, bot: int, capture: bool) -> bool {
        capture && !self.on_alt && top == 0 && bot == self.rows - 1
    }

    /// Move lines `top..=bot` up by `n`, blanking the bottom. Where the scroll
    /// captures, the lines that leave join the history, which drops its oldest
    /// lines to stay within its capacity.
    pub open spec fn scroll_up(self, top: int, bot: int, n: int, capture: bool) -> GridView {
        let k = min(n, bot - top + 1);
        if k <= 0 {
            self
        } else {
            let l = self.lines();
            let g = self.with_lines(
                l.subrange(0, top) + l.subrange(top + k, bot + 1) + self.blank_lines(k)
                    + l.subrange(bot + 1, self.rows),
            );
            if self.captures(top, bot, capture) {
                GridView {
                    scrollback: last_n(
                        self.scrollback + l.subrange(0, k),
                        self.max_scrollback,
                    ),
                    ..g
                }
            } else {
                g
            }
        }
    }

    /// Move lines `top..=bot` down by `n`, blanking the top.
    pub open spec fn scroll_down(self, top: int, bot: int, n: int) -> GridView {
        let k = min(n, bot - top + 1);
        if k <= 0 {
            self
        } else {
            let l = self.lines();
            self.with_lines(
                l.subrange(0, top) + self.blank_lines(k) + l.subrange(top, bot + 1 - k)
                    + l.subrange(bot + 1, self.rows),
            )
        }
    }

    pub open spec fn cursor_in_region(self) -> bool {
        self.top <= self.cy <= self.bot
    }

    pub open spec fn insert_lines(self, n: int) -> GridView {
        if self.cursor_in_region() {
            self.scroll_down(self.cy, self.bot, n)
        } else {
            self
        }
    }

    pub open spec fn delete_lines(self, n: int) -> GridView {
        if self.cursor_in_region() {
            self.scroll_up(self.cy, self.bot, n, false)
        } else {
            self
        }
    }

    /// Replace the cursor's line.
    pub open spec fn with_cursor_line(self, line: Seq<Cell>) -> GridView {
        self.with_lines(self.lines().update(self.cy, line))
    }

    /// Open `n` blanks at the cursor; what is pushed past the edge is lost.
    pub open spec fn insert_chars(self, n: int) -> GridView {
        let k = min(n, self.cols - self.cx);
        let l = self.lines()[self.cy];
        self.with_cursor_line(
            l.subrange(0, self.cx) + self.blank_cells(k) + l.subrange(self.cx, self.cols - k),
        )
    }

    /// Remove `n` cells at the cursor; blanks come in at the edge.
    pub open spec fn delete_chars(self, n: int) -> GridView {
        let k = min(n, self.cols - self.cx);
        let l = self.lines()[self.cy];
        self.with_cursor_line(
            l.subrange(0, self.cx) + l.subrange(self.cx + k, self.cols) + self.blank_cells(k),
        )
    }

    /// Blank `n` cells from the cursor on.
    pub open spec fn erase_chars(self, n: int) -> GridView {
        self.erase_where(|x: int, y: int| y == self.cy && self.cx <= x < self.cx + n)
    }

    /// Blank from the cursor to the end of the screen (mode 0), from the start
    /// of the screen through the cursor (mode 1), or all of it.
    pub open spec fn erase_display(self, mode: u16) -> GridView {
        if mode == 0 {
            self.erase_where(|x: int, y: int| reading_le(self.cy, self.cx, y, x))
        } else if mode == 1 {
            self.erase_where(|x: int, y: int| reading_le(y, x, self.cy, self.cx))
        } else {
            self.erase_where(|x: int, y: int| true)
        }
    }

    /// The same on the cursor's line alone.
    pub open spec fn erase_line(self, mode: u16) -> GridView {
        if mode == 0 {
            self.erase_where(|x: int, y: int| y == self.cy && self.cx <= x)
        } else if mode == 1 {
            self.erase_where(|x: int, y: int| y == self.cy && x <= self.cx)
        } else {
            self.erase_where(|x: int, y: int| y == self.cy)
        }
    }

    pub open spec fn reset_attrs(self) -> GridView {
        GridView { fg: DEFAULT_FG, bg: DEFAULT_BG, flags: 0, ..self }
    }

    /// Scroll region `top..=bot`, cut to the screen; the whole screen where
    /// that leaves fewer than two lines. The cursor goes home.
    pub open spec fn set_scroll_region(self, top: int, bot: int) -> GridView {
        let t = min(top, self.rows - 1);
        let b = min(bot, self.rows - 1);
        let g = if t < b {
            GridView { top: t, bot: b, ..self }
        } else {
            GridView { top: 0, bot: self.rows - 1, ..self }
        };
        g.set_cursor(0, 0)
    }

    pub open spec fn save_cursor(self) -> GridView {
        GridView {
            saved: Some(
                SavedCursor {
                    cx: self.cx,
                    cy: self.cy,
                    fg: self.fg,
                    bg: self.bg,
                    flags: self.flags,
                },
            ),
            ..self
        }
    }

    /// Back to the saved position, cut to the screen, and attributes.
    pub open spec fn restore_cursor(self) -> GridView {
        match self.saved {
            Some(s) => GridView { fg: s.fg, bg: s.bg, flags: s.flags, ..self }.set_cursor(
                s.cx,
                s.cy,
            ),
            None => self,
        }
    }

    /// To a cleared alternate screen, remembering the primary cursor.
    pub open spec fn enter_alt(self) -> GridView {
        if self.on_alt {
            self
        } else {
            GridView {
                primary_cursor: (self.cx, self.cy),
                on_alt: true,
                alt: uniform(self.cols, self.rows, default_cell()),
                top: 0,
                bot: self.rows - 1,
                view_offset: 0,
                ..self
            }.set_cursor(0, 0)
        }
    }

    /// Back to the primary screen and its cursor.
    pub open spec fn leave_alt(self) -> GridView {
        if !self.on_alt {
            self
        } else {
            GridView { on_alt: false, top: 0, bot: self.rows - 1, ..self }.set_cursor(
                self.primary_cursor.0,
                self.primary_cursor.1,
            )
        }
    }

    /// Both screens and the history are cleared; cursor, attributes, region and
    /// modes go back to those of a fresh screen. The mouse modes, the selection
    /// and the remembered primary cursor stay.
    pub open spec fn full_reset(self) -> GridView {
        GridView {
            mouse_report: self.mouse_report,
            mouse_sgr: self.mouse_sgr,
            selection: self.selection,
            primary_cursor: self.primary_cursor,
            ..GridView::fresh(self.cols, self.rows, self.max_scrollback)
        }
    }

    /// Scroll the view by `delta` lines, up being positive, within the history.
    pub open spec fn scroll_view(self, delta: int) -> GridView {
        GridView {
            view_offset: clamp(self.view_offset + delta, 0, self.scrollback.len() as int),
            ..self
        }
    }

    pub open spec fn snap_to_bottom(self) -> GridView {
        GridView { view_offset: 0, ..self }
    }

    pub open spec fn sel_clear(self) -> GridView {
        GridView { selection: None, ..self }
    }

    pub open spec fn sel_begin(self, vline: usize, col: usize) -> GridView {
        GridView { selection: Some(Sel { a: (vline, col), b: (vline, col) }), ..self }
    }

    pub open spec fn sel_update(self, vline: usize, col: usize) -> GridView {
        GridView {
            selection: match self.selection {
                Some(s) => Some(Sel { a: s.a, b: (vline, col) }),
                None => None,
            },
            ..self
        }
    }

    /// The virtual lines: the history, oldest first, and the active screen.
    pub open spec fn vlines(self) -> Seq<Seq<Cell>> {
        self.scrollback + self.lines()
    }

    /// The virtual line shown in display row `y`.
    pub open spec fn display_vline(self, y: int) -> int {
        self.scrollback.len() - self.view_offset + y
    }

    /// The selection's ends in reading order: (line, column, line, column).
    pub open spec fn sel_norm(self) -> Option<(int, int, int, int)> {
        match self.selection {
            Some(s) => if reading_le(s.a.0 as int, s.a.1 as int, s.b.0 as int, s.b.1 as int) {
                Some((s.a.0 as int, s.a.1 as int, s.b.0 as int, s.b.1 as int))
            } else {
                Some((s.b.0 as int, s.b.1 as int, s.a.0 as int, s.a.1 as int))
            },
            None => None,
        }
    }

    /// Whether the cell in column `x` of virtual line `vline` is selected.
    pub open spec fn selects(self, vline: int, x: int) -> bool {
        match self.sel_norm() {
            Some((al, ac, bl, bc)) => reading_le(al, ac, vline, x) && reading_le(
                vline,
                x,
                bl,
                bc,
            ),
            None => false,
        }
    }

    /// The characters of virtual line `vline` that a selection from
    /// `(al, ac)` to `(bl, bc)` takes, without trailing whitespace.
    pub open spec fn selected_in_line(
        self,
        vline: int,
        al: int,
        ac: int,
        bl: int,
        bc: int,
    ) -> Seq<char> {
        let cells = self.vlines()[vline];
        let from = if vline == al {
            ac
        } else {
            0
        };
        let to = min(
            if vline == bl {
                bc
            } else {
                self.cols - 1
            },
            cells.len() - 1,
        );
        if from > to {
            Seq::empty()
        } else {
            text::trim_end(cells.subrange(from, to + 1).map_values(|c: Cell| c.ch))
        }
    }

    /// The selected text of the virtual lines `al..end`: each line but the
    /// selection's last is closed by CR LF.
    pub open spec fn selected_until(
        self,
        end: int,
        al: int,
        ac: int,
        bl: int,
        bc: int,
    ) -> Seq<char>
        decreases end - al,
    {
        if end <= al {
            Seq::empty()
        } else {
            self.selected_until(end - 1, al, ac, bl, bc) + self.selected_in_line(
                end - 1,
                al,
                ac,
                bl,
                bc,
            ) + if end - 1 == bl {
                Seq::empty()
            } else {
                seq!['\r', '\n']
            }
        }
    }

    /// The selected text; what the selection covers below the last virtual line
    /// contributes nothing.
    pub open spec fn selection_text(self) -> Seq<char> {
        match self.sel_norm() {
            Some((al, ac, bl, bc)) => self.selected_until(
                min(bl + 1, self.vlines().len() as int),
                al,
                ac,
                bl,
                bc,
            ),
            None => Seq::empty(),
        }
    }
}

} // verus!

//! The terminal: acts on the parser's [`Event`]s by mutating the [`Grid`].
//!
//! Replies to device queries (DSR, DA) accumulate in `responses`, which the caller
//! writes back to the shell after each feed. Unknown sequences are ignored, so they
//! can never corrupt the screen.

use vstd::prelude::*;

use crate::colors;
use crate::colors::{rgb, xterm256, ANSI16, DEFAULT_BG, DEFAULT_FG};
use crate::grid::{CursorStyle, Grid, FLAG_BOLD, FLAG_ITALIC, FLAG_REVERSE, FLAG_UNDERLINE};
use crate::screen;
use crate::screen::GridView;
use crate::text;
use crate::text::{from_utf8_lossy, push_all, push_decimal};
use crate::vt;
use crate::vt::{advance, new_parser, Event, EventView};

verus! {

/// The value of a parameter: the first of its subparameters.
pub open spec fn flat_views(params: Seq<Seq<u16>>) -> Seq<u16> {
    params.map_values(
        |p: Seq<u16>|
            if p.len() > 0 {
                p[0]
            } else {
                0
            },
    )
}

/// Parameter `i`, where it is given and not 0, or else `def`.
pub open spec fn param(p: Seq<u16>, i: int, def: int) -> int {
    if i < p.len() && p[i] != 0 {
        p[i] as int
    } else {
        def
    }
}

/// The first parameter, or `def` where there is none.
pub open spec fn first_param(p: Seq<u16>, def: u16) -> u16 {
    if p.len() > 0 {
        p[0]
    } else {
        def
    }
}

/// `s` is the single byte `b`.
pub open spec fn is_byte(s: Seq<u8>, b: u8) -> bool {
    s.len() == 1 && s[0] == b
}

/// Set the foreground or the background color.
pub open spec fn with_color(g: GridView, is_fg: bool, color: u32) -> GridView {
    if is_fg {
        GridView { fg: color, ..g }
    } else {
        GridView { bg: color, ..g }
    }
}

/// An extended color (SGR 38 and 48) that starts at parameter `i`: the grid after
/// it, and the number of parameters it takes.
pub open spec fn extended_color(g: GridView, p: Seq<u16>, i: int) -> (GridView, int) {
    let is_fg = p[i] == 38;
    if i + 1 >= p.len() {
        (g, 1)
    } else if p[i + 1] == 5 {
        if i + 2 < p.len() {
            (with_color(g, is_fg, colors::palette(p[i + 2] as int % 256) as u32), 3)
        } else {
            (g, 3)
        }
    } else if p[i + 1] == 2 {
        if i + 4 < p.len() {
            (
                with_color(
                    g,
                    is_fg,
                    colors::colorref(
                        p[i + 2] as int % 256,
                        p[i + 3] as int % 256,
                        p[i + 4] as int % 256,
                    ) as u32,
                ),
                5,
            )
        } else {
            (g, 5)
        }
    } else {
        (g, 1)
    }
}

/// One SGR attribute, at parameter `i`: the grid after it, and the number of
/// parameters it takes.
pub open spec fn sgr_one(g: GridView, p: Seq<u16>, i: int) -> (GridView, int) {
    let v = p[i] as int;
    if v == 38 || v == 48 {
        extended_color(g, p, i)
    } else {
        (
            if v == 0 {
                g.reset_attrs()
            } else if v == 1 {
                GridView { flags: g.flags | FLAG_BOLD, ..g }
            } else if v == 3 {
                GridView { flags: g.flags | FLAG_ITALIC, ..g }
            } else if v == 4 {
                GridView { flags: g.flags | FLAG_UNDERLINE, ..g }
            } else if v == 7 {
                GridView { flags: g.flags | FLAG_REVERSE, ..g }
            } else if v == 22 {
                GridView { flags: g.flags & !FLAG_BOLD, ..g }
            } else if v == 23 {
                GridView { flags: g.flags & !FLAG_ITALIC, ..g }
            } else if v == 24 {
                GridView { flags: g.flags & !FLAG_UNDERLINE, ..g }
            } else if v == 27 {
                GridView { flags: g.flags & !FLAG_REVERSE, ..g }
            } else if 30 <= v <= 37 {
                GridView { fg: ANSI16@[v - 30], ..g }
            } else if v == 39 {
                GridView { fg: DEFAULT_FG, ..g }
            } else if 40 <= v <= 47 {
                GridView { bg: ANSI16@[v - 40], ..g }
            } else if v == 49 {
                GridView { bg: DEFAULT_BG, ..g }
            } else if 90 <= v <= 97 {
                GridView { fg: ANSI16@[v - 90 + 8], ..g }
            } else if 100 <= v <= 107 {
                GridView { bg: ANSI16@[v - 100 + 8], ..g }
            } else {
                g
            },
            1,
        )
    }
}

/// The SGR attributes from parameter `i` on.
pub open spec fn sgr_from(g: GridView, p: Seq<u16>, i: int) -> GridView
    decreases p.len() - i,
{
    if i < 0 || i >= p.len() {
        g
    } else {
        let (next, used) = sgr_one(g, p, i);
        sgr_from(next, p, screen::min(i + used, p.len() as int))
    }
}

/// Select graphic rendition; without parameters it resets.
pub open spec fn sgr(g: GridView, p: Seq<u16>) -> GridView {
    if p.len() == 0 {
        g.reset_attrs()
    } else {
        sgr_from(g, p, 0)
    }
}

/// Switch one mode.
pub open spec fn mode_one(g: GridView, m: u16, on: bool) -> GridView {
    if m == 1 {
        GridView { app_cursor: on, ..g }
    } else if m == 25 {
        GridView { cursor_visible: on, ..g }
    } else if m == 1000 {
        GridView { mouse_report: on, ..g }
    } else if m == 1006 {
        GridView { mouse_sgr: on, ..g }
    } else if m == 2004 {
        GridView { bracketed_paste: on, ..g }
    } else if m == 1049 || m == 47 || m == 1047 {
        if on {
            g.enter_alt()
        } else {
            g.leave_alt()
        }
    } else {
        g
    }
}

/// Switch the modes of `modes` in order.
pub open spec fn set_modes(g: GridView, modes: Seq<u16>, on: bool) -> GridView
    decreases modes.len(),
{
    if modes.len() == 0 {
        g
    } else {
        mode_one(set_modes(g, modes.drop_last(), on), modes.last(), on)
    }
}

/// The cursor style that DECSCUSR selects.
pub open spec fn style_of(v: u16) -> CursorStyle {
    if v == 3 || v == 4 {
        CursorStyle::Underline
    } else if v == 5 || v == 6 {
        CursorStyle::Bar
    } else {
        CursorStyle::Block
    }
}

/// The control sequences that move the cursor.
pub open spec fn moves_cursor(action: char) -> bool {
    ||| action == 'A'
    ||| action == 'B'
    ||| action == 'C'
    ||| action == 'D'
    ||| action == 'E'
    ||| action == 'F'
    ||| action == 'G'
    ||| action == 'H'
    ||| action == 'a'
    ||| action == 'd'
    ||| action == 'e'
    ||| action == 'f'
    ||| action == '`'
}

/// The control sequences that edit the screen.
pub open spec fn edits_screen(action: char) -> bool {
    ||| action == 'J'
    ||| action == 'K'
    ||| action == 'L'
    ||| action == 'M'
    ||| action == '@'
    ||| action == 'P'
    ||| action == 'X'
    ||| action == 'S'
    ||| action == 'T'
}

/// What the control sequences that move the cursor do.
pub open spec fn csi_cursor_grid(g: GridView, p: Seq<u16>, action: char) -> GridView {
    let n = param(p, 0, 1);
    if action == 'A' {
        g.move_cursor(0, -n)
    } else if action == 'B' || action == 'e' {
        g.move_cursor(0, n)
    } else if action == 'C' || action == 'a' {
        g.move_cursor(n, 0)
    } else if action == 'D' {
        g.move_cursor(-n, 0)
    } else if action == 'E' {
        g.move_cursor(0, n).carriage_return()
    } else if action == 'F' {
        g.move_cursor(0, -n).carriage_return()
    } else if action == 'G' || action == '`' {
        g.set_cursor(n - 1, g.cy)
    } else if action == 'd' {
        g.set_cursor(g.cx, n - 1)
    } else {
        g.set_cursor(param(p, 1, 1) - 1, n - 1)
    }
}

/// What the control sequences that edit the screen do.
pub open spec fn csi_edit_grid(g: GridView, p: Seq<u16>, action: char) -> GridView {
    let n = param(p, 0, 1);
    if action == 'J' {
        g.erase_display(first_param(p, 0))
    } else if action == 'K' {
        g.erase_line(first_param(p, 0))
    } else if action == 'L' {
        g.insert_lines(n)
    } else if action == 'M' {
        g.delete_lines(n)
    } else if action == '@' {
        g.insert_chars(n)
    } else if action == 'P' {
        g.delete_chars(n)
    } else if action == 'X' {
        g.erase_chars(n)
    } else if action == 'S' {
        g.scroll_up(g.top, g.bot, n, false)
    } else {
        g.scroll_down(g.top, g.bot, n)
    }
}

/// What the other control sequences without intermediates do: region, saved cursor, modes
/// and attributes.
pub open spec fn csi_state_grid(g: GridView, p: Seq<u16>, action: char) -> GridView {
    if action == 'r' {
        g.set_scroll_region(param(p, 0, 1) - 1, param(p, 1, g.rows) - 1)
    } else if action == 's' {
        g.save_cursor()
    } else if action == 'u' {
        g.restore_cursor()
    } else if action == 'h' {
        set_modes(g, p, true)
    } else if action == 'l' {
        set_modes(g, p, false)
    } else if action == 'm' {
        sgr(g, p)
    } else {
        g
    }
}

/// What the control sequences with intermediates do: `?` may mark the modes, and a space
/// marks the cursor style.
pub open spec fn csi_marked_grid(
    g: GridView,
    p: Seq<u16>,
    intermediates: Seq<u8>,
    action: char,
) -> GridView {
    if is_byte(intermediates, 0x3f) && action == 'h' {
        set_modes(g, p, true)
    } else if is_byte(intermediates, 0x3f) && action == 'l' {
        set_modes(g, p, false)
    } else if is_byte(intermediates, 0x20) && action == 'q' {
        GridView { cursor_style: style_of(first_param(p, 1)), ..g }
    } else {
        g
    }
}

/// What a control sequence does to the screen. Its intermediates and its final character
/// together say which one it is; an unknown one does nothing.
pub open spec fn csi_grid(
    g: GridView,
    p: Seq<u16>,
    intermediates: Seq<u8>,
    action: char,
) -> GridView {
    if intermediates.len() > 0 {
        csi_marked_grid(g, p, intermediates, action)
    } else if moves_cursor(action) {
        csi_cursor_grid(g, p, action)
    } else if edits_screen(action) {
        csi_edit_grid(g, p, action)
    } else {
        csi_state_grid(g, p, action)
    }
}

/// The reply to a cursor position query: 1-based line and column.
pub open spec fn cursor_report(g: GridView) -> Seq<u8> {
    seq![0x1bu8, 0x5b] + text::decimal((g.cy + 1) as nat) + seq![0x3bu8] + text::decimal(
        (g.cx + 1) as nat,
    ) + seq![0x52u8]
}

/// The reply that a control sequence asks for: device status, cursor position, or
/// primary device attributes (a VT100 with advanced video). A query with intermediates
/// is another one.
pub open spec fn csi_reply(
    g: GridView,
    p: Seq<u16>,
    intermediates: Seq<u8>,
    action: char,
) -> Seq<u8> {
    if intermediates.len() > 0 {
        Seq::empty()
    } else if action == 'n' && first_param(p, 0) == 5 {
        seq![0x1bu8, 0x5b, 0x30, 0x6e]
    } else if action == 'n' && first_param(p, 0) == 6 {
        cursor_report(g)
    } else if action == 'c' {
        seq![0x1bu8, 0x5b, 0x3f, 0x31, 0x3b, 0x32, 0x63]
    } else {
        Seq::empty()
    }
}

/// What a control character does.
pub open spec fn execute_grid(g: GridView, byte: u8) -> GridView {
    if byte == 0x08 {
        g.backspace()
    } else if byte == 0x09 {
        g.tab()
    } else if 0x0a <= byte <= 0x0c {
        g.line_feed()
    } else if byte == 0x0d {
        g.carriage_return()
    } else {
        g
    }
}

/// What an escape sequence does. The terminal knows none with intermediates.
pub open spec fn esc_grid(g: GridView, intermediates: Seq<u8>, byte: u8) -> GridView {
    if intermediates.len() > 0 {
        g
    } else if byte == 0x37 {
        g.save_cursor()
    } else if byte == 0x38 {
        g.restore_cursor()
    } else if byte == 0x44 {
        g.line_feed()
    } else if byte == 0x45 {
        g.line_feed().carriage_return()
    } else if byte == 0x4d {
        g.reverse_line_feed()
    } else if byte == 0x63 {
        g.full_reset()
    } else {
        g
    }
}

/// A byte of plain text or a control character other than ESC.
pub open spec fn is_plain(byte: u8) -> bool {
    byte <= 0x7f && byte != 0x1b
}

pub open spec fn all_plain(bytes: Seq<u8>) -> bool {
    forall|i: int| 0 <= i < bytes.len() ==> #[trigger] is_plain(bytes[i])
}

/// One plain byte: a control acts, any other is printed.
pub open spec fn type_byte(g: GridView, byte: u8) -> GridView {
    if byte < 0x20 {
        execute_grid(g, byte)
    } else {
        g.put(byte as char)
    }
}

/// Plain bytes, one after the other.
pub open spec fn type_bytes(g: GridView, bytes: Seq<u8>) -> GridView
    decreases bytes.len(),
{
    if bytes.len() == 0 {
        g
    } else {
        type_byte(type_bytes(g, bytes.drop_last()), bytes.last())
    }
}

/// What a [`Term`] holds.
pub struct TermView {
    pub parser: vte::Parser,
    pub grid: GridView,
    pub title: Seq<char>,
    pub responses: Seq<u8>,
}

impl TermView {
    /// An operating system command: kinds 0 and 2 set the title.
    pub open spec fn osc(self, fields: Seq<Seq<u8>>) -> TermView {
        if fields.len() >= 2 && (fields[0] == seq![0x30u8] || fields[0] == seq![0x32u8]) {
            TermView { title: text::utf8_lossy(fields[1]), ..self }
        } else {
            self
        }
    }

    /// Act on one event.
    pub open spec fn perform(self, e: EventView) -> TermView {
        match e {
            EventView::Print(c) => TermView { grid: self.grid.put(c), ..self },
            EventView::Execute(b) => TermView { grid: execute_grid(self.grid, b), ..self },
            EventView::Csi { params, intermediates, action } => {
                let p = flat_views(params);
                TermView {
                    grid: csi_grid(self.grid, p, intermediates, action),
                    responses: self.responses + csi_reply(self.grid, p, intermediates, action),
                    ..self
                }
            },
            EventView::Esc { intermediates, byte } => TermView {
                grid: esc_grid(self.grid, intermediates, byte),
                ..self
            },
            EventView::Osc(fields) => self.osc(fields),
        }
    }

    /// Act on `events` in order.
    pub open spec fn perform_all(self, events: Seq<EventView>) -> TermView
        decreases events.len(),
    {
        if events.len() == 0 {
            self
        } else {
            self.perform_all(events.drop_last()).perform(events.last())
        }
    }

    /// Parse one byte and act on what it completes.
    pub open spec fn step(self, byte: u8) -> TermView {
        let (parser, events) = vt::vte_step(self.parser, byte);
        TermView { parser, ..self }.perform_all(events)
    }

    /// Parse `bytes` and act on what they complete.
    pub open spec fn run(self, bytes: Seq<u8>) -> TermView
        decreases bytes.len(),
    {
        if bytes.len() == 0 {
            self
        } else {
            self.run(bytes.drop_last()).step(bytes.last())
        }
    }

    /// After output that started with `before` lines of history: if the history has
    /// grown, the selection is dropped, and a view into the history moves up by as many
    /// lines.
    pub open spec fn settle(self, before: int) -> TermView {
        let grew = self.grid.scrollback.len() - before;
        let g = self.grid;
        TermView {
            grid: if grew <= 0 {
                g
            } else if g.view_offset > 0 {
                g.sel_clear().scroll_view(grew)
            } else {
                g.sel_clear()
            },
            ..self
        }
    }

    /// Take in `bytes` of output.
    pub open spec fn feed(self, bytes: Seq<u8>) -> TermView {
        self.run(bytes).settle(self.grid.scrollback.len() as int)
    }
}

/// A terminal session's screen, title, and pending replies.
pub struct Term {
    pub parser: vte::Parser,
    pub grid: Grid,
    pub title: String,
    /// Bytes to send back to the shell (replies to DSR and DA queries).
    pub responses: Vec<u8>,
}

impl View for Term {
    type V = TermView;

    open spec fn view(&self) -> TermView {
        TermView {
            parser: self.parser,
            grid: self.grid@,
            title: self.title@,
            responses: self.responses@,
        }
    }
}

/// The parameters' values, without their subparameters.
fn flat(params: &Vec<Vec<u16>>) -> (p: Vec<u16>)
    ensures
        p@ == flat_views(vt::param_views(params@)),
{
    let mut p: Vec<u16> = Vec::new();
    let mut i: usize = 0;
    while i < params.len()
        invariant
            i <= params@.len(),
            p@ == flat_views(vt::param_views(params@)).take(i as int),
        decreases params@.len() - i,
    {
        let v: u16 = if params[i].len() > 0 {
            params[i][0]
        } else {
            0
        };
        p.push(v);
        proof {
            let all = flat_views(vt::param_views(params@));
            assert(all.take(i + 1) =~= all.take(i as int).push(v));
        }
        i = i + 1;
    }
    proof {
        assert(flat_views(vt::param_views(params@)).take(i as int) =~= flat_views(
            vt::param_views(params@),
        ));
    }
    p
}

/// Parameter `i`, where it is given and not 0, or else `def`.
fn param_or(p: &Vec<u16>, i: usize, def: usize) -> (n: usize)
    ensures
        n == param(p@, i as int, def as int),
{
    if i < p.len() && p[i] != 0 {
        p[i] as usize
    } else {
        def
    }
}

fn first_or(p: &Vec<u16>, def: u16) -> (n: u16)
    ensures
        n == first_param(p@, def),
{
    if p.len() > 0 {
        p[0]
    } else {
        def
    }
}

impl Term {
    /// The terminal's screen is one.
    pub open spec fn wf(&self) -> bool {
        self.grid.wf()
    }

    /// A terminal with a cleared screen of `cols` by `rows` and `scrollback` lines
    /// of history.
    pub fn new(cols: usize, rows: usize, scrollback: usize) -> (t: Self)
        requires
            screen::screen_fits(screen::max(cols as int, 1), screen::max(rows as int, 1)),
        ensures
            t.wf(),
            vt::vte_ground(t.parser),
            t@ == (TermView {
                parser: t.parser,
                grid: GridView::fresh(
                    screen::max(cols as int, 1),
                    screen::max(rows as int, 1),
                    scrollback as int,
                ),
                title: Seq::empty(),
                responses: Seq::empty(),
            }),
    {
        Term {
            parser: new_parser(),
            grid: Grid::new(cols, rows, scrollback),
            title: String::new(),
            responses: Vec::new(),
        }
    }

    /// Select graphic rendition.
    pub fn sgr(&mut self, p: &Vec<u16>)
        requires
            old(self).wf(),
        ensures
            final(self).wf(),
            final(self)@ == (TermView { grid: sgr(old(self)@.grid, p@), ..old(self)@ }),
    {
        if p.len() == 0 {
            self.grid.reset_attrs();
            return;
        }
        let ghost g0 = self.grid@;
        let mut i: usize = 0;
        while i < p.len()
            invariant
                i <= p@.len(),
                self.wf(),
                self@ == (TermView { grid: self.grid@, ..old(self)@ }),
                sgr_from(g0, p@, 0) == sgr_from(self.grid@, p@, i as int),
            decreases p@.len() - i,
        {
            let used: usize = self.sgr_attr(p, i);
            i = if used < p.len() - i {
                i + used
            } else {
                p.len()
            };
        }
    }

    /// Carry out the SGR attribute at parameter `i`; returns the number of
    /// parameters it takes.
    #[verifier::rlimit(30)]
    fn sgr_attr(&mut self, p: &Vec<u16>, i: usize) -> (used: usize)
        requires
            old(self).wf(),
            i < p@.len(),
        ensures
            final(self).wf(),
            final(self)@ == (TermView {
                grid: sgr_one(old(self)@.grid, p@, i as int).0,
                ..old(self)@
            }),
            used == sgr_one(old(self)@.grid, p@, i as int).1,
    {
        let v: u16 = p[i];
        if v == 38 || v == 48 {
            return self.sgr_color(p, i);
        }
        if v == 0 {
            self.grid.reset_attrs();
        } else if v == 1 {
            self.grid.flags = self.grid.flags | FLAG_BOLD;
        } else if v == 3 {
            self.grid.flags = self.grid.flags | FLAG_ITALIC;
        } else if v == 4 {
            self.grid.flags = self.grid.flags | FLAG_UNDERLINE;
        } else if v == 7 {
            self.grid.flags = self.grid.flags | FLAG_REVERSE;
        } else if v == 22 {
            self.grid.flags = self.grid.flags & !FLAG_BOLD;
        } else if v == 23 {
            self.grid.flags = self.grid.flags & !FLAG_ITALIC;
        } else if v == 24 {
            self.grid.flags = self.grid.flags & !FLAG_UNDERLINE;
        } else if v == 27 {
            self.grid.flags = self.grid.flags & !FLAG_REVERSE;
        } else if 30 <= v && v <= 37 {
            self.grid.fg = ANSI16[(v - 30) as usize];
        } else if v == 39 {
            self.grid.fg = DEFAULT_FG;
        } else if 40 <= v && v <= 47 {
            self.grid.bg = ANSI16[(v - 40) as usize];
        } else if v == 49 {
            self.grid.bg = DEFAULT_BG;
        } else if 90 <= v && v <= 97 {
            self.grid.fg = ANSI16[(v - 90 + 8) as usize];
        } else if 100 <= v && v <= 107 {
            self.grid.bg = ANSI16[(v - 100 + 8) as usize];
        }
        1
    }

    /// The extended color at parameter `i` (SGR 38 and 48).
    fn sgr_color(&mut self, p: &Vec<u16>, i: usize) -> (used: usize)
        requires
            old(self).wf(),
            i < p@.len(),
        ensures
            final(self).wf(),
            final(self)@ == (TermView {
                grid: extended_color(old(self)@.grid, p@, i as int).0,
                ..old(self)@
            }),
            used == extended_color(old(self)@.grid, p@, i as int).1,
    {
        let is_fg: bool = p[i] == 38;
        let left: usize = p.len() - i;
        if left <= 1 {
            1
        } else if p[i + 1] == 5 {
            if left > 2 {
                let col: u32 = xterm256((p[i + 2] % 256) as u8);
                self.set_color(is_fg, col);
            }
            3
        } else if p[i + 1] == 2 {
            if left > 4 {
                let r: u8 = (p[i + 2] % 256) as u8;
                let g: u8 = (p[i + 3] % 256) as u8;
                let b: u8 = (p[i + 4] % 256) as u8;
                self.set_color(is_fg, rgb(r, g, b));
            }
            5
        } else {
            1
        }
    }

    fn set_color(&mut self, is_fg: bool, color: u32)
        requires
            old(self).wf(),
        ensures
            final(self).wf(),
            final(self)@ == (TermView {
                grid: with_color(old(self)@.grid, is_fg, color),
                ..old(self)@
            }),
    {
        if is_fg {
            self.grid.fg = color;
        } else {
            self.grid.bg = color;
        }
    }

    fn switch_mode(&mut self, m: u16, on: bool)
        requires
            old(self).wf(),
        ensures
            final(self).wf(),
            final(self)@ == (TermView { grid: mode_one(old(self)@.grid, m, on), ..old(self)@ }),
    {
        if m == 1 {
            self.grid.app_cursor = on;
        } else if m == 25 {
            self.grid.cursor_visible = on;
        } else if m == 1000 {
            self.grid.mouse_report = on;
        } else if m == 1006 {
            self.grid.mouse_sgr = on;
        } else if m == 2004 {
            self.grid.bracketed_paste = on;
        } else if m == 1049 || m == 47 || m == 1047 {
            if on {
                self.grid.enter_alt();
            } else {
                self.grid.leave_alt();
            }
        }
    }

    /// Switch the modes of `modes` on or off.
    pub fn set_mode(&mut self, modes: &Vec<u16>, on: bool)
        requires
            old(self).wf(),
        ensures
            final(self).wf(),
            final(self)@ == (TermView { grid: set_modes(old(self)@.grid, modes@, on), ..old(self)@ }),
    {
        let mut i: usize = 0;
        proof {
            assert(modes@.take(0) =~= Seq::empty());
        }
        while i < modes.len()
            invariant
                i <= modes@.len(),
                self.wf(),
                self@ == (TermView {
                    grid: set_modes(old(self)@.grid, modes@.take(i as int), on),
                    ..old(self)@
                }),
            decreases modes@.len() - i,
        {
            self.switch_mode(modes[i], on);
            proof {
                assert(modes@.take(i + 1).drop_last() =~= modes@.take(i as int));
            }
            i = i + 1;
        }
        proof {
            assert(modes@.take(i as int) =~= modes@);
        }
    }

    /// Draw a character.
    pub fn print(&mut self, c: char)
        requires
            old(self).wf(),
        ensures
            final(self).wf(),
            final(self)@ == old(self)@.perform(EventView::Print(c)),
    {
        self.grid.put(c);
    }

    /// Act on a control character.
    pub fn execute(&mut self, byte: u8)
        requires
            old(self).wf(),
        ensures
            final(self).wf(),
            final(self)@ == old(self)@.perform(EventView::Execute(byte)),
    {
        if byte == 0x08 {
            self.grid.backspace();
        } else if byte == 0x09 {
            self.grid.tab();
        } else if byte == 0x0a || byte == 0x0b || byte == 0x0c {
            self.grid.line_feed();
        } else if byte == 0x0d {
            self.grid.carriage_return();
        }
    }

    /// Move the cursor as control sequence `action` says; false if it is none that
    /// does.
    fn csi_cursor(&mut self, p: &Vec<u16>, action: char) -> (known: bool)
        requires
            old(self).wf(),
        ensures
            final(self).wf(),
            known == moves_cursor(action),
            final(self)@ == (if known {
                TermView { grid: csi_cursor_grid(old(self)@.grid, p@, action), ..old(self)@ }
            } else {
                old(self)@
            }),
    {
        let n: usize = param_or(p, 0, 1);
        let d: isize = n as isize;
        if action == 'A' {
            self.grid.move_cursor(0, -d);
        } else if action == 'B' || action == 'e' {
            self.grid.move_cursor(0, d);
        } else if action == 'C' || action == 'a' {
            self.grid.move_cursor(d, 0);
        } else if action == 'D' {
            self.grid.move_cursor(-d, 0);
        } else if action == 'E' {
            self.grid.move_cursor(0, d);
            self.grid.carriage_return();
        } else if action == 'F' {
            self.grid.move_cursor(0, -d);
            self.grid.carriage_return();
        } else if action == 'G' || action == '`' {
            let y: usize = self.grid.cy;
            self.grid.set_cursor(n - 1, y);
        } else if action == 'd' {
            let x: usize = self.grid.cx;
            self.grid.set_cursor(x, n - 1);
        } else if action == 'H' || action == 'f' {
            self.grid.set_cursor(param_or(p, 1, 1) - 1, n - 1);
        } else {
            return false;
        }
        true
    }

    /// Edit the screen as control sequence `action` says; false if it is none that
    /// does.
    fn csi_edit(&mut self, p: &Vec<u16>, action: char) -> (known: bool)
        requires
            old(self).wf(),
        ensures
            final(self).wf(),
            known == edits_screen(action),
            final(self)@ == (if known {
                TermView { grid: csi_edit_grid(old(self)@.grid, p@, action), ..old(self)@ }
            } else {
                old(self)@
            }),
    {
        let n: usize = param_or(p, 0, 1);
        if action == 'J' {
            self.grid.erase_display(first_or(p, 0));
        } else if action == 'K' {
            self.grid.erase_line(first_or(p, 0));
        } else if action == 'L' {
            self.grid.insert_lines(n);
        } else if action == 'M' {
            self.grid.delete_lines(n);
        } else if action == '@' {
            self.grid.insert_chars(n);
        } else if action == 'P' {
            self.grid.delete_chars(n);
        } else if action == 'X' {
            self.grid.erase_chars(n);
        } else if action == 'S' {
            let t: usize = self.grid.top;
            let b: usize = self.grid.bot;
            self.grid.scroll_up_in(t, b, n, false);
        } else if action == 'T' {
            let t: usize = self.grid.top;
            let b: usize = self.grid.bot;
            self.grid.scroll_down_in(t, b, n);
        } else {
            return false;
        }
        true
    }

    /// Change region, saved cursor, modes or attributes as control sequence `action` says.
    fn csi_state(&mut self, p: &Vec<u16>, action: char)
        requires
            old(self).wf(),
        ensures
            final(self).wf(),
            final(self)@ == (TermView {
                grid: csi_state_grid(old(self)@.grid, p@, action),
                ..old(self)@
            }),
    {
        if action == 'r' {
            let rows: usize = self.grid.rows;
            self.grid.set_scroll_region(param_or(p, 0, 1) - 1, param_or(p, 1, rows) - 1);
        } else if action == 's' {
            self.grid.save_cursor();
        } else if action == 'u' {
            self.grid.restore_cursor();
        } else if action == 'h' {
            self.set_mode(p, true);
        } else if action == 'l' {
            self.set_mode(p, false);
        } else if action == 'm' {
            self.sgr(p);
        }
    }

    /// Change marked modes or the cursor style as the control sequence says.
    fn csi_marked(&mut self, p: &Vec<u16>, intermediates: &Vec<u8>, action: char)
        requires
            old(self).wf(),
        ensures
            final(self).wf(),
            final(self)@ == (TermView {
                grid: csi_marked_grid(old(self)@.grid, p@, intermediates@, action),
                ..old(self)@
            }),
    {
        if intermediates.len() != 1 {
            return;
        }
        let mark: u8 = intermediates[0];
        if mark == 0x3f && action == 'h' {
            self.set_mode(p, true);
        } else if mark == 0x3f && action == 'l' {
            self.set_mode(p, false);
        } else if mark == 0x20 && action == 'q' {
            let v: u16 = first_or(p, 1);
            self.grid.cursor_style = if v == 3 || v == 4 {
                CursorStyle::Underline
            } else if v == 5 || v == 6 {
                CursorStyle::Bar
            } else {
                CursorStyle::Block
            };
        }
    }

    /// Queue the reply that control sequence `action` asks for, if it asks for one.
    fn csi_answer(&mut self, p: &Vec<u16>, action: char)
        requires
            old(self).wf(),
        ensures
            final(self).wf(),
            final(self)@ == (TermView {
                responses: old(self)@.responses + csi_reply(
                    old(self)@.grid,
                    p@,
                    Seq::empty(),
                    action,
                ),
                ..old(self)@
            }),
    {
        let ghost r0 = self.responses@;
        if action == 'n' {
            let v: u16 = first_or(p, 0);
            if v == 5 {
                push_all(&mut self.responses, &[0x1b, 0x5b, 0x30, 0x6e]);
            } else if v == 6 {
                proof {
                    self.grid.lemma_position_counts();
                }
                push_all(&mut self.responses, &[0x1b, 0x5b]);
                push_decimal(&mut self.responses, self.grid.cy + 1);
                self.responses.push(0x3b);
                push_decimal(&mut self.responses, self.grid.cx + 1);
                self.responses.push(0x52);
                proof {
                    assert(self.responses@ =~= r0 + cursor_report(self.grid@));
                }
            }
        } else if action == 'c' {
            push_all(&mut self.responses, &[0x1b, 0x5b, 0x3f, 0x31, 0x3b, 0x32, 0x63]);
        }
        proof {
            assert(self.responses@ =~= r0 + csi_reply(old(self)@.grid, p@, Seq::empty(), action));
        }
    }

    /// Act on a control sequence.
    pub fn csi_dispatch(&mut self, params: &Vec<Vec<u16>>, intermediates: &Vec<u8>, action: char)
        requires
            old(self).wf(),
        ensures
            final(self).wf(),
            final(self)@ == old(self)@.perform(
                EventView::Csi {
                    params: vt::param_views(params@),
                    intermediates: intermediates@,
                    action,
                },
            ),
    {
        let p: Vec<u16> = flat(params);
        if intermediates.len() > 0 {
            proof {
                assert(self@.responses + Seq::<u8>::empty() =~= self@.responses);
            }
            self.csi_marked(&p, intermediates, action);
            return;
        }
        proof {
            assert(intermediates@ =~= Seq::empty());
        }
        self.csi_answer(&p, action);
        if !self.csi_cursor(&p, action) {
            if !self.csi_edit(&p, action) {
                self.csi_state(&p, action);
            }
        }
    }

    /// Act on an escape sequence.
    #[verifier::rlimit(30)]
    pub fn esc_dispatch(&mut self, intermediates: &Vec<u8>, byte: u8)
        requires
            old(self).wf(),
        ensures
            final(self).wf(),
            final(self)@ == old(self)@.perform(
                EventView::Esc { intermediates: intermediates@, byte },
            ),
            intermediates@.len() > 0 ==> final(self)@ == old(self)@,
    {
        if intermediates.len() > 0 {
            return;
        }
        if byte == 0x37 {
            self.grid.save_cursor();
        } else if byte == 0x38 {
            self.grid.restore_cursor();
        } else if byte == 0x44 {
            // IND
            self.grid.line_feed();
        } else if byte == 0x45 {
            // NEL
            self.grid.line_feed();
            self.grid.carriage_return();
        } else if byte == 0x4d {
            // RI
            self.grid.reverse_line_feed();
        } else if byte == 0x63 {
            // RIS
            self.grid.full_reset();
        }
    }

    /// Act on an operating system command.
    pub fn osc_dispatch(&mut self, fields: &Vec<Vec<u8>>)
        requires
            old(self).wf(),
        ensures
            final(self).wf(),
            final(self)@ == old(self)@.perform(EventView::Osc(vt::field_views(fields@))),
    {
        if fields.len() >= 2 {
            let kind = &fields[0];
            if kind.len() == 1 && (kind[0] == 0x30 || kind[0] == 0x32) {
                proof {
                    let k = vt::field_views(fields@)[0];
                    assert(k =~= seq![0x30u8] || k =~= seq![0x32u8]);
                }
                self.set_title(from_utf8_lossy(fields[1].as_slice()));
            }
        }
    }

    /// Take over a title that was read from the stream.
    pub fn set_title(&mut self, title: String)
        ensures
            final(self)@ == (TermView { title: title@, ..old(self)@ }),
            final(self).grid == old(self).grid,
    {
        self.title = title;
    }

    /// Act on one event.
    pub fn perform(&mut self, event: &Event)
        requires
            old(self).wf(),
        ensures
            final(self).wf(),
            final(self)@ == old(self)@.perform(event@),
    {
        match event {
            Event::Print(c) => self.print(*c),
            Event::Execute(b) => self.execute(*b),
            Event::Csi { params, intermediates, action } => self.csi_dispatch(
                params,
                intermediates,
                *action,
            ),
            Event::Esc { intermediates, byte } => self.esc_dispatch(intermediates, *byte),
            Event::Osc(fields) => self.osc_dispatch(fields),
        }
    }

    /// Parse one byte and act on what it completes.
    #[verifier::rlimit(30)]
    fn feed_byte(&mut self, byte: u8)
        requires
            old(self).wf(),
        ensures
            final(self).wf(),
            final(self)@ == old(self)@.step(byte),
            vt::vte_ground(old(self)@.parser) && is_plain(byte) ==> {
                &&& vt::vte_ground(final(self)@.parser)
                &&& final(self)@ == (TermView {
                    parser: final(self)@.parser,
                    grid: type_byte(old(self)@.grid, byte),
                    ..old(self)@
                })
            },
    {
        let ghost t0 = self@;
        let events: Vec<Event> = advance(&mut self.parser, byte);
        let ghost t1 = TermView { parser: self@.parser, ..t0 };
        let ghost ev = vt::event_views(events@);
        let mut j: usize = 0;
        proof {
            assert(ev.take(0) =~= Seq::empty());
        }
        while j < events.len()
            invariant
                j <= events@.len(),
                ev == vt::event_views(events@),
                self.wf(),
                self@ == t1.perform_all(ev.take(j as int)),
            decreases events@.len() - j,
        {
            self.perform(&events[j]);
            proof {
                assert(ev.take(j + 1).drop_last() =~= ev.take(j as int));
                assert(ev.take(j + 1).last() == events@[j as int]@);
            }
            j = j + 1;
        }
        proof {
            assert(ev.take(j as int) =~= ev);
            if vt::vte_ground(t0.parser) && is_plain(byte) {
                let e = ev[0];
                assert(ev.drop_last() =~= Seq::empty());
                assert(t1.perform_all(ev.drop_last()) == t1);
                assert(self@ == t1.perform(e));
                assert(self@.parser == t1.parser);
            }
        }
    }

    /// See [`TermView::settle`].
    fn settle(&mut self, before: usize)
        requires
            old(self).wf(),
        ensures
            final(self).wf(),
            final(self)@ == old(self)@.settle(before as int),
    {
        if self.grid.scrollback.len() > before {
            let grew: usize = self.grid.scrollback.len() - before;
            // Scrollback indices shifted; drop any selection to avoid a stale highlight.
            self.grid.sel_clear();
            // Keep the viewport on the same lines while scrolled up.
            if self.grid.view_offset > 0 {
                let room: usize = self.grid.scrollback.len() - self.grid.view_offset;
                self.grid.view_offset = if grew < room {
                    self.grid.view_offset + grew
                } else {
                    self.grid.scrollback.len()
                };
            }
        }
    }

    /// Parse `bytes` and act on what they complete.
    #[verifier::rlimit(40)]
    fn run(&mut self, bytes: &[u8])
        requires
            old(self).wf(),
        ensures
            final(self).wf(),
            final(self)@ == old(self)@.run(bytes@),
            vt::vte_ground(old(self)@.parser) && all_plain(bytes@) ==> {
                &&& vt::vte_ground(final(self)@.parser)
                &&& final(self)@ == (TermView {
                    parser: final(self)@.parser,
                    grid: type_bytes(old(self)@.grid, bytes@),
                    ..old(self)@
                })
            },
    {
        let mut i: usize = 0;
        proof {
            assert(bytes@.take(0) =~= Seq::empty());
        }
        while i < bytes.len()
            invariant
                i <= bytes@.len(),
                self.wf(),
                self@ == old(self)@.run(bytes@.take(i as int)),
                vt::vte_ground(old(self)@.parser) && all_plain(bytes@) ==> {
                    &&& vt::vte_ground(self@.parser)
                    &&& self@ == (TermView {
                        parser: self@.parser,
                        grid: type_bytes(old(self)@.grid, bytes@.take(i as int)),
                        ..old(self)@
                    })
                },
            decreases bytes@.len() - i,
        {
            self.feed_byte(bytes[i]);
            proof {
                assert(bytes@.take(i + 1).drop_last() =~= bytes@.take(i as int));
                assert(bytes@.take(i + 1).last() == bytes@[i as int]);
            }
            i = i + 1;
        }
        proof {
            assert(bytes@.take(i as int) =~= bytes@);
        }
    }

    /// Take in output of the shell. Outside any sequence, plain text and controls
    /// act on the screen one by one.
    #[verifier::rlimit(40)]
    pub fn feed(&mut self, bytes: &[u8])
        requires
            old(self).wf(),
        ensures
            final(self).wf(),
            final(self)@ == old(self)@.feed(bytes@),
            vt::vte_ground(old(self)@.parser) && all_plain(bytes@) ==> {
                &&& vt::vte_ground(final(self)@.parser)
                &&& final(self)@ == (TermView {
                    parser: final(self)@.parser,
                    grid: type_bytes(old(self)@.grid, bytes@),
                    ..old(self)@
                }).settle(old(self)@.grid.scrollback.len() as int)
            },
    {
        let before: usize = self.grid.scrollback.len();
        self.run(bytes);
        self.settle(before);
    }

    /// Take the replies that are due to the shell.
    pub fn take_responses(&mut self) -> (r: Vec<u8>)
        ensures
            r@ == old(self)@.responses,
            final(self)@ == (TermView { responses: Seq::empty(), ..old(self)@ }),
            final(self).grid == old(self).grid,
    {
        let mut r: Vec<u8> = Vec::new();
        std::mem::swap(&mut r, &mut self.responses);
        r
    }
}

} // verus!

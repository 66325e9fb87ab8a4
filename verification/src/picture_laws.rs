//! Laws of the picture: what a step of it shows is what the terminal and the window hold.

use vstd::prelude::*;

use crate::cells;
use crate::chrome;
use crate::chrome::{CaptionBtn, CHROME_H, PAD_X, PAD_Y};
use crate::colors::{DEFAULT_BG, DEFAULT_FG, SEL_BG, SEL_FG};
use crate::grid::{Cell, CursorStyle};
use crate::render;
use crate::render::{ChromeView, FontKind, Fonts, OpView};
use crate::render_laws;
use crate::screen::GridView;
use crate::utf16;

verus! {

// ---- cells ----

/// The cell that the screen holds in column `x` of display row `y`: a fresh one past the end of a
/// line.
pub open spec fn stored(g: GridView, x: int, y: int) -> Cell {
    let line = g.vlines()[g.display_vline(y)];
    if x < line.len() {
        line[x]
    } else {
        Cell { ch: ' ', fg: DEFAULT_FG, bg: DEFAULT_BG, flags: 0 }
    }
}

/// The font that step `at` of a picture is drawn in: the last one chosen before it.
pub open spec fn font_at(pic: Seq<OpView>, at: int) -> Option<FontKind>
    decreases at,
{
    if at <= 0 {
        None
    } else {
        match pic[at - 1] {
            OpView::Font(k) => Some(k),
            _ => font_at(pic, at - 1),
        }
    }
}

/// Every cell is drawn as it is stored: step `at.0` of the cells has it, `at.1` cells from its
/// start, on the cell's pixels, with the low 16 bits of the cell's character. A selected cell has
/// the colors of the selection; another one its own, swapped where it is in reverse video. A bold
/// one is drawn in the bold font, and an underlined one, alone, has a line of its color along its
/// bottom.
pub proof fn law_cell_drawn_as_stored(g: GridView, f: Fonts, x: int, y: int) -> (at: (int, int))
    requires
        f.wf(),
        f.drawable(g.cols, g.rows),
        0 <= x < g.cols,
        0 <= y < g.rows,
    ensures
        ({
            let pic = cells::cells_picture(g, f);
            let c = stored(g, x, y);
            let selected = g.selects(g.display_vline(y), x);
            &&& 0 <= at.0 < pic.len()
            &&& pic[at.0] matches OpView::Run { x: px, y: py, rect, units, fg, bg }
            &&& selected ==> fg == SEL_FG && bg == SEL_BG
            &&& !selected && c.flags & 8 == 0 ==> fg == c.fg && bg == c.bg
            &&& !selected && c.flags & 8 != 0 ==> fg == c.bg && bg == c.fg
            &&& 0 <= at.1 < units.len()
            &&& units[at.1] as int == c.ch as u32 as int % 0x1_0000
            &&& rect.left + at.1 * f.cw == PAD_X + x * f.cw
            &&& rect.left + units.len() * f.cw == rect.right
            &&& rect.top == CHROME_H + PAD_Y + y * f.ch
            &&& rect.bottom == rect.top + f.ch
            &&& px == rect.left
            &&& py == rect.top + f.lead
            &&& font_at(pic, at.0) == Some(
                if c.flags & 1 != 0 {
                    FontKind::Bold
                } else {
                    FontKind::Normal
                },
            )
            &&& c.flags & 4 != 0 ==> at.0 + 1 < pic.len() && pic[at.0 + 1] == (OpView::Fill {
                rect: chrome::Rect { top: (rect.bottom - 1) as i32, ..rect },
                color: fg,
            })
            &&& c.flags & 4 == 0 && at.0 + 1 < pic.len() ==> !(pic[at.0 + 1] is Fill)
        }),
{
    let (k, i) = render_laws::law_every_cell_drawn(g, f, x, y);
    let runs = cells::all_runs(g);
    let r = runs[k];
    let of_run = |k: int| cells::run_steps(g, f, runs, k);
    let pic = cells::cells_picture(g, f);
    let n = runs.len() as int;
    lemma_joined_at(n, of_run, k, i);
    let at = render::joined(k, of_run).len() + i;
    assert(pic[at] == of_run(k)[i]);
    let c = stored(g, x, y);
    let first = cells::look(g, r.y, r.start);
    lemma_run_flags(g, k, x, y);
    assert(first.flags == c.flags);
    assert(i == lead_in(g, runs, k)) by {
        lemma_only_run(g, f, runs, k, i);
    }
    lemma_font_of_run(g, f, k);
    cells::lemma_pixels(f, g.cols, g.rows, r.start, y);
    cells::lemma_pixels(f, g.cols, g.rows, r.end, y);
    assert((x - r.start) * f.cw == x * f.cw - r.start * f.cw && (r.end - r.start) * f.cw == r.end
        * f.cw - r.start * f.cw) by (nonlinear_arith);
    if c.flags & 4 != 0 {
        lemma_joined_at(n, of_run, k, i + 1);
    } else if at + 1 < pic.len() {
        assert(of_run(k).len() == i + 1);
        if k + 1 < n {
            lemma_joined_at(n, of_run, k + 1, 0);
            assert(render::joined(k + 1, of_run).len() == at + 1);
        } else {
            assert(pic.len() == at + 1);
        }
    }
    (at as int, x - r.start)
}

/// Steps of run `k` before its cells: the choice of a font, where there is one.
spec fn lead_in(g: GridView, runs: Seq<cells::RunView>, k: int) -> int {
    if k == 0 || cells::is_bold(g, runs[k]) != cells::is_bold(g, runs[k - 1]) {
        1
    } else {
        0
    }
}

proof fn lemma_only_run(g: GridView, f: Fonts, runs: Seq<cells::RunView>, k: int, i: int)
    requires
        0 <= i < cells::run_steps(g, f, runs, k).len(),
        cells::run_steps(g, f, runs, k)[i] is Run,
    ensures
        i == lead_in(g, runs, k),
{
}

/// The cells of a run have the same flags, which are those of the cells stored there.
proof fn lemma_run_flags(g: GridView, k: int, x: int, y: int)
    requires
        0 <= y < g.rows,
        0 <= x < g.cols,
        0 <= k < cells::all_runs(g).len(),
        cells::all_runs(g)[k].y == y,
        cells::all_runs(g)[k].start <= x < cells::all_runs(g)[k].end,
    ensures
        cells::look(g, y, cells::all_runs(g)[k].start).flags == cells::look(g, y, x).flags,
        cells::look(g, y, x).flags == stored(g, x, y).flags,
        0 <= cells::all_runs(g)[k].start < cells::all_runs(g)[k].end <= g.cols,
{
    let row = |y: int| cells::runs_from(g, y, 0);
    let (yy, j) = lemma_joined_from(g.rows, row, k);
    render_laws::law_runs_tile_row(g, yy, 0);
    assert(row(yy)[j].y == yy);
    assert(cells::alike(cells::look(g, y, row(y)[j].start), cells::look(g, y, x)));
}

proof fn lemma_joined_at<A>(n: int, f: spec_fn(int) -> Seq<A>, k: int, i: int)
    requires
        0 <= k < n,
        0 <= i < f(k).len(),
    ensures
        ({
            let at = render::joined(k, f).len() + i;
            at < render::joined(n, f).len() && render::joined(n, f)[at] == f(k)[i]
        }),
        render::joined(k, f).len() + f(k).len() <= render::joined(n, f).len(),
    decreases n,
{
    if k < n - 1 {
        lemma_joined_at(n - 1, f, k, i);
    }
}

proof fn lemma_joined_from<A>(n: int, f: spec_fn(int) -> Seq<A>, at: int) -> (r: (int, int))
    requires
        0 <= at < render::joined(n, f).len(),
    ensures
        0 <= r.0 < n,
        0 <= r.1 < f(r.0).len(),
        render::joined(n, f)[at] == f(r.0)[r.1],
    decreases n,
{
    let init = render::joined(n - 1, f);
    if at < init.len() {
        lemma_joined_from(n - 1, f, at)
    } else {
        (n - 1, at - init.len())
    }
}

/// The cells of run `k` are drawn in the font that its flags ask for.
proof fn lemma_font_of_run(g: GridView, f: Fonts, k: int)
    requires
        0 <= k < cells::all_runs(g).len(),
    ensures
        ({
            let runs = cells::all_runs(g);
            let of_run = |k: int| cells::run_steps(g, f, runs, k);
            let at = render::joined(k, of_run).len() + lead_in(g, runs, k);
            font_at(cells::cells_picture(g, f), at as int) == Some(
                if cells::is_bold(g, runs[k]) {
                    FontKind::Bold
                } else {
                    FontKind::Normal
                },
            )
        }),
    decreases k,
{
    let runs = cells::all_runs(g);
    let of_run = |k: int| cells::run_steps(g, f, runs, k);
    let pic = cells::cells_picture(g, f);
    let n = runs.len() as int;
    let off = render::joined(k, of_run).len() as int;
    if lead_in(g, runs, k) == 1 {
        lemma_joined_at(n, of_run, k, 0);
        assert(pic[off] == of_run(k)[0]);
        assert(font_at(pic, off + 1) == match pic[off] {
            OpView::Font(k) => Some(k),
            _ => font_at(pic, off),
        });
    } else {
        let p = k - 1;
        let at = render::joined(p, of_run).len() + lead_in(g, runs, p);
        lemma_font_of_run(g, f, p);
        lemma_joined_at(n, of_run, p, lead_in(g, runs, p));
        assert(pic[at as int] is Run);
        assert(font_at(pic, at + 1) == font_at(pic, at as int));
        assert(off == render::joined(p, of_run).len() + of_run(p).len());
        if of_run(p).len() == lead_in(g, runs, p) + 2 {
            lemma_joined_at(n, of_run, p, lead_in(g, runs, p) + 1);
            assert(pic[at + 1] is Fill);
            assert(font_at(pic, at + 2) == font_at(pic, at + 1));
            assert(off == at + 2);
        } else {
            assert(off == at + 1);
        }
    }
}

// ---- cursor ----

/// The cursor is drawn on its own cell and nowhere else: a block inverts the cell, an underline is
/// along its bottom, and a bar along its left side, both in the accent color. It is not drawn where
/// the program hides it or the view is off the live screen.
pub proof fn law_cursor_drawn(g: GridView, f: Fonts, accent: u32)
    requires
        g.wf(),
        f.wf(),
        f.drawable(g.cols, g.rows),
    ensures
        ({
            let pic = cells::cursor_picture(g, f, accent);
            let left = PAD_X + g.cx * f.cw;
            let top = CHROME_H + PAD_Y + g.cy * f.ch;
            &&& pic.len() == if g.cursor_visible && g.view_offset == 0 {
                1nat
            } else {
                0
            }
            &&& pic.len() == 1 && g.cursor_style == CursorStyle::Block ==> {
                &&& pic[0] matches OpView::Invert { rect }
                &&& rect.left == left && rect.right == left + f.cw
                &&& rect.top == top && rect.bottom == top + f.ch
            }
            &&& pic.len() == 1 && g.cursor_style == CursorStyle::Underline ==> {
                &&& pic[0] matches OpView::Fill { rect, color }
                &&& color == accent
                &&& rect.left == left && rect.right == left + f.cw
                &&& rect.top == top + f.ch - 2 && rect.bottom == top + f.ch
            }
            &&& pic.len() == 1 && g.cursor_style == CursorStyle::Bar ==> {
                &&& pic[0] matches OpView::Fill { rect, color }
                &&& color == accent
                &&& rect.left == left && rect.right == left + 2
                &&& rect.top == top && rect.bottom == top + f.ch
            }
        }),
{
    cells::lemma_pixels(f, g.cols, g.rows, g.cx, g.cy);
    cells::lemma_pixels(f, g.cols, g.rows, g.cx + 1, g.cy);
    assert((g.cx + 1) * f.cw == g.cx * f.cw + f.cw) by (nonlinear_arith);
}

// ---- layers ----

/// The layers of the picture, from the back: the strip, the cells, which are drawn on a background
/// of their own, the cursor, and the dropdown. The result is where the last four begin.
pub proof fn law_layers(width: int, height: int, g: GridView, f: Fonts, c: ChromeView) -> (at: (
    int,
    int,
    int,
    int,
))
    ensures
        ({
            let s = render::scene(width, height, g, f, c);
            let strip = render::chrome_picture(width, c);
            let text = cells::cells_picture(g, f);
            let cursor = cells::cursor_picture(g, f, c.accent);
            let menu = render::menu_picture(width, c);
            &&& 0 < at.0 && at.0 + strip.len() < at.1
            &&& at.1 + text.len() <= at.2 && at.2 + cursor.len() <= at.3 && at.3 + menu.len()
                < s.len()
            &&& s.subrange(at.0, at.0 + strip.len()) == strip
            &&& s[at.1 - 1] is Opaque
            &&& s.subrange(at.1, at.1 + text.len()) == text
            &&& s.subrange(at.2, at.2 + cursor.len()) == cursor
            &&& s.subrange(at.3, at.3 + menu.len()) == menu
        }),
{
    let s = render::scene(width, height, g, f, c);
    let strip = render::chrome_picture(width, c);
    let text = cells::cells_picture(g, f);
    let cursor = cells::cursor_picture(g, f, c.accent);
    let menu = render::menu_picture(width, c);
    let (a, b) = (1int, 2 + strip.len() as int);
    let (d, e) = (b + text.len(), b + text.len() + cursor.len());
    assert(s.subrange(a, a + strip.len()) =~= strip);
    assert(s.subrange(b, b + text.len()) =~= text);
    assert(s.subrange(d, d + cursor.len()) =~= cursor);
    assert(s.subrange(e, e + menu.len()) =~= menu);
    (a, b, d, e)
}

// ---- the strip ----

/// The tabs stand side by side from the left edge, 200 pixels each, and the "+" follows them; the
/// caption buttons stand side by side at the right edge, 46 pixels each, the close button last.
/// The close box is a square in its tab, as far from the top of the strip as from its bottom.
pub proof fn law_strip_layout(i: int, width: int, x: int, y: int)
    ensures
        chrome::tab_left(i) == 200 * i,
        chrome::newtab_left(i) == 200 * i + 4,
        chrome::caption_left(width, CaptionBtn::Close) == width - 46,
        chrome::caption_left(width, CaptionBtn::Max) == width - 92,
        chrome::caption_left(width, CaptionBtn::Min) == width - 138,
        chrome::in_close_box(i, x, y) <==> 200 * i + 168 <= x < 200 * i + 192 && CHROME_H / 2 - 12
            <= y < CHROME_H / 2 + 12,
{
}

/// A tab shows its name: the text of its label, cut off before its close box, brighter on the
/// active tab.
pub proof fn law_tab_shows_its_name(c: ChromeView, i: int)
    requires
        0 <= i < c.labels.len() <= chrome::MAX_TABS,
    ensures
        ({
            let s = render::tab_label(c, i);
            &&& s.len() == 1
            &&& s[0] matches OpView::Text { x, clip, units, color, .. }
            &&& utf16::decode(units) == c.labels[i]
            &&& 200 * i <= clip.left && x == clip.left
            &&& clip.left < clip.right <= 200 * i + 168
            &&& color == if i == c.active {
                render::TAB_TEXT
            } else {
                render::TAB_TEXT_DIM
            }
        }),
{
    utf16::law_decode_encode(c.labels[i]);
}

/// The active tab, and it alone, stands on the terminal's background under a bar of the accent
/// color along its whole top edge.
pub proof fn law_active_tab_is_marked(c: ChromeView, i: int)
    requires
        0 <= i < chrome::MAX_TABS,
    ensures
        ({
            let s = render::tab_back(c, i);
            &&& i == c.active ==> {
                &&& s.len() == 2
                &&& s[0] matches OpView::Fill { rect: tab, color: back }
                &&& s[1] matches OpView::Fill { rect: bar, color }
                &&& back == DEFAULT_BG && color == c.accent
                &&& tab.left == 200 * i && tab.right == 200 * i + 200
                &&& tab.top == 0 && tab.bottom == CHROME_H
                &&& bar.left == tab.left && bar.right == tab.right
                &&& bar.top == 0 && bar.bottom == 2
            }
            &&& i != c.active ==> s.len() <= 1 && forall|k: int|
                0 <= k < s.len() ==> {
                    &&& #[trigger] s[k] matches OpView::Fill { rect, color }
                    &&& color == render::SEPARATOR
                    &&& rect.right == rect.left + 1
                }
        }),
{
}

/// The strip has every tab's background, name and close button.
pub proof fn law_strip_has_every_tab(c: ChromeView, width: int, i: int)
    requires
        0 <= i < c.labels.len(),
    ensures
        ({
            let s = render::chrome_picture(width, c);
            &&& s.contains(render::tab_label(c, i)[0])
            &&& i == c.active ==> s.contains(render::tab_back(c, i)[0]) && s.contains(
                render::tab_back(c, i)[1],
            )
            &&& s.contains(render::tab_close(c, i).last())
            &&& c.hover_close == Some(i as usize) ==> s.contains(render::tab_close(c, i)[0])
        }),
{
    let s = render::chrome_picture(width, c);
    let n = c.labels.len() as int;
    let (back, label, close) = (
        |i: int| render::tab_back(c, i),
        |i: int| render::tab_label(c, i),
        |i: int| render::tab_close(c, i),
    );
    let (b, l, d) = (render::joined(n, back), render::joined(n, label), render::joined(n, close));
    lemma_joined_at(n, label, i, 0);
    let p = render::joined(i, label).len() as int;
    assert(s[2 + b.len() + 1 + p] == l[p]);
    if i == c.active {
        lemma_joined_at(n, back, i, 0);
        lemma_joined_at(n, back, i, 1);
        let p = render::joined(i, back).len() as int;
        assert(s[2 + p] == b[p] && s[2 + p + 1] == b[p + 1]);
    }
    let last = close(i).len() - 1;
    lemma_joined_at(n, close, i, 0);
    lemma_joined_at(n, close, i, last);
    let p = render::joined(i, close).len() as int;
    let from = 2 + b.len() + 1 + l.len() + 2;
    assert(s[from + p] == d[p] && s[from + p + last] == d[p + last]);
}

/// A caption button shows what it does: minimize, maximize or restore, close. It is highlighted
/// when it is hovered, the one that closes in red.
pub proof fn law_caption_shows_its_glyph(c: ChromeView, width: int, btn: CaptionBtn)
    requires
        c.drawable(width),
        width <= i32::MAX,
    ensures
        ({
            let s = render::caption(c, width, btn);
            let hovered = c.hover == Some(btn);
            &&& s.len() == if hovered {
                2nat
            } else {
                1
            }
            &&& s.last() matches OpView::Text { clip, units, .. }
            &&& units == seq![
                match btn {
                    CaptionBtn::Min => 0xE921u16,
                    CaptionBtn::Max => if c.is_max {
                        0xE923u16
                    } else {
                        0xE922u16
                    },
                    CaptionBtn::Close => 0xE8BBu16,
                },
            ]
            &&& clip.left == chrome::caption_left(width, btn) && clip.right == clip.left + 46
            &&& hovered ==> (s[0] matches OpView::Fill { color, .. } && (color
                == render::CLOSE_HOVER_BG <==> btn == CaptionBtn::Close))
            &&& render::chrome_picture(width, c).contains(s.last())
        }),
{
    let s = render::chrome_picture(width, c);
    let (min, max, close) = (
        render::caption(c, width, CaptionBtn::Min),
        render::caption(c, width, CaptionBtn::Max),
        render::caption(c, width, CaptionBtn::Close),
    );
    let n = s.len() as int;
    assert(s[n - 1] == close.last());
    assert(s[n - close.len() - 1] == max.last());
    assert(s[n - close.len() - max.len() - 1] == min.last());
}

// ---- the dropdown ----

/// The open dropdown shows each of its items, by name, inside the place where it is picked and on
/// the dropdown's own background; a closed one shows nothing.
pub proof fn law_dropdown_shows_its_items(c: ChromeView, items: Seq<Seq<char>>, width: int, i: int)
    requires
        c.drawable(width),
        width <= i32::MAX,
        c.menu == Some(items),
        0 <= i < items.len(),
    ensures
        ({
            let s = render::menu_picture(width, c);
            let item = render::menu_item(c, items, width, i).last();
            let n = c.labels.len() as int;
            &&& s.contains(item)
            &&& item matches OpView::Text { clip, units, .. }
            &&& utf16::decode(units) == items[i]
            &&& clip.left < clip.right && clip.top < clip.bottom
            &&& chrome::in_menu_item(n, width, i, clip.left as int, clip.top as int)
            &&& chrome::in_menu_item(n, width, i, clip.right - 1, clip.bottom - 1)
            &&& s[2] matches OpView::Fill { rect, color }
            &&& color == render::CHROME_BG
            &&& rect.left <= clip.left && clip.right <= rect.right
            &&& rect.top <= clip.top && clip.bottom <= rect.bottom
        }),
        render::menu_picture(width, ChromeView { menu: None, ..c }).len() == 0,
{
    let s = render::menu_picture(width, c);
    let n = items.len() as int;
    let of_item = |i: int| render::menu_item(c, items, width, i);
    let last = of_item(i).len() - 1;
    lemma_joined_at(n, of_item, i, last);
    let p = render::joined(i, of_item).len() as int;
    assert(s[3 + p + last] == render::joined(n, of_item)[p + last]);
    utf16::law_decode_encode(items[i]);
}

/// The strip stands on a background of its own, as wide as the window, and has the "+" after its
/// tabs, inside the place where it answers.
pub proof fn law_strip_has_the_plus(c: ChromeView, width: int)
    requires
        c.drawable(width),
        0 <= width <= i32::MAX,
    ensures
        ({
            let s = render::chrome_picture(width, c);
            let n = c.labels.len() as int;
            &&& s[0] matches OpView::Fill { rect, color }
            &&& rect.left == 0 && rect.top == 0 && rect.right == width && rect.bottom == CHROME_H
            &&& color == render::CHROME_BG
            &&& s.contains(render::plus(n))
            &&& render::plus(n) matches OpView::Text { x, clip, units, .. }
            &&& units == seq!['+' as u16]
            &&& 200 * n + 4 <= clip.left <= x < clip.right <= 200 * n + 34
        }),
{
    let s = render::chrome_picture(width, c);
    let n = c.labels.len() as int;
    let b = render::joined(n, |i: int| render::tab_back(c, i));
    let l = render::joined(n, |i: int| render::tab_label(c, i));
    assert(s[(3 + b.len() + l.len()) as int] == render::plus(n));
}

/// A tab's close button is a cross over its close box, and is highlighted when it is hovered and
/// not else.
pub proof fn law_close_button_drawn(c: ChromeView, i: int)
    requires
        0 <= i < chrome::MAX_TABS,
    ensures
        ({
            let s = render::tab_close(c, i);
            let hovered = c.hover_close == Some(i as usize);
            &&& s.len() == if hovered {
                2nat
            } else {
                1
            }
            &&& s.last() matches OpView::Text { x, clip, units, color, .. }
            &&& units == seq![0xE711u16]
            &&& clip.left == 200 * i + 168 && clip.right == 200 * i + 192
            &&& clip.left <= x < clip.right
            &&& hovered ==> color == render::HOVER_TEXT
            &&& hovered ==> (s[0] matches OpView::Fill { color, .. } && color == render::HOVER_BG)
        }),
{
}

/// The outline runs round the whole window.
pub proof fn law_outline_goes_round(width: int, height: int, c: ChromeView)
    requires
        0 <= width < i32::MAX,
        0 <= height < i32::MAX,
    ensures
        ({
            let s = render::border_picture(width, height, c);
            &&& s.len() == 1
            &&& s[0] matches OpView::Frame { rect, .. }
            &&& rect.left == 0 && rect.top == 0
            &&& rect.right == width + 1 && rect.bottom == height + 1
        }),
{
}

// ---- fonts ----

/// The face that is looked for first is the preferred one; then come the faces that a system is
/// likely to have, Consolas first and Courier New last.
pub proof fn law_faces_in_order(preferred: Seq<char>)
    ensures
        render::mono_face(preferred, 0) == preferred,
        render::mono_face(preferred, 1) == "Consolas"@,
        render::mono_face(preferred, 2) == "Cascadia Mono"@,
        render::mono_face(preferred, 3) == "Lucida Console"@,
        render::mono_face(preferred, 4) == "Courier New"@,
{
}

} // verus!

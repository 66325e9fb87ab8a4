//! Laws of the window's events: what each of them does to the tab, the screen or the dropdown it
//! is meant for, and that it leaves the rest alone.

use vstd::prelude::*;

use crate::chrome;
use crate::chrome::{Hit, CHROME_H, PAD_X, PAD_Y};
use crate::input;
use crate::input::{Modifiers, VK_ESCAPE, VK_T, VK_TAB, VK_W};
use crate::parser::TermView;
use crate::render::Fonts;
use crate::screen::GridView;
use crate::state;
use crate::state::{AppView, EffectView, TabView};
use crate::text;
use crate::window_laws;

verus! {

// ---- pointer ----

/// The cell at a point is the one drawn there: where the point lies on the pixels of the cell in
/// some row and column of the view, it stands for that cell.
pub proof fn law_pointer_finds_the_cell_drawn(
    g: GridView,
    f: Fonts,
    row: int,
    col: int,
    x: int,
    y: int,
)
    requires
        g.wf(),
        f.wf(),
        0 <= row < g.rows,
        0 <= col < g.cols,
        PAD_X + col * f.cw <= x < PAD_X + col * f.cw + f.cw,
        CHROME_H + PAD_Y + row * f.ch <= y < CHROME_H + PAD_Y + row * f.ch + f.ch,
    ensures
        state::mouse_cell(g, f, x, y).0 == g.scrollback.len() - g.view_offset + row,
        state::mouse_cell(g, f, x, y).1 == col,
{
    lemma_place(x - PAD_X, f.cw as int, col);
    lemma_place(y - CHROME_H - PAD_Y, f.ch as int, row);
}

proof fn lemma_place(offset: int, size: int, k: int)
    requires
        0 < size,
        0 <= k,
        k * size <= offset < k * size + size,
    ensures
        0 <= offset,
        offset / size == k,
{
    assert(0 <= k * size && offset / size == k) by (nonlinear_arith)
        requires
            0 < size,
            0 <= k,
            k * size <= offset < k * size + size,
    ;
}

/// A point before the first cell or past the last stands for that cell: a selection that is drawn
/// out of the terminal area goes to its edge.
pub proof fn law_pointer_stops_at_the_edges(g: GridView, f: Fonts, x: int, y: int)
    requires
        g.wf(),
        f.wf(),
    ensures
        ({
            let at = state::mouse_cell(g, f, x, y);
            &&& x <= PAD_X ==> at.1 == 0
            &&& x >= PAD_X + g.cols * f.cw ==> at.1 == g.cols - 1
            &&& y <= CHROME_H + PAD_Y ==> at.0 == g.scrollback.len() - g.view_offset
            &&& y >= CHROME_H + PAD_Y + g.rows * f.ch ==> at.0 == g.scrollback.len()
                - g.view_offset + g.rows - 1
        }),
{
    let (cw, ch) = (f.cw as int, f.ch as int);
    let (dx, dy) = (x - PAD_X, y - CHROME_H - PAD_Y);
    assert(0int / cw == 0 && 0int / ch == 0) by (nonlinear_arith)
        requires
            cw > 0,
            ch > 0,
    ;
    if dx >= g.cols * cw {
        assert(0 <= dx && dx / cw >= g.cols) by (nonlinear_arith)
            requires
                cw > 0,
                g.cols >= 1,
                dx >= g.cols * cw,
        ;
    }
    if dy >= g.rows * ch {
        assert(0 <= dy && dy / ch >= g.rows) by (nonlinear_arith)
            requires
                ch > 0,
                g.rows >= 1,
                dy >= g.rows * ch,
        ;
    }
}

/// The wheel scrolls three lines for each whole notch, and as far back as forth: notches away from
/// the user go up into the history. It scrolls the active tab alone, and changes nothing else.
pub proof fn law_wheel_scrolls_by_notches(s: AppView, notches: int, rest: int, i: int)
    requires
        s.wf(),
        0 <= notches,
        0 <= rest < 120,
        0 <= i < s.tabs.len(),
    ensures
        state::wheel_lines(notches * 120 + rest) == 3 * notches,
        state::wheel_lines(-(notches * 120 + rest)) == -(3 * notches),
        ({
            let r = s.wheel_turned(notches * 120 + rest);
            &&& r == (AppView { tabs: r.tabs, ..s })
            &&& r.tabs.len() == s.tabs.len()
            &&& i != s.active ==> r.tabs[i] == s.tabs[i]
            &&& i == s.active ==> r.tabs[i] == (TabView {
                term: TermView {
                    grid: s.tabs[i].term.grid.scroll_view(3 * notches),
                    ..s.tabs[i].term
                },
                ..s.tabs[i]
            })
        }),
{
}

/// A click in the strip does what stands there: a tab becomes the active one, and nothing else
/// changes; its close box closes it; the "+" is clicked; and the rest of the strip does
/// nothing.
pub proof fn law_strip_clicks(s: AppView, width: int, x: int, y: int, i: int)
    requires
        s.wf(),
        !s.menu_open,
        y < CHROME_H,
        x < width - 138,
        0 <= i < s.tabs.len(),
    ensures
        ({
            let o = s.left_pressed(width, x, y);
            let n = s.tabs.len();
            let on_box = 200 * i + 168 <= x < 200 * i + 192 && CHROME_H / 2 - 12 <= y < CHROME_H / 2
                + 12;
            &&& 200 * i <= x < 200 * i + 200 && !on_box ==> {
                &&& o.state == (AppView { active: i, ..s })
                &&& o.redraw
                &&& o.effect is Nothing
            }
            &&& on_box ==> o == s.close_tab(i)
            &&& 200 * n + 4 <= x < 200 * n + 34 ==> o == s.plus_clicked()
            &&& x < 0 || 200 * n <= x < 200 * n + 4 || 200 * n + 34 <= x ==> o.state == s
                && o.effect is Nothing
        }),
{
    chrome::law_strip_answers_where_drawn(s.tabs.len() as int, width, i, x, y);
    let on_box = chrome::in_close_box(i, x, y);
    if on_box {
        chrome::law_close_box_inside_tab(i, x, y);
    }
}

/// Selecting with the mouse changes the selection of the active tab, and no other tab.
pub proof fn law_selecting_stays_in_the_tab(
    s: AppView,
    width: int,
    x: int,
    y: int,
    dragging: bool,
    i: int,
)
    requires
        s.wf(),
        0 <= i < s.tabs.len(),
    ensures
        ({
            let r = s.mouse_moved(width, x, y, dragging).state;
            &&& r.tabs.len() == s.tabs.len()
            &&& i != s.active ==> r.tabs[i] == s.tabs[i]
            &&& i == s.active ==> r.tabs[i] == (TabView {
                term: TermView {
                    grid: GridView {
                        selection: r.tabs[i].term.grid.selection,
                        ..s.tabs[i].term.grid
                    },
                    ..s.tabs[i].term
                },
                ..s.tabs[i]
            })
        }),
        !s.menu_open && y >= CHROME_H ==> ({
            let r = s.left_pressed(width, x, y).state;
            &&& r.tabs.len() == s.tabs.len()
            &&& i != s.active ==> r.tabs[i] == s.tabs[i]
        }),
{
}

/// A click on a caption button is the window manager's, and does nothing of its own; a click below
/// the strip begins a selection at the cell under it.
pub proof fn law_other_clicks(s: AppView, width: int, x: int, y: int)
    requires
        s.wf(),
        !s.menu_open,
    ensures
        ({
            let o = s.left_pressed(width, x, y);
            let at = state::mouse_cell(s.grid(), s.fonts, x, y);
            &&& y < CHROME_H && x >= width - 138 ==> o.state == s && o.effect is Nothing
            &&& y >= CHROME_H ==> {
                &&& o.effect is Capture
                &&& o.redraw
                &&& o.state.selecting
                &&& o.state.grid() == s.grid().sel_begin(at.0 as usize, at.1 as usize)
                &&& o.state == (AppView { selecting: true, tabs: o.state.tabs, ..s })
            }
        }),
{
}

/// Moving the mouse highlights what lies under it: the close box of a tab, and an item of the open
/// dropdown. Unless a selection is being drawn, it changes nothing else.
pub proof fn law_pointer_highlights(s: AppView, width: int, x: int, y: int, dragging: bool)
    ensures
        ({
            let o = s.mouse_moved(width, x, y, dragging);
            let n = s.tabs.len() as int;
            let r = o.state;
            &&& o.effect is Nothing
            &&& r.hover_close == match chrome::hit_at(n, width, x, y) {
                Hit::Close(i) => Some(i),
                _ => None,
            }
            &&& !s.menu_open ==> r.menu_hover is None
            &&& s.menu_open ==> r.menu_hover == chrome::menu_at(
                n,
                s.shells.len() as int,
                width,
                x,
                y,
            )
            &&& !(s.selecting && dragging) ==> r == (AppView {
                hover_close: r.hover_close,
                menu_hover: r.menu_hover,
                ..s
            })
            &&& s.selecting && dragging ==> r == (AppView {
                hover_close: r.hover_close,
                menu_hover: r.menu_hover,
                tabs: r.tabs,
                ..s
            })
        }),
        s.mouse_left().state == (AppView { hover_close: None, ..s }),
{
}

// ---- drawing again ----

/// The same tab is in front, and its screen and the strip look the same.
pub open spec fn looks_the_same(s: AppView, t: AppView, is_max: bool) -> bool {
    t.grid() == s.grid() && t.chrome(is_max) == s.chrome(is_max)
}

/// What changes is drawn again: after an event that asks for no drawing, the window looks as before
/// it, unless it is to close or a tab is to open, which is drawn in its turn.
pub proof fn law_changes_are_drawn(
    s: AppView,
    width: int,
    x: int,
    y: int,
    dragging: bool,
    vk: u16,
    mods: Modifiers,
    unit: u16,
    is_max: bool,
)
    requires
        s.wf(),
    ensures
        ({
            let o = s.char_typed(unit, mods.ctrl, mods.shift);
            o.redraw || looks_the_same(s, o.state, is_max)
        }),
        ({
            let o = s.mouse_moved(width, x, y, dragging);
            o.redraw || looks_the_same(s, o.state, is_max)
        }),
        ({
            let o = s.mouse_left();
            o.redraw || looks_the_same(s, o.state, is_max)
        }),
        ({
            let o = s.left_pressed(width, x, y);
            o.redraw || o.effect is Quit || o.effect is Open || looks_the_same(s, o.state, is_max)
        }),
        s.menu_hover is None || s.menu_open ==> ({
            let o = s.key_pressed(vk, mods);
            o.redraw || o.effect is Quit || looks_the_same(s, o.state, is_max)
        }),
{
    if !s.menu_open && s.menu_hover is None {
        assert(s.close_menu() == s);
    }
}

// ---- tabs ----

/// Next and previous tab go one further and one back, and round at the ends. Only the active tab
/// changes.
pub proof fn law_tabs_switch_by_one(s: AppView)
    requires
        0 <= s.active < s.tabs.len(),
    ensures
        s.switched(1) == (AppView {
            active: if s.active + 1 < s.tabs.len() {
                s.active + 1
            } else {
                0
            },
            ..s
        }),
        s.switched(-1) == (AppView {
            active: if s.active > 0 {
                s.active - 1
            } else {
                s.tabs.len() - 1
            },
            ..s
        }),
{
    let (a, n) = (s.active, s.tabs.len() as int);
    assert((a + 1) % n == if a + 1 < n { a + 1 } else { 0 }) by (nonlinear_arith)
        requires
            0 <= a < n,
    ;
    assert((a - 1) % n == if a > 0 { a - 1 } else { n - 1 }) by (nonlinear_arith)
        requires
            0 <= a < n,
    ;
}

/// After a tab is closed the active one is at the same place, or at the last one where that is
/// gone, and nothing but the tabs has changed. Its shell is the one to drop.
pub proof fn law_close_tab_keeps_place(s: AppView, i: int)
    requires
        s.wf(),
        0 <= i < s.tabs.len(),
        s.tabs.len() > 1,
    ensures
        ({
            let o = s.close_tab(i);
            &&& o.state == (AppView { tabs: o.state.tabs, active: o.state.active, ..s })
            &&& o.state.active == if s.active < s.tabs.len() - 1 {
                s.active
            } else {
                s.tabs.len() - 2
            }
            &&& o.effect == EffectView::Closed(i)
            &&& o.redraw
        }),
{
}

/// A new tab comes last and in front, and the others stay where they are.
pub proof fn law_new_tab_comes_last(s: AppView, t: TabView, i: int)
    requires
        0 <= i < s.tabs.len(),
    ensures
        ({
            let r = s.pushed(t);
            &&& r == (AppView { tabs: r.tabs, active: r.active, ..s })
            &&& r.tabs.len() == s.tabs.len() + 1
            &&& r.tabs[i] == s.tabs[i]
            &&& r.tabs[s.tabs.len() as int] == t
            &&& r.active == s.tabs.len()
        }),
{
}

/// A tab is called by the title its program set; where there is none, or the title ends in ".exe"
/// and so is the path of a program, by the label of its shell.
pub proof fn law_tab_name(t: TabView)
    ensures
        ({
            let (title, n) = (t.term.title, t.term.title.len() as int);
            let path = n >= 4 && title[n - 4] == '.' && title[n - 3] == 'e' && title[n - 2] == 'x'
                && title[n - 1] == 'e';
            &&& n > 0 && !path ==> t.name() == title
            &&& n == 0 || path ==> t.name() == t.label
        }),
{
    reveal_strlit(".exe");
    let (title, n) = (t.term.title, t.term.title.len() as int);
    if n >= 4 {
        let end = title.subrange(n - 4, n);
        assert(end[0] == title[n - 4] && end[1] == title[n - 3] && end[2] == title[n - 2] && end[3]
            == title[n - 1]);
        if title[n - 4] == '.' && title[n - 3] == 'e' && title[n - 2] == 'x' && title[n - 1] == 'e' {
            assert(end =~= ".exe"@);
        }
    }
}

/// The strip shows the tabs by name in their order and marks the active one; the dropdown, when it
/// is open, shows the shells by name in theirs; and what is hovered and focused is shown so.
pub proof fn law_strip_shows_the_window(s: AppView, is_max: bool, i: int)
    ensures
        ({
            let c = s.chrome(is_max);
            &&& c.labels.len() == s.tabs.len()
            &&& 0 <= i < s.tabs.len() ==> c.labels[i] == s.tabs[i].name()
            &&& c.active == s.active && c.accent == s.accent && c.is_max == is_max
            &&& c.hover == s.hover && c.hover_close == s.hover_close && c.focused == s.focused
            &&& c.menu_hover == s.menu_hover
            &&& c.menu is Some <==> s.menu_open
            &&& s.menu_open ==> (c.menu->0).len() == s.shells.len()
            &&& s.menu_open && 0 <= i < s.shells.len() ==> (c.menu->0)[i] == s.shells[i].label
        }),
{
}

/// A new size of the window is that of every terminal in it: each is resized, and is otherwise as
/// it was. The tabs stay in place, and the dropdown closes.
pub proof fn law_resize_reaches_every_tab(s: AppView, cols: int, rows: int, i: int)
    requires
        1 <= cols,
        1 <= rows,
        0 <= i < s.tabs.len(),
    ensures
        ({
            let r = s.resized(cols, rows);
            &&& r == (AppView { tabs: r.tabs, menu_open: false, menu_hover: None, ..s })
            &&& r.tabs.len() == s.tabs.len()
            &&& r.tabs[i] == (TabView {
                term: TermView {
                    grid: s.tabs[i].term.grid.resize(cols, rows),
                    ..s.tabs[i].term
                },
                ..s.tabs[i]
            })
        }),
{
}

/// Output goes to the terminal of its tab, and the replies that are due are handed out once: none
/// is left behind.
pub proof fn law_output_reaches_its_tab(s: AppView, i: int, bytes: Seq<u8>)
    requires
        0 <= i < s.tabs.len(),
    ensures
        ({
            let (before, after) = (s.tabs[i].term, s.fed(i, bytes).tabs[i].term);
            &&& after.grid == before.feed(bytes).grid
            &&& after.title == before.feed(bytes).title
            &&& after.parser == before.feed(bytes).parser
            &&& after.responses.len() == 0
        }),
{
}

/// Focus changes the outline, and its loss closes the dropdown; nothing else changes.
pub proof fn law_focus(s: AppView)
    ensures
        s.nc_activate(true) == (AppView { focused: true, ..s }),
        s.nc_activate(false) == (AppView {
            focused: false,
            menu_open: false,
            menu_hover: None,
            ..s
        }),
        s.close_menu() == (AppView { menu_open: false, menu_hover: None, ..s }),
{
}

// ---- typing ----

/// A character that is typed reaches the shell as it is, but for those of the shortcuts and the
/// one that follows Backspace, which do nothing.
pub proof fn law_characters_reach_the_shell(s: AppView, unit: u16, ctrl: bool, shift: bool)
    ensures
        ({
            let o = s.char_typed(unit, ctrl, shift);
            let shortcut = ctrl && (shift || unit == 0x09 || unit == 0x14 || unit == 0x17);
            let backspace = unit == 0x7f || (unit == 0x08 && !ctrl);
            &&& !shortcut && !backspace ==> o.effect == EffectView::Write(input::unit_bytes(unit))
            &&& shortcut || backspace ==> o.state == s && o.effect is Nothing
        }),
{
}

/// Typing ends the selection of the active tab and takes its view to the live screen, and changes
/// nothing else: neither the screen, its cursor and its modes, nor another tab.
pub proof fn law_typing_leaves_the_screen(s: AppView, unit: u16, ctrl: bool, shift: bool, i: int)
    requires
        s.wf(),
        0 <= i < s.tabs.len(),
        s.char_typed(unit, ctrl, shift).effect is Write,
    ensures
        ({
            let r = s.char_typed(unit, ctrl, shift).state;
            &&& r == (AppView { tabs: r.tabs, ..s })
            &&& r.tabs.len() == s.tabs.len()
            &&& i != s.active ==> r.tabs[i] == s.tabs[i]
            &&& i == s.active ==> r.tabs[i] == (TabView {
                term: TermView {
                    grid: GridView { selection: None, view_offset: 0, ..s.tabs[i].term.grid },
                    ..s.tabs[i].term
                },
                ..s.tabs[i]
            })
        }),
{
}

/// A key that is no shortcut sends the shell what it stands for, in the mode that the program of
/// the active tab asked for. A key that stands for nothing sends nothing and, but for closing the
/// dropdown, changes nothing.
pub proof fn law_keys_reach_the_shell(s: AppView, vk: u16, mods: Modifiers)
    requires
        s.wf(),
        !(mods.ctrl && (mods.shift || vk == VK_T || vk == VK_W || vk == VK_TAB)),
        vk != VK_ESCAPE,
    ensures
        ({
            let o = s.key_pressed(vk, mods);
            match input::key_sequence(vk, s.grid().app_cursor, mods.code()) {
                Some(bytes) => o.effect == EffectView::Write(bytes),
                None => o.effect is Nothing && o.state == s.close_menu(),
            }
        }),
{
}

/// Pasting sends the text, in UTF-8 with each line end as a bare CR, to the shell of the active
/// tab, in brackets where its program asked for them, and returns to the live screen.
pub proof fn law_paste_sends_the_text(s: AppView, t: Seq<char>)
    requires
        s.wf(),
    ensures
        s.pasted(t).effect == EffectView::Write(
            state::paste_bytes(t, s.grid().bracketed_paste),
        ),
        window_laws::on_live_screen(s, s.pasted(t).state),
        vstd::utf8::valid_utf8(state::paste_bytes(t, false)),
        vstd::utf8::decode_utf8(state::paste_bytes(t, false)) == text::carriage_returns(t),
{
    vstd::utf8::encode_utf8_valid_utf8(text::carriage_returns(t));
    vstd::utf8::encode_utf8_decode_utf8(text::carriage_returns(t));
}

/// A new tab runs the configured shell where PowerShell is there to run.
pub proof fn law_new_tab_runs_the_shell(s: AppView)
    ensures
        s.ps_available ==> s.new_tab_command() == s.cfg.shell,
        !s.ps_available && text::occurs(text::lowercase(s.cfg.shell), "powershell"@)
            ==> s.new_tab_command() == "cmd.exe"@,
        !text::occurs(text::lowercase(s.cfg.shell), "powershell"@) ==> s.new_tab_command()
            == s.cfg.shell,
{
}

/// The "+" opens what a new tab runs where there is nothing to choose, and else the dropdown, with
/// none of its items highlighted yet.
pub proof fn law_plus_click(s: AppView)
    ensures
        ({
            let o = s.plus_clicked();
            &&& s.shells.len() <= 1 ==> o.state == s && o.effect == EffectView::Open(
                s.new_tab_command(),
            )
            &&& s.shells.len() > 1 ==> o.redraw && o.effect is Nothing && o.state == (AppView {
                menu_open: true,
                menu_hover: None,
                ..s
            })
        }),
{
}

} // verus!

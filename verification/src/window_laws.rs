//! What holds of the window whatever happens in it: which keys reach the shell and which do not, how
//! tabs open, close and follow one another, and when the dropdown and the selection go.

use vstd::prelude::*;

use crate::chrome;
use crate::input;
use crate::input::{Modifiers, VK_BACK, VK_C, VK_ESCAPE, VK_T, VK_TAB, VK_V, VK_W};
use crate::screen;
use crate::state;
use crate::state::{AppView, EffectView, TabView};
use crate::text;

verus! {

// ---- keys ----

/// The key is one of the window's own shortcuts.
pub open spec fn is_shortcut(vk: u16, mods: Modifiers) -> bool {
    mods.ctrl && (mods.shift || vk == VK_T || vk == VK_W || vk == VK_TAB)
}

/// A shortcut acts on the window and sends nothing to the shell. The character that follows its
/// key, under the same modifiers, is dropped: it changes nothing and sends nothing.
pub proof fn law_shortcuts_stay_here(s: AppView, vk: u16, mods: Modifiers, unit: u16)
    requires
        is_shortcut(vk, mods),
        mods.shift || (vk == VK_T && unit == 0x14) || (vk == VK_W && unit == 0x17) || (vk == VK_TAB
            && unit == 0x09),
    ensures
        !(s.key_pressed(vk, mods).effect is Write),
        s.char_typed(unit, mods.ctrl, mods.shift).state == s,
        s.char_typed(unit, mods.ctrl, mods.shift).effect is Nothing,
{
}

/// What each shortcut does: new and close tab, next and previous tab, copy and paste.
pub proof fn law_shortcuts(s: AppView)
    requires
        s.wf(),
        !s.menu_open,
        s.menu_hover is None,
    ensures
        ({
            let ctrl = Modifiers { shift: false, alt: false, ctrl: true };
            let both = Modifiers { shift: true, alt: false, ctrl: true };
            &&& s.key_pressed(VK_T, ctrl).effect == EffectView::Open(s.new_tab_command())
            &&& s.key_pressed(VK_W, ctrl) == s.close_tab(s.active)
            &&& s.key_pressed(VK_TAB, ctrl).state == s.switched(1)
            &&& s.key_pressed(VK_TAB, both).state == s.switched(-1)
            &&& s.grid().selection_text().len() > 0 ==> s.key_pressed(VK_C, both).effect
                == EffectView::Copy(s.grid().selection_text())
            &&& s.key_pressed(VK_V, both).effect is Paste
        }),
{
    assert(s.close_menu() == s);
}

/// Ctrl+C reaches the shell as the byte that interrupts a program, and so does every control code
/// that belongs to no shortcut.
pub proof fn law_control_codes_pass(s: AppView, unit: u16)
    requires
        unit < 0x20,
        unit != 0x14 && unit != 0x17 && unit != 0x09,
    ensures
        s.char_typed(unit, true, false).effect == EffectView::Write(seq![unit as u8]),
        s.char_typed(0x03, true, false).effect == EffectView::Write(seq![0x03u8]),
        !(s.key_pressed(VK_C, Modifiers { shift: false, alt: false, ctrl: true }).effect is Copy),
{
    input::law_ascii_typed_as_is(unit);
    input::law_ascii_typed_as_is(0x03);
}

/// Backspace is sent once: its key sends it, and the character that follows, 0x08 or with Ctrl
/// 0x7f, does not.
pub proof fn law_backspace_sent_once(s: AppView, mods: Modifiers)
    requires
        !(mods.ctrl && mods.shift),
    ensures
        s.key_pressed(VK_BACK, mods).effect == EffectView::Write(
            seq![
                if mods.ctrl {
                    0x08u8
                } else {
                    0x7f
                },
            ],
        ),
        s.char_typed(
            if mods.ctrl {
                0x7f
            } else {
                0x08
            },
            mods.ctrl,
            mods.shift,
        ).effect is Nothing,
{
}

/// Whatever is sent to the shell by typing, the selection is gone after it, the view is on the live
/// screen, and the screen itself is as it was: only the shell's output changes it.
pub proof fn law_typing_returns_to_live_screen(s: AppView, vk: u16, mods: Modifiers, unit: u16)
    requires
        s.wf(),
    ensures
        s.char_typed(unit, mods.ctrl, mods.shift).effect is Write ==> on_live_screen(
            s,
            s.char_typed(unit, mods.ctrl, mods.shift).state,
        ),
        s.key_pressed(vk, mods).effect is Write ==> on_live_screen(
            s,
            s.key_pressed(vk, mods).state,
        ),
{
}

/// `t` is `s` after input to its active tab.
pub open spec fn on_live_screen(s: AppView, t: AppView) -> bool {
    &&& t.active == s.active
    &&& t.grid().selection is None
    &&& t.grid().view_offset == 0
    &&& t.grid().lines() == s.grid().lines()
    &&& t.grid().scrollback == s.grid().scrollback
    &&& t.tabs.len() == s.tabs.len()
    &&& forall|i: int| 0 <= i < s.tabs.len() && i != s.active ==> t.tabs[i] == s.tabs[i]
}

// ---- tabs ----

/// Next tab and previous tab undo each other.
pub proof fn law_next_previous_tab(s: AppView)
    requires
        0 <= s.active < s.tabs.len(),
    ensures
        s.switched(1).switched(-1) == s,
        s.switched(-1).switched(1) == s,
        0 <= s.switched(1).active < s.tabs.len(),
        0 <= s.switched(-1).active < s.tabs.len(),
{
    let (a, n) = (s.active, s.tabs.len() as int);
    assert((a + 1) % n == if a + 1 < n { a + 1 } else { 0 }) by (nonlinear_arith)
        requires
            0 <= a < n,
    ;
    assert((a - 1) % n == if a > 0 { a - 1 } else { n - 1 }) by (nonlinear_arith)
        requires
            0 <= a < n,
    ;
    assert(0int % n == 0 && (n - 1) % n == n - 1 && a % n == a && (0 - 1) % n == n - 1 && n % n
        == 0) by (nonlinear_arith)
        requires
            0 <= a < n,
    ;
}

/// As many switches as there are tabs lead back to the first of them.
pub proof fn law_tabs_cycle(s: AppView, k: int)
    requires
        0 <= s.active < s.tabs.len(),
        0 <= k,
    ensures
        switched_times(s, k).active == (s.active + k) % s.tabs.len() as int,
        switched_times(s, s.tabs.len() as int).active == s.active,
{
    let n = s.tabs.len() as int;
    lemma_switched_times(s, k);
    lemma_switched_times(s, n);
    assert((s.active + n) % n == s.active) by (nonlinear_arith)
        requires
            0 <= s.active < n,
    ;
}

/// `k` times to the next tab.
pub open spec fn switched_times(s: AppView, k: int) -> AppView
    decreases k,
{
    if k <= 0 {
        s
    } else {
        switched_times(s, k - 1).switched(1)
    }
}

proof fn lemma_switched_times(s: AppView, k: int)
    requires
        0 <= s.active < s.tabs.len(),
        0 <= k,
    ensures
        switched_times(s, k).active == (s.active + k) % s.tabs.len() as int,
        switched_times(s, k).tabs == s.tabs,
    decreases k,
{
    let n = s.tabs.len() as int;
    if k == 0 {
        assert(s.active % n == s.active) by (nonlinear_arith)
            requires
                0 <= s.active < n,
        ;
    } else {
        lemma_switched_times(s, k - 1);
        vstd::arithmetic::div_mod::lemma_add_mod_noop(s.active + k - 1, 1, n);
        vstd::arithmetic::div_mod::lemma_add_mod_noop((s.active + k - 1) % n, 1, n);
        vstd::arithmetic::div_mod::lemma_mod_twice(s.active + k - 1, n);
    }
}

/// A new tab is the active one, and closing it leaves the tabs as they were.
pub proof fn law_open_close_tab(s: AppView, t: TabView)
    requires
        s.wf(),
    ensures
        s.pushed(t).cur() == t,
        s.pushed(t).close_tab(s.pushed(t).active).state.tabs == s.tabs,
        s.pushed(t).close_tab(s.pushed(t).active).effect == EffectView::Closed(
            s.tabs.len() as int,
        ),
{
    assert(s.tabs.push(t).remove(s.tabs.len() as int) =~= s.tabs);
}

/// Closing a tab takes that one away and no other, in order. The window closes with its last tab
/// and not before; until then the active tab is one of those left, and the same one if the closed
/// tab came after it.
pub proof fn law_close_tab(s: AppView, i: int)
    requires
        s.wf(),
        0 <= i < s.tabs.len(),
    ensures
        ({
            let o = s.close_tab(i);
            &&& o.state.tabs.len() == s.tabs.len() - 1
            &&& forall|k: int| 0 <= k < i ==> o.state.tabs[k] == s.tabs[k]
            &&& forall|k: int| i <= k < o.state.tabs.len() ==> o.state.tabs[k] == s.tabs[k + 1]
            &&& o.effect is Quit <==> s.tabs.len() == 1
            &&& o.effect is Quit || o.state.wf()
            &&& i > s.active ==> o.state.cur() == s.cur()
        }),
{
}

/// A shell that exits closes its own tab, and a shell of no tab closes none.
pub proof fn law_exit_closes_own_tab(s: AppView, id: u64)
    requires
        s.wf(),
    ensures
        match s.tab_of(id) {
            Some(i) => 0 <= i < s.tabs.len() && s.tabs[i].id == id && s.exited(id) == s.close_tab(
                i,
            ),
            None => s.exited(id).state == s && forall|i: int|
                0 <= i < s.tabs.len() ==> (#[trigger] s.tabs[i]).id != id,
        },
{
    let ids = s.tabs.map_values(|t: TabView| t.id);
    ids.index_of_first_ensures(id);
    assert forall|i: int| 0 <= i < s.tabs.len() && s.tab_of(id) is None implies (
    #[trigger] s.tabs[i]).id != id by {
        assert(ids[i] == s.tabs[i].id);
    }
}

/// Output of one shell changes its own tab and nothing else.
pub proof fn law_output_stays_in_tab(s: AppView, i: int, bytes: Seq<u8>)
    requires
        0 <= i < s.tabs.len(),
    ensures
        s.fed(i, bytes) == (AppView { tabs: s.fed(i, bytes).tabs, ..s }),
        s.fed(i, bytes).tabs.len() == s.tabs.len(),
        forall|k: int| 0 <= k < s.tabs.len() && k != i ==> s.fed(i, bytes).tabs[k] == s.tabs[k],
        s.fed(i, bytes).tabs[i].id == s.tabs[i].id,
        s.fed(i, bytes).tabs[i].label == s.tabs[i].label,
{
}

/// After the window has a new size, every tab has the same one.
pub proof fn law_all_tabs_resized(s: AppView, cols: int, rows: int, i: int)
    requires
        0 <= i < s.tabs.len(),
    ensures
        s.resized(cols, rows).tabs.len() == s.tabs.len(),
        s.resized(cols, rows).tabs[i].term.grid.cols == screen::max(cols, 1),
        s.resized(cols, rows).tabs[i].term.grid.rows == screen::max(rows, 1),
{
}

/// Session ids do not repeat until all of them have been handed out.
pub proof fn law_ids_distinct(next: int, i: int, j: int)
    requires
        0 <= next,
        0 <= i < j < 0x1_0000_0000_0000_0000,
    ensures
        (next + i) % 0x1_0000_0000_0000_0000 != (next + j) % 0x1_0000_0000_0000_0000,
{
}

// ---- dropdown ----

/// Any key closes the dropdown, and Escape then does nothing else.
pub proof fn law_any_key_closes_menu(s: AppView, vk: u16, mods: Modifiers)
    ensures
        !s.key_pressed(vk, mods).state.menu_open,
        s.menu_open ==> s.key_pressed(VK_ESCAPE, mods).state == s.close_menu(),
        s.menu_open ==> s.key_pressed(VK_ESCAPE, mods).effect is Nothing,
{
}

/// A new size and the loss of focus close the dropdown.
pub proof fn law_menu_does_not_linger(s: AppView, cols: int, rows: int)
    ensures
        !s.resized(cols, rows).menu_open,
        !s.nc_activate(false).menu_open,
        s.nc_activate(false).menu_hover is None,
{
}

/// An open dropdown takes the click: nothing under it changes, the dropdown closes, and a shell is
/// opened exactly where the click is on its item.
pub proof fn law_menu_takes_click(s: AppView, width: int, x: int, y: int)
    requires
        s.wf(),
        s.menu_open,
    ensures
        s.left_pressed(width, x, y).state == s.close_menu(),
        match chrome::menu_at(s.tabs.len() as int, s.shells.len() as int, width, x, y) {
            Some(i) => i < s.shells.len() && s.left_pressed(width, x, y).effect
                == EffectView::Open(s.shells[i as int].cmd),
            None => s.left_pressed(width, x, y).effect is Nothing,
        },
{
    if let Some(i) = chrome::menu_at(s.tabs.len() as int, s.shells.len() as int, width, x, y) {
        chrome::law_menu_picks_item(
            s.tabs.len() as int,
            s.shells.len() as int,
            width,
            i as int,
            x,
            y,
        );
    }
}

/// The "+" offers a choice only where there is one: with a single shell it opens a tab, with more
/// it opens the dropdown and no tab.
pub proof fn law_plus_offers_choice(s: AppView)
    ensures
        s.shells.len() <= 1 ==> s.plus_clicked().state == s && s.plus_clicked().effect is Open,
        s.shells.len() > 1 ==> s.plus_clicked().state.menu_open && s.plus_clicked().effect is Nothing,
{
}

// ---- mouse ----

/// Every point of the window stands for a cell of the active screen as it is shown.
pub proof fn law_mouse_cell_on_screen(s: AppView, x: int, y: int)
    requires
        s.wf(),
    ensures
        ({
            let at = state::mouse_cell(s.grid(), s.fonts, x, y);
            &&& s.grid().display_vline(0) <= at.0 < s.grid().display_vline(s.grid().rows)
            &&& 0 <= at.0 < s.grid().vlines().len()
            &&& 0 <= at.1 < s.grid().cols
        }),
{
    assert(s.tabs[s.active].term.grid.wf());
}

/// Press, drag and release select from the cell under the press to the cell under the drag.
pub proof fn law_drag_selects(s: AppView, width: int, x0: int, y0: int, x1: int, y1: int)
    requires
        s.wf(),
        s.grid().vlines().len() <= usize::MAX,
        s.grid().cols <= usize::MAX,
        !s.menu_open,
        chrome::hit_at(s.tabs.len() as int, width, x0, y0) is Terminal,
    ensures
        ({
            let pressed = s.left_pressed(width, x0, y0);
            let dragged = pressed.state.mouse_moved(width, x1, y1, true).state;
            let from = state::mouse_cell(s.grid(), s.fonts, x0, y0);
            let to = state::mouse_cell(s.grid(), s.fonts, x1, y1);
            &&& pressed.effect is Capture
            &&& dragged.grid().selection matches Some(sel)
            &&& sel.a.0 == from.0
            &&& sel.a.1 == from.1
            &&& sel.b.0 == to.0
            &&& sel.b.1 == to.1
        }),
{
    law_mouse_cell_on_screen(s, x0, y0);
    law_mouse_cell_on_screen(s, x1, y1);
    let pressed = s.left_pressed(width, x0, y0).state;
    assert(pressed.grid() == s.grid().sel_begin(
        state::mouse_cell(s.grid(), s.fonts, x0, y0).0 as usize,
        state::mouse_cell(s.grid(), s.fonts, x0, y0).1 as usize,
    ));
}

/// A press outside the terminal area leaves every selection alone.
pub proof fn law_chrome_click_keeps_selection(s: AppView, width: int, x: int, y: int, i: int)
    requires
        s.wf(),
        y < chrome::CHROME_H,
        0 <= i < s.left_pressed(width, x, y).state.tabs.len(),
    ensures
        exists|k: int|
            0 <= k < s.tabs.len() && #[trigger] s.tabs[k] == s.left_pressed(width, x, y).state.tabs[i],
{
    let t = s.left_pressed(width, x, y).state;
    if t.tabs == s.tabs {
        assert(s.tabs[i] == t.tabs[i]);
    } else {
        match chrome::hit_at(s.tabs.len() as int, width, x, y) {
            chrome::Hit::Close(c) => {
                chrome::law_hit_names_what_is_there(s.tabs.len() as int, width, x, y);
                let k = if i < c {
                    i
                } else {
                    i + 1
                };
                assert(s.tabs[k] == t.tabs[i]);
            },
            _ => {},
        }
    }
}

// ---- paste ----

/// A pasted text reaches the shell without a line feed, so that no line of it is taken for two.
pub proof fn law_paste_sends_no_line_feed(text: Seq<char>, bracketed: bool)
    ensures
        !state::paste_bytes(text, bracketed).contains(0x0a),
{
    let t = text::carriage_returns(text);
    text::law_carriage_returns_leave_no_line_feed(text);
    lemma_utf8_no_line_feed(t);
    let bytes = vstd::utf8::encode_utf8(t);
    let all = state::paste_bytes(text, bracketed);
    assert forall|i: int| 0 <= i < all.len() implies all[i] != 0x0a by {
        if !bracketed {
            assert(bytes.contains(bytes[i]));
        } else if 6 <= i < 6 + bytes.len() {
            assert(all[i] == bytes[i - 6]);
            assert(bytes.contains(bytes[i - 6]));
        }
    }
}

/// A program that asked for it can tell a paste from typing: the same bytes come in brackets.
pub proof fn law_paste_brackets(text: Seq<char>)
    ensures
        ({
            let plain = state::paste_bytes(text, false);
            let marked = state::paste_bytes(text, true);
            &&& marked.len() == plain.len() + 12
            &&& marked.subrange(6, 6 + plain.len() as int) == plain
            &&& marked.subrange(0, 6) == seq![0x1bu8, 0x5b, 0x32, 0x30, 0x30, 0x7e]
            &&& marked.skip(6 + plain.len() as int) == seq![0x1bu8, 0x5b, 0x32, 0x30, 0x31, 0x7e]
        }),
{
    let plain = state::paste_bytes(text, false);
    let marked = state::paste_bytes(text, true);
    assert(marked.subrange(6, 6 + plain.len() as int) =~= plain);
    assert(marked.subrange(0, 6) =~= seq![0x1bu8, 0x5b, 0x32, 0x30, 0x30, 0x7e]);
    assert(marked.skip(6 + plain.len() as int) =~= seq![0x1bu8, 0x5b, 0x32, 0x30, 0x31, 0x7e]);
}

proof fn lemma_scalar_no_line_feed(u: u32)
    requires
        u != 0x0a,
        vstd::utf8::is_scalar(u),
    ensures
        !vstd::utf8::encode_scalar(u).contains(0x0a),
{
    assert(u < 0x80 ==> (u & 0x7f) as u8 == u) by (bit_vector);
    assert(0xc0u8 | ((u >> 6) & 0x1f) as u8 >= 0x80) by (bit_vector);
    assert(0xe0u8 | ((u >> 12) & 0x0f) as u8 >= 0x80) by (bit_vector);
    assert(0xf0u8 | ((u >> 18) & 0x07) as u8 >= 0x80) by (bit_vector);
    assert(0x80u8 | (u & 0x3f) as u8 >= 0x80) by (bit_vector);
    assert(0x80u8 | ((u >> 6) & 0x3f) as u8 >= 0x80) by (bit_vector);
    assert(0x80u8 | ((u >> 12) & 0x3f) as u8 >= 0x80) by (bit_vector);
}

proof fn lemma_utf8_no_line_feed(t: Seq<char>)
    requires
        !t.contains('\n'),
    ensures
        !vstd::utf8::encode_utf8(t).contains(0x0a),
    decreases t.len(),
{
    if t.len() > 0 {
        let rest = t.drop_first();
        assert forall|i: int| 0 <= i < rest.len() implies rest[i] != '\n' by {
            assert(t.contains(t[i + 1]));
        }
        lemma_utf8_no_line_feed(rest);
        assert(t.contains(t[0]));
        let c = t[0];
        vstd::utf8::char_is_scalar(c);
        vstd::utf8::char_u32_cast(c, c as u32);
        assert(c as u32 != 0x0a);
        lemma_scalar_no_line_feed(c as u32);
        let first = vstd::utf8::encode_scalar(c as u32);
        let all = vstd::utf8::encode_utf8(t);
        assert forall|i: int| 0 <= i < all.len() implies all[i] != 0x0a by {
            if i < first.len() {
                assert(first.contains(first[i]));
            } else {
                let others = vstd::utf8::encode_utf8(rest);
                assert(others.contains(others[i - first.len()]));
            }
        }
    }
}

} // verus!

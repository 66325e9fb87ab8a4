//! The mathematical model of the window: its tabs, what is hovered, selected and open, and what
//! each event makes of that.
//!
//! [`crate::window::App`] is the executable counterpart; each of its methods is specified by one
//! operation on [`AppView`].

use vstd::prelude::*;

use crate::chrome;
use crate::chrome::{CaptionBtn, Hit, CHROME_H, PAD_X, PAD_Y};
use crate::config::ConfigView;
use crate::input;
use crate::input::{Modifiers, VK_C, VK_ESCAPE, VK_T, VK_TAB, VK_V, VK_W};
use crate::parser::TermView;
use crate::render::{ChromeView, Fonts};
use crate::screen;
use crate::screen::GridView;
use crate::shells;
use crate::shells::ChoiceView;
use crate::text;

verus! {

/// One tab.
#[verifier::ext_equal]
pub ghost struct TabView {
    pub id: u64,
    pub term: TermView,
    pub label: Seq<char>,
}

impl TabView {
    pub open spec fn with_grid(self, grid: GridView) -> TabView {
        TabView { term: TermView { grid, ..self.term }, ..self }
    }

    /// The name shown: the title the program set, unless that is empty or the path of a program.
    pub open spec fn name(self) -> Seq<char> {
        if self.term.title.len() == 0 || text::has_suffix(self.term.title, ".exe"@) {
            self.label
        } else {
            self.term.title
        }
    }

    /// Take in output of the shell. The replies that are due are taken out.
    pub open spec fn fed(self, bytes: Seq<u8>) -> TabView {
        TabView {
            term: TermView { responses: seq![], ..self.term.feed(bytes) },
            ..self
        }
    }
}

/// What is left to do once the window's state has changed.
pub ghost enum EffectView {
    Nothing,
    /// Write to the shell of the active tab.
    Write(Seq<u8>),
    /// Put text on the clipboard.
    Copy(Seq<char>),
    /// Paste what is on the clipboard.
    Paste,
    /// Open a tab running a shell.
    Open(Seq<char>),
    /// Drop the shell of the tab that was at this index.
    Closed(int),
    /// The last tab was closed: close the window.
    Quit,
    /// Follow the mouse until the button is released.
    Capture,
}

/// What an event makes of the state, whether the window has to be drawn again, and what is left to
/// do.
pub ghost struct OutcomeView {
    pub state: AppView,
    pub redraw: bool,
    pub effect: EffectView,
}

/// What a [`crate::window::App`] holds.
#[verifier::ext_equal]
pub ghost struct AppView {
    pub fonts: Fonts,
    pub tabs: Seq<TabView>,
    pub active: int,
    pub accent: u32,
    pub selecting: bool,
    pub hover: Option<CaptionBtn>,
    pub hover_close: Option<usize>,
    pub focused: bool,
    pub ps_available: bool,
    pub shells: Seq<ChoiceView>,
    pub menu_open: bool,
    pub menu_hover: Option<usize>,
    pub cfg: ConfigView,
}

/// The character is one that a key message has taken care of: a shortcut's, or the one that
/// follows Backspace (0x08, or 0x7f with Ctrl). With Ctrl, 0x08 is Ctrl+H.
pub open spec fn swallowed(unit: u16, ctrl: bool, shift: bool) -> bool {
    ||| ctrl && shift
    ||| ctrl && (unit == 0x14 || unit == 0x17 || unit == 0x09)
    ||| unit == 0x08 && !ctrl
    ||| unit == 0x7f
}

/// Lines that a turn of the wheel scrolls: three for each whole notch of 120, toward the history
/// for positive turns.
pub open spec fn wheel_lines(delta: int) -> int {
    if delta >= 0 {
        delta / 120 * 3
    } else {
        -((-delta) / 120 * 3)
    }
}

/// Index of the cell that a pixel `offset` from the first one lies in, kept within `n` cells.
pub open spec fn cell_index(offset: int, size: int, n: int) -> int {
    screen::clamp(screen::max(offset, 0) / size, 0, n - 1)
}

/// The virtual line and column at a client point.
pub open spec fn mouse_cell(g: GridView, f: Fonts, x: int, y: int) -> (int, int) {
    (
        g.display_vline(cell_index(y - CHROME_H - PAD_Y, f.ch as int, g.rows)),
        cell_index(x - PAD_X, f.cw as int, g.cols),
    )
}

/// The bytes that pasting text sends: line ends as a bare CR, between brackets where the program
/// asked for them.
pub open spec fn paste_bytes(text: Seq<char>, bracketed: bool) -> Seq<u8> {
    let bytes = vstd::utf8::encode_utf8(text::carriage_returns(text));
    if bracketed {
        seq![0x1bu8, 0x5b, 0x32, 0x30, 0x30, 0x7e] + bytes + seq![
            0x1bu8,
            0x5b,
            0x32,
            0x30,
            0x31,
            0x7e,
        ]
    } else {
        bytes
    }
}

impl AppView {
    /// What holds of every window: it has a tab, the active one is among its tabs, and there is a
    /// shell to offer.
    pub open spec fn wf(self) -> bool {
        &&& self.fonts.wf()
        &&& 0 < self.tabs.len() <= chrome::MAX_TABS
        &&& 0 <= self.active < self.tabs.len()
        &&& 0 < self.shells.len() <= chrome::MAX_MENU
        &&& forall|i: int| 0 <= i < self.tabs.len() ==> (#[trigger] self.tabs[i]).term.grid.wf()
    }

    /// The active tab.
    pub open spec fn cur(self) -> TabView {
        self.tabs[self.active]
    }

    /// The screen of the active tab.
    pub open spec fn grid(self) -> GridView {
        self.cur().term.grid
    }

    /// The window with another screen in its active tab.
    pub open spec fn with_grid(self, g: GridView) -> AppView {
        AppView { tabs: self.tabs.update(self.active, self.cur().with_grid(g)), ..self }
    }

    pub open spec fn labels(self) -> Seq<Seq<char>> {
        self.tabs.map_values(|t: TabView| t.name())
    }

    pub open spec fn shell_labels(self) -> Seq<Seq<char>> {
        self.shells.map_values(|c: ChoiceView| c.label)
    }

    /// What the chrome shows.
    pub open spec fn chrome(self, is_max: bool) -> ChromeView {
        ChromeView {
            labels: self.labels(),
            active: self.active,
            accent: self.accent,
            is_max,
            hover: self.hover,
            hover_close: self.hover_close,
            focused: self.focused,
            menu: if self.menu_open {
                Some(self.shell_labels())
            } else {
                None
            },
            menu_hover: self.menu_hover,
        }
    }

    pub open spec fn close_menu(self) -> AppView {
        AppView { menu_open: false, menu_hover: None, ..self }
    }

    /// Focus comes or goes. A dropdown does not outlive the focus.
    pub open spec fn nc_activate(self, active: bool) -> AppView {
        let s = AppView { focused: active, ..self };
        if active {
            s
        } else {
            s.close_menu()
        }
    }

    /// The window has a new size.
    pub open spec fn resized(self, cols: int, rows: int) -> AppView {
        AppView {
            tabs: self.tabs.map_values(
                |t: TabView| t.with_grid(t.term.grid.resize(screen::max(cols, 1), screen::max(rows, 1))),
            ),
            ..self.close_menu()
        }
    }

    /// Output of the shell in tab `i`.
    pub open spec fn fed(self, i: int, bytes: Seq<u8>) -> AppView {
        AppView { tabs: self.tabs.update(i, self.tabs[i].fed(bytes)), ..self }
    }

    /// What typing does to the active tab: the selection goes, and the view is back on the live
    /// screen.
    pub open spec fn typed(self) -> AppView {
        self.with_grid(self.grid().sel_clear().snap_to_bottom())
    }

    /// Move the active tab by `dir`, wrapping.
    pub open spec fn switched(self, dir: int) -> AppView {
        AppView { active: (self.active + dir) % self.tabs.len() as int, ..self }
    }

    /// Without tab `i`. The active index stays unless it would be out of range.
    pub open spec fn without_tab(self, i: int) -> AppView {
        AppView {
            tabs: self.tabs.remove(i),
            active: screen::min(self.active, screen::max(self.tabs.len() - 2, 0)),
            ..self
        }
    }

    /// With a further tab, which is the active one.
    pub open spec fn pushed(self, t: TabView) -> AppView {
        AppView { tabs: self.tabs.push(t), active: self.tabs.len() as int, ..self }
    }

    /// Close tab `i`.
    pub open spec fn close_tab(self, i: int) -> OutcomeView {
        if self.tabs.len() == 1 {
            OutcomeView { state: self.without_tab(i), redraw: false, effect: EffectView::Quit }
        } else {
            OutcomeView { state: self.without_tab(i), redraw: true, effect: EffectView::Closed(i) }
        }
    }

    /// The tab whose session is `id`, if there is one: the first of them.
    pub open spec fn tab_of(self, id: u64) -> Option<int> {
        self.tabs.map_values(|t: TabView| t.id).index_of_first(id)
    }

    /// The shell of session `id` has exited: its tab closes.
    pub open spec fn exited(self, id: u64) -> OutcomeView {
        match self.tab_of(id) {
            Some(i) => self.close_tab(i),
            None => OutcomeView { state: self, redraw: true, effect: EffectView::Nothing },
        }
    }

    /// The shell that a new tab runs.
    pub open spec fn new_tab_command(self) -> Seq<char> {
        shells::new_tab_command(
            self.cfg.shell,
            text::lowercase(self.cfg.shell),
            self.ps_available,
        )
    }

    /// A character is typed.
    pub open spec fn char_typed(self, unit: u16, ctrl: bool, shift: bool) -> OutcomeView {
        if swallowed(unit, ctrl, shift) {
            OutcomeView { state: self, redraw: false, effect: EffectView::Nothing }
        } else {
            OutcomeView {
                state: self.typed(),
                redraw: true,
                effect: EffectView::Write(input::unit_bytes(unit)),
            }
        }
    }

    /// A Ctrl+Shift shortcut.
    pub open spec fn ctrl_shift_key(self, vk: u16) -> OutcomeView {
        if vk == VK_C && self.grid().selection_text().len() > 0 {
            OutcomeView {
                state: self,
                redraw: false,
                effect: EffectView::Copy(self.grid().selection_text()),
            }
        } else if vk == VK_V {
            OutcomeView { state: self, redraw: false, effect: EffectView::Paste }
        } else if vk == VK_TAB {
            OutcomeView { state: self.switched(-1), redraw: true, effect: EffectView::Nothing }
        } else {
            OutcomeView { state: self, redraw: false, effect: EffectView::Nothing }
        }
    }

    /// A key that is no Ctrl+Shift shortcut: a Ctrl shortcut, or one for the shell.
    pub open spec fn plain_key(self, vk: u16, mods: Modifiers) -> OutcomeView {
        if mods.ctrl && vk == VK_T {
            OutcomeView {
                state: self,
                redraw: false,
                effect: EffectView::Open(self.new_tab_command()),
            }
        } else if mods.ctrl && vk == VK_W {
            self.close_tab(self.active)
        } else if mods.ctrl && vk == VK_TAB {
            OutcomeView { state: self.switched(1), redraw: true, effect: EffectView::Nothing }
        } else {
            match input::key_sequence(vk, self.grid().app_cursor, mods.code()) {
                Some(bytes) => OutcomeView {
                    state: self.typed(),
                    redraw: true,
                    effect: EffectView::Write(bytes),
                },
                None => OutcomeView { state: self, redraw: true, effect: EffectView::Nothing },
            }
        }
    }

    /// A key is pressed. Any key closes the dropdown, and Escape then does nothing else.
    pub open spec fn key_pressed(self, vk: u16, mods: Modifiers) -> OutcomeView {
        let s = self.close_menu();
        let o = if self.menu_open && vk == VK_ESCAPE {
            OutcomeView { state: s, redraw: true, effect: EffectView::Nothing }
        } else if mods.ctrl && mods.shift {
            s.ctrl_shift_key(vk)
        } else {
            s.plain_key(vk, mods)
        };
        OutcomeView { redraw: o.redraw || self.menu_open, ..o }
    }

    /// Text is pasted.
    pub open spec fn pasted(self, text: Seq<char>) -> OutcomeView {
        OutcomeView {
            state: self.typed(),
            redraw: true,
            effect: EffectView::Write(paste_bytes(text, self.grid().bracketed_paste)),
        }
    }

    /// The left button goes down with the dropdown open: that picks an item or dismisses the
    /// dropdown, and does nothing else.
    pub open spec fn menu_clicked(self, width: int, x: int, y: int) -> OutcomeView {
        match chrome::menu_at(self.tabs.len() as int, self.shells.len() as int, width, x, y) {
            Some(i) => OutcomeView {
                state: self.close_menu(),
                redraw: false,
                effect: EffectView::Open(self.shells[i as int].cmd),
            },
            None => OutcomeView {
                state: self.close_menu(),
                redraw: true,
                effect: EffectView::Nothing,
            },
        }
    }

    /// The "+" is clicked: with one shell there is nothing to choose.
    pub open spec fn plus_clicked(self) -> OutcomeView {
        if self.shells.len() <= 1 {
            OutcomeView {
                state: self,
                redraw: false,
                effect: EffectView::Open(self.new_tab_command()),
            }
        } else {
            OutcomeView {
                state: AppView { menu_open: true, menu_hover: None, ..self },
                redraw: true,
                effect: EffectView::Nothing,
            }
        }
    }

    /// A selection begins in the terminal.
    pub open spec fn selection_begun(self, x: int, y: int) -> OutcomeView {
        let at = mouse_cell(self.grid(), self.fonts, x, y);
        OutcomeView {
            state: AppView {
                selecting: true,
                ..self.with_grid(self.grid().sel_begin(at.0 as usize, at.1 as usize))
            },
            redraw: true,
            effect: EffectView::Capture,
        }
    }

    /// The left button goes down at a client point.
    pub open spec fn left_pressed(self, width: int, x: int, y: int) -> OutcomeView {
        if self.menu_open {
            self.menu_clicked(width, x, y)
        } else {
            match chrome::hit_at(self.tabs.len() as int, width, x, y) {
                Hit::Tab(i) => OutcomeView {
                    state: AppView { active: i as int, ..self },
                    redraw: true,
                    effect: EffectView::Nothing,
                },
                Hit::Close(i) => self.close_tab(i as int),
                Hit::NewTab => self.plus_clicked(),
                Hit::Terminal => self.selection_begun(x, y),
                _ => OutcomeView { state: self, redraw: false, effect: EffectView::Nothing },
            }
        }
    }

    /// The tab whose close box is at the point, if any.
    pub open spec fn close_at(self, width: int, x: int, y: int) -> Option<usize> {
        match chrome::hit_at(self.tabs.len() as int, width, x, y) {
            Hit::Close(i) => Some(i),
            _ => None,
        }
    }

    /// The item of the open dropdown at the point, if any.
    pub open spec fn item_at(self, width: int, x: int, y: int) -> Option<usize> {
        if self.menu_open {
            chrome::menu_at(self.tabs.len() as int, self.shells.len() as int, width, x, y)
        } else {
            None
        }
    }

    /// What is under the mouse is highlighted.
    pub open spec fn highlighted(self, width: int, x: int, y: int) -> AppView {
        AppView {
            hover_close: self.close_at(width, x, y),
            menu_hover: self.item_at(width, x, y),
            ..self
        }
    }

    /// The selection, if there is one, now ends at a client point.
    pub open spec fn selection_extended(self, x: int, y: int) -> AppView {
        let at = mouse_cell(self.grid(), self.fonts, x, y);
        self.with_grid(self.grid().sel_update(at.0 as usize, at.1 as usize))
    }

    /// The mouse moves: highlights follow it, and a selection being made does while the button is
    /// down.
    pub open spec fn mouse_moved(self, width: int, x: int, y: int, dragging: bool) -> OutcomeView {
        let s = self.highlighted(width, x, y);
        let selects = self.selecting && dragging;
        OutcomeView {
            state: if selects {
                s.selection_extended(x, y)
            } else {
                s
            },
            redraw: selects || s.hover_close != self.hover_close || s.menu_hover != self.menu_hover,
            effect: EffectView::Nothing,
        }
    }

    /// The mouse leaves the window.
    pub open spec fn mouse_left(self) -> OutcomeView {
        OutcomeView {
            state: AppView { hover_close: None, ..self },
            redraw: self.hover_close is Some,
            effect: EffectView::Nothing,
        }
    }

    /// The wheel turns.
    pub open spec fn wheel_turned(self, delta: int) -> AppView {
        self.with_grid(self.grid().scroll_view(wheel_lines(delta)))
    }
}

} // verus!

//! The window's state and what each event makes of it. What is left to do outside, such as writing
//! to a shell or putting text on the clipboard, is handed back to the caller.

use vstd::prelude::*;

use crate::chrome;
use crate::chrome::{CaptionBtn, Hit, NcHit, CHROME_H, PAD_X, PAD_Y};
use crate::config::{Config, SCROLLBACK_MAX};
use crate::input;
use crate::input::{Modifiers, VK_C, VK_ESCAPE, VK_T, VK_TAB, VK_V, VK_W};
use crate::parser::{Term, TermView};
use crate::render::{Chrome, Fonts};
use crate::screen;
use crate::screen::GridView;
use crate::shells;
use crate::shells::ShellChoice;
use crate::state;
use crate::state::{AppView, EffectView, OutcomeView, TabView};
use crate::term_laws;
use crate::text;

verus! {

/// Hands out session ids.
pub struct IdSource {
    pub next: u64,
}

impl IdSource {
    /// The first id is 1.
    pub fn new() -> (s: IdSource)
        ensures
            s.next == 1,
    {
        IdSource { next: 1 }
    }

    /// The next id; they start over after the largest.
    pub fn next_id(&mut self) -> (id: u64)
        ensures
            id == old(self).next,
            final(self).next == (old(self).next + 1) % 0x1_0000_0000_0000_0000,
    {
        let id: u64 = self.next;
        self.next = self.next.wrapping_add(1);
        id
    }
}

/// A terminal in a tab, and the name of its shell.
pub struct Session {
    pub id: u64,
    pub term: Term,
    /// Default label (from the shell) when the program sets no usable title.
    pub label: String,
}

impl View for Session {
    type V = TabView;

    open spec fn view(&self) -> TabView {
        TabView { id: self.id, term: self.term@, label: self.label@ }
    }
}

/// The tabs of a list of sessions.
pub open spec fn tab_views(tabs: Seq<Session>) -> Seq<TabView> {
    tabs.map_values(|s: Session| s@)
}

impl Session {
    /// A screen that 16-bit counts of rows and columns describe, with a history that the
    /// configuration admits.
    pub open spec fn wf(&self) -> bool {
        &&& self.term.wf()
        &&& self.term.grid@.cols <= 0xffff
        &&& self.term.grid@.rows <= 0xffff
        &&& self.term.grid@.max_scrollback <= SCROLLBACK_MAX
    }

    /// A session of a shell in a cleared terminal.
    pub fn new(id: u64, shell: &str, cols: u16, rows: u16, scrollback: usize) -> (s: Session)
        requires
            screen::screen_fits(screen::max(cols as int, 1), screen::max(rows as int, 1)),
            scrollback <= SCROLLBACK_MAX,
        ensures
            s.wf(),
            s.id == id,
            s.label@ == shells::label_for(text::lowercase(shell@)),
            vstd::utf8::is_ascii_chars(shell@) ==> s.label@ == shells::label_for(
                shells::ascii_lowered(shell@),
            ),
            crate::vt::vte_ground(s.term.parser),
            s.term@ == (TermView {
                parser: s.term.parser,
                grid: GridView::fresh(
                    screen::max(cols as int, 1),
                    screen::max(rows as int, 1),
                    scrollback as int,
                ),
                title: seq![],
                responses: seq![],
            }),
    {
        Session {
            id,
            term: Term::new(cols as usize, rows as usize, scrollback),
            label: shells::shell_label(shell),
        }
    }

    /// Take in output of the shell, and hand back the replies that are due to it.
    pub fn feed(&mut self, bytes: &[u8]) -> (replies: Vec<u8>)
        requires
            old(self).wf(),
        ensures
            final(self).wf(),
            final(self)@ == old(self)@.fed(bytes@),
            replies@ == old(self)@.term.feed(bytes@).responses,
    {
        proof {
            term_laws::law_output_keeps_size(self.term@, bytes@);
        }
        self.term.feed(bytes);
        self.term.take_responses()
    }

    /// The name shown on the tab.
    pub fn name(&self) -> (name: String)
        ensures
            name@ == self@.name(),
    {
        if self.term.title.as_str().is_empty() || text::ends_with(self.term.title.as_str(), ".exe") {
            self.label.clone()
        } else {
            self.term.title.clone()
        }
    }

    /// Give the terminal a new size.
    pub fn resize(&mut self, cols: u16, rows: u16)
        requires
            old(self).wf(),
            screen::screen_fits(screen::max(cols as int, 1), screen::max(rows as int, 1)),
        ensures
            final(self).wf(),
            final(self)@ == old(self)@.with_grid(
                old(self)@.term.grid.resize(
                    screen::max(cols as int, 1),
                    screen::max(rows as int, 1),
                ),
            ),
    {
        self.term.grid.resize(cols as usize, rows as usize);
    }

    /// What typing does: the selection goes, and the view is back on the live screen.
    fn on_input(&mut self)
        requires
            old(self).wf(),
        ensures
            final(self).wf(),
            final(self)@ == old(self)@.with_grid(
                old(self)@.term.grid.sel_clear().snap_to_bottom(),
            ),
    {
        self.term.grid.sel_clear();
        self.term.grid.snap_to_bottom();
    }
}

/// What is left to do once the window's state has changed.
pub enum Effect {
    Nothing,
    /// Write to the shell of the active tab.
    Write(Vec<u8>),
    /// Put text on the clipboard.
    Copy(String),
    /// Paste what is on the clipboard.
    Paste,
    /// Open a tab running a shell.
    Open(String),
    /// Drop the shell of the tab that was at this index.
    Closed(usize),
    /// The last tab was closed: close the window.
    Quit,
    /// Follow the mouse until the button is released.
    Capture,
}

impl View for Effect {
    type V = EffectView;

    open spec fn view(&self) -> EffectView {
        match *self {
            Effect::Nothing => EffectView::Nothing,
            Effect::Write(b) => EffectView::Write(b@),
            Effect::Copy(s) => EffectView::Copy(s@),
            Effect::Paste => EffectView::Paste,
            Effect::Open(s) => EffectView::Open(s@),
            Effect::Closed(i) => EffectView::Closed(i as int),
            Effect::Quit => EffectView::Quit,
            Effect::Capture => EffectView::Capture,
        }
    }
}

/// Whether the window has to be drawn again, and what is left to do.
pub struct Outcome {
    pub redraw: bool,
    pub effect: Effect,
}

impl Outcome {
    /// This is what `o` says, and `state` the state that it says.
    pub open spec fn is(self, state: AppView, o: OutcomeView) -> bool {
        state == o.state && self.redraw == o.redraw && self.effect@ == o.effect
    }
}

fn outcome(redraw: bool, effect: Effect) -> (o: Outcome)
    ensures
        o.redraw == redraw,
        o.effect == effect,
{
    Outcome { redraw, effect }
}

pub struct App {
    pub fonts: Fonts,
    pub tabs: Vec<Session>,
    pub active: usize,
    pub accent: u32,
    pub selecting: bool,
    pub hover: Option<CaptionBtn>,
    pub hover_close: Option<usize>,
    /// Whether the window currently has focus (drives the border color).
    pub focused: bool,
    pub ps_available: bool,
    /// Shells offered by the new-tab dropdown.
    pub shells: Vec<ShellChoice>,
    /// Whether the new-tab dropdown is showing.
    pub menu_open: bool,
    /// Index of the hovered dropdown item, if any.
    pub menu_hover: Option<usize>,
    pub cfg: Config,
}

impl View for App {
    type V = AppView;

    open spec fn view(&self) -> AppView {
        AppView {
            fonts: self.fonts,
            tabs: tab_views(self.tabs@),
            active: self.active as int,
            accent: self.accent,
            selecting: self.selecting,
            hover: self.hover,
            hover_close: self.hover_close,
            focused: self.focused,
            ps_available: self.ps_available,
            shells: shells::views(self.shells@),
            menu_open: self.menu_open,
            menu_hover: self.menu_hover,
            cfg: self.cfg@,
        }
    }
}

fn same_index(a: Option<usize>, b: Option<usize>) -> (r: bool)
    ensures
        r == (a == b),
{
    match (a, b) {
        (Some(i), Some(j)) => i == j,
        (None, None) => true,
        _ => false,
    }
}

impl App {
    /// All of [`AppView::wf`], and every session is sound.
    pub open spec fn wf(&self) -> bool {
        self@.wf() && self.sessions_wf()
    }

    pub open spec fn sessions_wf(&self) -> bool {
        forall|i: int| 0 <= i < self.tabs@.len() ==> (#[trigger] self.tabs@[i]).wf()
    }

    /// A window with the given tabs, the first of them active.
    pub fn new(
        cfg: Config,
        fonts: Fonts,
        tabs: Vec<Session>,
        ps_available: bool,
        shells: Vec<ShellChoice>,
    ) -> (app: App)
        requires
            fonts.wf(),
            0 < tabs@.len() <= chrome::MAX_TABS,
            forall|i: int| 0 <= i < tabs@.len() ==> (#[trigger] tabs@[i]).wf(),
            0 < shells@.len() <= chrome::MAX_MENU,
        ensures
            app.wf(),
            app@ == (AppView {
                fonts,
                tabs: tab_views(tabs@),
                active: 0,
                accent: cfg.accent,
                selecting: false,
                hover: None,
                hover_close: None,
                focused: true,
                ps_available,
                shells: shells::views(shells@),
                menu_open: false,
                menu_hover: None,
                cfg: cfg@,
            }),
    {
        App {
            fonts,
            tabs,
            active: 0,
            accent: cfg.accent,
            selecting: false,
            hover: None,
            hover_close: None,
            focused: true,
            ps_available,
            shells,
            menu_open: false,
            menu_hover: None,
            cfg,
        }
    }

    /// The active tab.
    pub fn cur(&self) -> (s: &Session)
        requires
            self.wf(),
        ensures
            *s == self.tabs@[self.active as int],
            s@ == self@.cur(),
    {
        &self.tabs[self.active]
    }

    /// The active tab.
    pub fn cur_mut(&mut self) -> (s: &mut Session)
        requires
            old(self).wf(),
        ensures
            *s == old(self).tabs@[old(self).active as int],
            final(self).tabs@ == old(self).tabs@.update(old(self).active as int, *final(s)),
            final(self)@ == (AppView {
                tabs: old(self)@.tabs.update(old(self)@.active, final(s)@),
                ..old(self)@
            }),
            final(s).wf() ==> final(self).wf(),
    {
        let i: usize = self.active;
        &mut self.tabs[i]
    }

    /// Names of the tabs.
    pub fn labels(&self) -> (v: Vec<String>)
        ensures
            crate::render::texts(v@) == self@.labels(),
    {
        let mut v: Vec<String> = Vec::new();
        let mut i: usize = 0;
        while i < self.tabs.len()
            invariant
                i <= self.tabs@.len(),
                v@.len() == i,
                forall|k: int| 0 <= k < i ==> (#[trigger] v@[k])@ == self.tabs@[k]@.name(),
            decreases self.tabs@.len() - i,
        {
            v.push(self.tabs[i].name());
            i = i + 1;
        }
        proof {
            assert(crate::render::texts(v@) =~= self@.labels());
        }
        v
    }

    /// Names of the shells that the dropdown offers.
    pub fn shell_labels(&self) -> (v: Vec<String>)
        ensures
            crate::render::texts(v@) == self@.shell_labels(),
    {
        let mut v: Vec<String> = Vec::new();
        let mut i: usize = 0;
        while i < self.shells.len()
            invariant
                i <= self.shells@.len(),
                v@.len() == i,
                forall|k: int| 0 <= k < i ==> (#[trigger] v@[k])@ == self.shells@[k].label@,
            decreases self.shells@.len() - i,
        {
            v.push(self.shells[i].label.clone());
            i = i + 1;
        }
        proof {
            assert(crate::render::texts(v@) =~= self@.shell_labels());
        }
        v
    }

    /// What the chrome shows, given the names of the tabs and of the shells.
    pub fn chrome<'a>(
        &self,
        labels: &'a Vec<String>,
        menu_labels: &'a Vec<String>,
        is_max: bool,
    ) -> (c: Chrome<'a>)
        requires
            crate::render::texts(labels@) == self@.labels(),
            crate::render::texts(menu_labels@) == self@.shell_labels(),
        ensures
            c@ == self@.chrome(is_max),
    {
        Chrome {
            labels: labels.as_slice(),
            active: self.active,
            accent: self.accent,
            is_max,
            hover: self.hover,
            hover_close: self.hover_close,
            focused: self.focused,
            menu: if self.menu_open {
                Some(menu_labels.as_slice())
            } else {
                None
            },
            menu_hover: self.menu_hover,
        }
    }

    /// Close the new-tab dropdown if it is open; tells whether it was.
    pub fn close_menu(&mut self) -> (was: bool)
        ensures
            was == old(self)@.menu_open,
            final(self)@ == old(self)@.close_menu(),
            final(self).tabs == old(self).tabs,
            old(self).wf() ==> final(self).wf(),
    {
        let was: bool = self.menu_open;
        self.menu_open = false;
        self.menu_hover = None;
        was
    }

    /// Focus comes or goes.
    pub fn nc_activate(&mut self, active: bool)
        requires
            old(self).wf(),
        ensures
            final(self).wf(),
            final(self)@ == old(self)@.nc_activate(active),
    {
        self.focused = active;
        if !active {
            self.close_menu();
        }
    }

    /// Output of the shell in tab `i`. Hands back the replies that are due to it.
    pub fn pty_data(&mut self, i: usize, bytes: &[u8]) -> (replies: Vec<u8>)
        requires
            old(self).wf(),
            i < old(self)@.tabs.len(),
        ensures
            final(self).wf(),
            final(self)@ == old(self)@.fed(i as int, bytes@),
            replies@ == old(self)@.tabs[i as int].term.feed(bytes@).responses,
    {
        let s: &mut Session = &mut self.tabs[i];
        let replies: Vec<u8> = s.feed(bytes);
        proof {
            assert(self@.tabs =~= old(self)@.fed(i as int, bytes@).tabs);
        }
        replies
    }

    /// The window has a new size: every terminal takes it on.
    pub fn size(&mut self, cols: u16, rows: u16)
        requires
            old(self).wf(),
            screen::screen_fits(screen::max(cols as int, 1), screen::max(rows as int, 1)),
        ensures
            final(self).wf(),
            final(self)@ == old(self)@.resized(cols as int, rows as int),
    {
        self.close_menu();
        let ghost before = self.tabs@;
        let mut i: usize = 0;
        while i < self.tabs.len()
            invariant
                screen::screen_fits(screen::max(cols as int, 1), screen::max(rows as int, 1)),
                i <= self.tabs@.len(),
                self.tabs@.len() == before.len(),
                self.sessions_wf(),
                forall|k: int|
                    0 <= k < i ==> (#[trigger] self.tabs@[k])@ == before[k]@.with_grid(
                        before[k]@.term.grid.resize(
                            screen::max(cols as int, 1),
                            screen::max(rows as int, 1),
                        ),
                    ),
                forall|k: int| i <= k < self.tabs@.len() ==> self.tabs@[k] == before[k],
                self@ == (AppView { tabs: self@.tabs, ..old(self)@.close_menu() }),
            decreases self.tabs@.len() - i,
        {
            let s: &mut Session = &mut self.tabs[i];
            s.resize(cols, rows);
            i = i + 1;
        }
        proof {
            assert(self@.tabs =~= old(self)@.resized(cols as int, rows as int).tabs);
        }
    }

    /// Move the active tab to the next one, or to the one before, wrapping.
    pub fn switch_tab(&mut self, forward: bool)
        requires
            old(self).wf(),
        ensures
            final(self).wf(),
            final(self)@ == old(self)@.switched(
                if forward {
                    1
                } else {
                    -1
                },
            ),
    {
        let n: usize = self.tabs.len();
        self.active = if forward {
            if self.active + 1 < n {
                self.active + 1
            } else {
                0
            }
        } else if self.active > 0 {
            self.active - 1
        } else {
            n - 1
        };
        proof {
            let (a, k) = (old(self)@.active, n as int);
            if forward {
                assert((a + 1) % k == if a + 1 < k { a + 1 } else { 0 }) by (nonlinear_arith)
                    requires
                        0 <= a < k,
                ;
            } else {
                assert((a - 1) % k == if a > 0 { a - 1 } else { k - 1 }) by (nonlinear_arith)
                    requires
                        0 <= a < k,
                ;
            }
        }
    }

    /// Open a tab for a session and make it the active one.
    pub fn push_tab(&mut self, s: Session)
        requires
            old(self).wf(),
            s.wf(),
            old(self)@.tabs.len() < chrome::MAX_TABS,
        ensures
            final(self).wf(),
            final(self)@ == old(self)@.pushed(s@),
    {
        self.active = self.tabs.len();
        self.tabs.push(s);
        proof {
            assert(self@.tabs =~= old(self)@.pushed(s@).tabs);
        }
    }

    fn remove_tab(&mut self, i: usize) -> (o: Outcome)
        requires
            old(self).wf(),
            i < old(self)@.tabs.len(),
        ensures
            o.is(final(self)@, old(self)@.close_tab(i as int)),
            old(self)@.tabs.len() > 1 ==> final(self).wf(),
    {
        self.tabs.remove(i);
        let n: usize = self.tabs.len();
        if n > 0 && self.active > n - 1 {
            self.active = n - 1;
        }
        proof {
            assert(self@.tabs =~= old(self)@.tabs.remove(i as int));
        }
        if n == 0 {
            outcome(false, Effect::Quit)
        } else {
            outcome(true, Effect::Closed(i))
        }
    }

    /// Close tab `i`, or the active tab if `None`.
    pub fn close_tab(&mut self, i: Option<usize>) -> (o: Outcome)
        requires
            old(self).wf(),
        ensures
            ({
                let last = old(self)@.tabs.len() - 1;
                let at = match i {
                    Some(i) => screen::min(i as int, last),
                    None => old(self)@.active,
                };
                o.is(final(self)@, old(self)@.close_tab(at))
            }),
            old(self)@.tabs.len() > 1 ==> final(self).wf(),
    {
        let last: usize = self.tabs.len() - 1;
        let at: usize = match i {
            Some(i) => if i <= last {
                i
            } else {
                last
            },
            None => self.active,
        };
        self.remove_tab(at)
    }

    /// The shell of session `id` has exited: its tab closes.
    pub fn pty_exit(&mut self, id: u64) -> (o: Outcome)
        requires
            old(self).wf(),
        ensures
            o.is(final(self)@, old(self)@.exited(id)),
            o.effect@ != EffectView::Quit ==> final(self).wf(),
    {
        let ghost ids = self@.tabs.map_values(|t: TabView| t.id);
        proof {
            ids.index_of_first_ensures(id);
        }
        let mut i: usize = 0;
        while i < self.tabs.len()
            invariant
                self == old(self),
                self.wf(),
                i <= self.tabs@.len(),
                ids == self@.tabs.map_values(|t: TabView| t.id),
                forall|k: int| 0 <= k < i ==> ids[k] != id,
                ids.index_of_first(id) == self@.tab_of(id),
                match ids.index_of_first(id) {
                    Some(at) => 0 <= at < ids.len() && ids[at] == id && forall|j: int|
                        0 <= j < at ==> ids[j] != id,
                    None => !ids.contains(id),
                },
            decreases self.tabs@.len() - i,
        {
            proof {
                assert(ids[i as int] == self.tabs@[i as int].id);
            }
            if self.tabs[i].id == id {
                proof {
                    assert(ids.contains(id));
                    assert(self@.tab_of(id) == Some(i as int));
                }
                return self.remove_tab(i);
            }
            i = i + 1;
        }
        outcome(true, Effect::Nothing)
    }

    /// The shell that a new tab runs.
    pub fn new_tab(&self) -> (cmd: String)
        ensures
            cmd@ == self@.new_tab_command(),
            vstd::utf8::is_ascii_chars(self@.cfg.shell) ==> cmd@ == shells::new_tab_command(
                self@.cfg.shell,
                shells::ascii_lowered(self@.cfg.shell),
                self@.ps_available,
            ),
    {
        shells::new_tab_shell(self.cfg.shell.as_str(), self.ps_available)
    }

    fn on_input(&mut self)
        requires
            old(self).wf(),
        ensures
            final(self).wf(),
            final(self)@ == old(self)@.typed(),
    {
        let s: &mut Session = self.cur_mut();
        s.on_input();
    }

    /// A character is typed.
    pub fn char_input(&mut self, unit: u16, ctrl: bool, shift: bool) -> (o: Outcome)
        requires
            old(self).wf(),
        ensures
            final(self).wf(),
            o.is(final(self)@, old(self)@.char_typed(unit, ctrl, shift)),
    {
        if ctrl && shift {
            return outcome(false, Effect::Nothing);
        }
        if ctrl && (unit == 0x14 || unit == 0x17 || unit == 0x09) {
            return outcome(false, Effect::Nothing);
        }
        if (unit == 0x08 && !ctrl) || unit == 0x7f {
            return outcome(false, Effect::Nothing);
        }
        let bytes: Vec<u8> = input::char_bytes(unit);
        self.on_input();
        outcome(true, Effect::Write(bytes))
    }

    fn ctrl_shift_key(&mut self, vk: u16) -> (o: Outcome)
        requires
            old(self).wf(),
        ensures
            final(self).wf(),
            o.is(final(self)@, old(self)@.ctrl_shift_key(vk)),
    {
        if vk == VK_C {
            let text: String = self.cur().term.grid.selection_text();
            if !text.as_str().is_empty() {
                return outcome(false, Effect::Copy(text));
            }
            return outcome(false, Effect::Nothing);
        }
        if vk == VK_V {
            return outcome(false, Effect::Paste);
        }
        if vk == VK_TAB {
            self.switch_tab(false);
            return outcome(true, Effect::Nothing);
        }
        outcome(false, Effect::Nothing)
    }

    fn plain_key(&mut self, vk: u16, mods: Modifiers) -> (o: Outcome)
        requires
            old(self).wf(),
        ensures
            o.is(final(self)@, old(self)@.plain_key(vk, mods)),
            o.effect@ != EffectView::Quit ==> final(self).wf(),
    {
        if mods.ctrl && vk == VK_T {
            return outcome(false, Effect::Open(self.new_tab()));
        }
        if mods.ctrl && vk == VK_W {
            return self.close_tab(None);
        }
        if mods.ctrl && vk == VK_TAB {
            self.switch_tab(true);
            return outcome(true, Effect::Nothing);
        }
        let app_cursor: bool = self.cur().term.grid.app_cursor;
        match input::key_bytes(vk, app_cursor, mods) {
            Some(bytes) => {
                self.on_input();
                outcome(true, Effect::Write(bytes))
            },
            None => outcome(true, Effect::Nothing),
        }
    }

    /// A key is pressed.
    pub fn key_down(&mut self, vk: u16, mods: Modifiers) -> (o: Outcome)
        requires
            old(self).wf(),
        ensures
            o.is(final(self)@, old(self)@.key_pressed(vk, mods)),
            o.effect@ != EffectView::Quit ==> final(self).wf(),
    {
        let was: bool = self.close_menu();
        if was && vk == VK_ESCAPE {
            return outcome(true, Effect::Nothing);
        }
        let o: Outcome = if mods.ctrl && mods.shift {
            self.ctrl_shift_key(vk)
        } else {
            self.plain_key(vk, mods)
        };
        outcome(o.redraw || was, o.effect)
    }

    /// Text is pasted into the active tab.
    pub fn paste(&mut self, raw: &str) -> (o: Outcome)
        requires
            old(self).wf(),
        ensures
            final(self).wf(),
            o.is(final(self)@, old(self)@.pasted(raw@)),
    {
        let bracketed: bool = self.cur().term.grid.bracketed_paste;
        let text: String = text::with_carriage_returns(raw);
        let mut bytes: Vec<u8> = Vec::new();
        if bracketed {
            text::push_all(&mut bytes, &[0x1b, 0x5b, 0x32, 0x30, 0x30, 0x7e]);
        }
        text::push_all(&mut bytes, text.as_str().as_bytes());
        if bracketed {
            text::push_all(&mut bytes, &[0x1b, 0x5b, 0x32, 0x30, 0x31, 0x7e]);
        }
        proof {
            assert(bytes@ =~= state::paste_bytes(raw@, bracketed));
        }
        self.on_input();
        outcome(true, Effect::Write(bytes))
    }

    /// The virtual line and column of the active screen at a client point.
    pub fn mouse_cell(&self, x: i32, y: i32) -> (at: (usize, usize))
        requires
            self.wf(),
        ensures
            at.0 == state::mouse_cell(self@.grid(), self@.fonts, x as int, y as int).0,
            at.1 == state::mouse_cell(self@.grid(), self@.fonts, x as int, y as int).1,
    {
        let g = &self.cur().term.grid;
        let col: usize = cell_index(x, PAD_X, self.fonts.cw, g.cols);
        let row: usize = cell_index(y, CHROME_H + PAD_Y, self.fonts.ch, g.rows);
        (g.display_vline(row), col)
    }

    fn menu_clicked(&mut self, width: i32, x: i32, y: i32) -> (o: Outcome)
        requires
            old(self).wf(),
        ensures
            final(self).wf(),
            o.is(final(self)@, old(self)@.menu_clicked(width as int, x as int, y as int)),
    {
        let pick: Option<usize> = chrome::menu_hit(
            self.tabs.len(),
            self.shells.len(),
            width,
            x,
            y,
        );
        self.close_menu();
        match pick {
            Some(i) => {
                proof {
                    chrome::law_menu_picks_item(
                        self@.tabs.len() as int,
                        self@.shells.len() as int,
                        width as int,
                        i as int,
                        x as int,
                        y as int,
                    );
                    assert(self@.shells[i as int] == self.shells@[i as int]@);
                }
                outcome(false, Effect::Open(self.shells[i].cmd.clone()))
            },
            None => outcome(true, Effect::Nothing),
        }
    }

    fn plus_clicked(&mut self) -> (o: Outcome)
        requires
            old(self).wf(),
        ensures
            final(self).wf(),
            o.is(final(self)@, old(self)@.plus_clicked()),
    {
        if self.shells.len() <= 1 {
            return outcome(false, Effect::Open(self.new_tab()));
        }
        self.menu_open = true;
        self.menu_hover = None;
        outcome(true, Effect::Nothing)
    }

    fn begin_selection(&mut self, x: i32, y: i32) -> (o: Outcome)
        requires
            old(self).wf(),
        ensures
            final(self).wf(),
            o.is(final(self)@, old(self)@.selection_begun(x as int, y as int)),
    {
        let (vline, col): (usize, usize) = self.mouse_cell(x, y);
        self.selecting = true;
        let s: &mut Session = self.cur_mut();
        s.term.grid.sel_begin(vline, col);
        outcome(true, Effect::Capture)
    }

    /// The left button goes down at a client point of a window `width` wide.
    pub fn left_down(&mut self, width: i32, x: i32, y: i32) -> (o: Outcome)
        requires
            old(self).wf(),
            width - 3 * chrome::BTN_W >= i32::MIN,
        ensures
            o.is(final(self)@, old(self)@.left_pressed(width as int, x as int, y as int)),
            o.effect@ != EffectView::Quit ==> final(self).wf(),
    {
        if self.menu_open {
            return self.menu_clicked(width, x, y);
        }
        proof {
            chrome::law_hit_names_what_is_there(
                self@.tabs.len() as int,
                width as int,
                x as int,
                y as int,
            );
        }
        match chrome::hit(self.tabs.len(), width, x, y) {
            Hit::Tab(i) => {
                self.active = i;
                outcome(true, Effect::Nothing)
            },
            Hit::Close(i) => self.close_tab(Some(i)),
            Hit::NewTab => self.plus_clicked(),
            Hit::Terminal => self.begin_selection(x, y),
            _ => outcome(false, Effect::Nothing),
        }
    }

    fn highlight(&mut self, width: i32, x: i32, y: i32) -> (changed: bool)
        requires
            old(self).wf(),
            width - 3 * chrome::BTN_W >= i32::MIN,
        ensures
            final(self).wf(),
            final(self)@ == old(self)@.highlighted(width as int, x as int, y as int),
            changed == (final(self)@.hover_close != old(self)@.hover_close
                || final(self)@.menu_hover != old(self)@.menu_hover),
    {
        let close: Option<usize> = match chrome::hit(self.tabs.len(), width, x, y) {
            Hit::Close(i) => Some(i),
            _ => None,
        };
        let item: Option<usize> = if self.menu_open {
            chrome::menu_hit(self.tabs.len(), self.shells.len(), width, x, y)
        } else {
            None
        };
        let changed: bool = !same_index(self.hover_close, close) || !same_index(
            self.menu_hover,
            item,
        );
        self.hover_close = close;
        self.menu_hover = item;
        changed
    }

    fn extend_selection(&mut self, x: i32, y: i32)
        requires
            old(self).wf(),
        ensures
            final(self).wf(),
            final(self)@ == old(self)@.selection_extended(x as int, y as int),
    {
        let (vline, col): (usize, usize) = self.mouse_cell(x, y);
        let s: &mut Session = self.cur_mut();
        s.term.grid.sel_update(vline, col);
    }

    /// The mouse moves to a client point of a window `width` wide.
    pub fn mouse_move(&mut self, width: i32, x: i32, y: i32, dragging: bool) -> (o: Outcome)
        requires
            old(self).wf(),
            width - 3 * chrome::BTN_W >= i32::MIN,
        ensures
            final(self).wf(),
            o.is(
                final(self)@,
                old(self)@.mouse_moved(width as int, x as int, y as int, dragging),
            ),
    {
        let mut changed: bool = self.highlight(width, x, y);
        if self.selecting && dragging {
            self.extend_selection(x, y);
            changed = true;
        }
        outcome(changed, Effect::Nothing)
    }

    /// The mouse leaves the window.
    pub fn mouse_leave(&mut self) -> (o: Outcome)
        requires
            old(self).wf(),
        ensures
            final(self).wf(),
            o.is(final(self)@, old(self)@.mouse_left()),
    {
        let changed: bool = self.hover_close.is_some();
        self.hover_close = None;
        outcome(changed, Effect::Nothing)
    }

    /// The left button is released: a selection is made.
    pub fn left_up(&mut self)
        requires
            old(self).wf(),
        ensures
            final(self).wf(),
            final(self)@ == (AppView { selecting: false, ..old(self)@ }),
    {
        self.selecting = false;
    }

    /// The wheel turns by `delta`, positive away from the user.
    pub fn wheel(&mut self, delta: i16)
        requires
            old(self).wf(),
        ensures
            final(self).wf(),
            final(self)@ == old(self)@.wheel_turned(delta as int),
    {
        let lines: isize = if delta >= 0 {
            (delta as isize) / 120 * 3
        } else {
            -((-(delta as isize)) / 120 * 3)
        };
        let s: &mut Session = self.cur_mut();
        s.term.grid.scroll_view(lines);
    }

    /// The caption button under the mouse changes; tells whether it is another one.
    pub fn set_hover(&mut self, btn: Option<CaptionBtn>) -> (changed: bool)
        requires
            old(self).wf(),
        ensures
            final(self).wf(),
            final(self)@ == (AppView { hover: btn, ..old(self)@ }),
            changed == (old(self)@.hover != btn),
    {
        let changed: bool = match (self.hover, btn) {
            (Some(a), Some(b)) => a != b,
            (None, None) => false,
            _ => true,
        };
        self.hover = btn;
        changed
    }
}

fn cell_index(at: i32, from: i32, size: i32, n: usize) -> (i: usize)
    requires
        0 <= from,
        size >= 1,
        1 <= n <= 0xffff,
    ensures
        i == state::cell_index(at - from, size as int, n as int),
{
    if at <= from {
        proof {
            assert(0int / size as int == 0) by (nonlinear_arith)
                requires
                    size >= 1,
            ;
        }
        return 0;
    }
    let i: i32 = (at - from) / size;
    proof {
        assert((at - from) as int / size as int >= 0) by (nonlinear_arith)
            requires
                at > from,
                size >= 1,
        ;
    }
    if i as usize > n - 1 {
        n - 1
    } else {
        i as usize
    }
}

/// The signed value of a 16-bit word.
pub open spec fn signed(word: int) -> int {
    if word < 0x8000 {
        word
    } else {
        word - 0x1_0000
    }
}

/// The two signed words of a message parameter, the low one first: the coordinates of a point, or
/// the key state and the turn of the wheel.
pub fn words_of(param: u32) -> (words: (i16, i16))
    ensures
        words.0 == signed(param as int % 0x1_0000),
        words.1 == signed(param as int / 0x1_0000),
        (param as int - words.0) % 0x1_0000 == 0,
        (param as int / 0x1_0000 - words.1) % 0x1_0000 == 0,
{
    (signed_word((param % 0x1_0000) as u16), signed_word((param / 0x1_0000) as u16))
}

fn signed_word(word: u16) -> (v: i16)
    ensures
        v == signed(word as int),
{
    if word < 0x8000 {
        word as i16
    } else {
        (word as i32 - 0x1_0000) as i16
    }
}

/// Grid (cols, rows) for the terminal area of a client area: what the chrome and the padding leave.
pub fn term_grid_size(client_width: i32, client_height: i32, fonts: &Fonts) -> (size: (u16, u16))
    requires
        fonts.wf(),
        client_width - 2 * PAD_X >= i32::MIN,
        client_height - CHROME_H - 2 * PAD_Y >= i32::MIN,
    ensures
        size.0 == screen::max(
            screen::max(client_width - 2 * PAD_X, 1) / fonts.cw as int,
            1,
        ) % 0x1_0000,
        size.1 == screen::max(
            screen::max(client_height - CHROME_H - 2 * PAD_Y, 1) / fonts.ch as int,
            1,
        ) % 0x1_0000,
        client_width - 2 * PAD_X >= 1 ==> crate::render::fits_in(
            size.0,
            (client_width - 2 * PAD_X) as i32,
            fonts.cw,
        ),
        client_height - CHROME_H - 2 * PAD_Y >= 1 ==> crate::render::fits_in(
            size.1,
            (client_height - CHROME_H - 2 * PAD_Y) as i32,
            fonts.ch,
        ),
{
    let w: i32 = client_width - 2 * PAD_X;
    let h: i32 = client_height - CHROME_H - 2 * PAD_Y;
    fonts.grid_size(
        if w > 1 {
            w
        } else {
            1
        },
        if h > 1 {
            h
        } else {
            1
        },
    )
}

/// Whether the click that focuses the window is kept from the terminal: it is, in the terminal
/// area, where it would begin a selection.
pub fn eats_click(y: i32) -> (eats: bool)
    ensures
        eats == (y >= CHROME_H),
{
    y >= CHROME_H
}

/// What pressing a caption button does.
#[derive(Clone, Copy, PartialEq, Eq, Structural, Debug)]
pub enum CaptionCmd {
    Minimize,
    Maximize,
    Restore,
    Close,
    /// No caption button: the window manager's own doing.
    Default,
}

/// What a press at `at` does, in a window that is maximized or not.
pub fn caption_press(at: NcHit, zoomed: bool) -> (cmd: CaptionCmd)
    ensures
        cmd == match at {
            NcHit::MinButton => CaptionCmd::Minimize,
            NcHit::MaxButton => if zoomed {
                CaptionCmd::Restore
            } else {
                CaptionCmd::Maximize
            },
            NcHit::Close => CaptionCmd::Close,
            _ => CaptionCmd::Default,
        },
{
    match at {
        NcHit::MinButton => CaptionCmd::Minimize,
        NcHit::MaxButton => if zoomed {
            CaptionCmd::Restore
        } else {
            CaptionCmd::Maximize
        },
        NcHit::Close => CaptionCmd::Close,
        _ => CaptionCmd::Default,
    }
}

} // verus!

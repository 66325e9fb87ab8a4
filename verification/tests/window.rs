//! The window's state and pictures on concrete values.

use rust_terminal::chrome::{CaptionBtn, NcHit, Rect, CHROME_H, RADIUS};
use rust_terminal::colors::{DEFAULT_BG, SEL_BG, SEL_FG};
use rust_terminal::config::Config;
use rust_terminal::input::{
    Modifiers, VK_BACK, VK_C, VK_ESCAPE, VK_T, VK_TAB, VK_UP, VK_V, VK_W,
};
use rust_terminal::parser::Term;
use rust_terminal::render::{
    face_units, mono_faces, pick_mono, render_to, FontKind, Fonts, Op, BORDER_INACTIVE,
    CLOSE_HOVER_BG, GLYPH_RESTORE, HOVER_BG,
};
use rust_terminal::shells::available_shells;
use rust_terminal::window::{
    caption_press, eats_click, term_grid_size, words_of, App, CaptionCmd, Effect, IdSource, Session,
};

const PLAIN: Modifiers = Modifiers { shift: false, alt: false, ctrl: false };
const CTRL: Modifiers = Modifiers { shift: false, alt: false, ctrl: true };
const CTRL_SHIFT: Modifiers = Modifiers { shift: true, alt: false, ctrl: true };

/// A window of 10 by 20 pixel cells with tabs `10, 11, ..` running `shells`.
fn window(shells: &[&str]) -> App {
    let tabs = shells
        .iter()
        .enumerate()
        .map(|(i, s)| Session::new(10 + i as u64, s, 40, 10, 100))
        .collect();
    App::new(
        Config::default(),
        Fonts { cw: 10, ch: 20, lead: 2 },
        tabs,
        true,
        available_shells("powershell.exe", true, true, false),
    )
}

fn shown(app: &App, y: usize) -> String {
    app.cur().term.grid.display_line(y).iter().map(|c| c.ch).collect::<String>().trim_end().to_string()
}

fn ids(app: &App) -> Vec<u64> {
    app.tabs.iter().map(|t| t.id).collect()
}

fn written(e: Effect) -> Vec<u8> {
    match e {
        Effect::Write(b) => b,
        _ => panic!("nothing was written"),
    }
}

#[test]
fn ids_are_distinct() {
    let mut s = IdSource::new();
    assert_eq!((s.next_id(), s.next_id(), s.next_id()), (1, 2, 3));
    let mut last = IdSource { next: u64::MAX };
    assert_eq!((last.next_id(), last.next_id()), (u64::MAX, 0));
}

#[test]
fn a_new_window() {
    let app = window(&["powershell.exe", "cmd.exe"]);
    assert_eq!(app.active, 0);
    assert!(app.focused && !app.selecting && !app.menu_open);
    assert_eq!(app.labels(), vec!["PowerShell", "Command Prompt"]);
    assert_eq!(app.shell_labels(), vec!["PowerShell", "Command Prompt"]);
}

#[test]
fn titles_name_tabs() {
    let mut app = window(&["cmd.exe"]);
    app.pty_data(0, b"\x1b]0;build\x07");
    assert_eq!(app.labels(), vec!["build"]);
    app.pty_data(0, b"\x1b]0;C:\\Windows\\cmd.exe\x07");
    assert_eq!(app.labels(), vec!["Command Prompt"]);
    app.pty_data(0, b"\x1b]0;\x07");
    assert_eq!(app.labels(), vec!["Command Prompt"]);
}

#[test]
fn output_stays_in_its_tab() {
    let mut app = window(&["a", "b"]);
    let reply = app.pty_data(1, b"hello\x1b[6n");
    assert_eq!(reply, b"\x1b[1;6R".to_vec());
    assert_eq!(shown(&app, 0), "");
    app.switch_tab(true);
    assert_eq!(shown(&app, 0), "hello");
    assert!(app.pty_data(1, b"").is_empty());
}

#[test]
fn next_and_previous_tab() {
    let mut app = window(&["a", "b", "c"]);
    app.switch_tab(true);
    assert_eq!(app.active, 1);
    app.switch_tab(false);
    app.switch_tab(false);
    assert_eq!(app.active, 2);
    for _ in 0..3 {
        app.switch_tab(true);
    }
    assert_eq!(app.active, 2);
    let mut one = window(&["a"]);
    one.switch_tab(true);
    one.switch_tab(false);
    assert_eq!(one.active, 0);
}

#[test]
fn tabs_open_and_close() {
    let mut app = window(&["a", "b"]);
    app.push_tab(Session::new(99, "cmd.exe", 40, 10, 100));
    assert_eq!((app.active, ids(&app)), (2, vec![10, 11, 99]));
    let o = app.close_tab(None);
    assert!(o.redraw && matches!(o.effect, Effect::Closed(2)));
    assert_eq!((app.active, ids(&app)), (1, vec![10, 11]));
    let o = app.close_tab(Some(0));
    assert!(matches!(o.effect, Effect::Closed(0)));
    assert_eq!((app.active, ids(&app)), (0, vec![11]));
    let o = app.close_tab(Some(7));
    assert!(matches!(o.effect, Effect::Quit));
    assert!(app.tabs.is_empty());
}

#[test]
fn exited_shell_closes_its_tab() {
    let mut app = window(&["a", "b", "c"]);
    let o = app.pty_exit(11);
    assert!(matches!(o.effect, Effect::Closed(1)));
    assert_eq!(ids(&app), vec![10, 12]);
    let o = app.pty_exit(77);
    assert!(matches!(o.effect, Effect::Nothing));
    assert_eq!(ids(&app), vec![10, 12]);
    app.pty_exit(10);
    assert!(matches!(app.pty_exit(12).effect, Effect::Quit));
}

#[test]
fn all_tabs_are_resized() {
    let mut app = window(&["a", "b"]);
    app.menu_open = true;
    app.size(20, 5);
    for t in &app.tabs {
        assert_eq!((t.term.grid.cols, t.term.grid.rows), (20, 5));
    }
    assert!(!app.menu_open);
    app.size(0, 0);
    assert_eq!((app.tabs[1].term.grid.cols, app.tabs[1].term.grid.rows), (1, 1));
}

#[test]
fn focus_and_the_dropdown() {
    let mut app = window(&["a"]);
    app.menu_open = true;
    app.nc_activate(true);
    assert!(app.focused && app.menu_open);
    app.nc_activate(false);
    assert!(!app.focused && !app.menu_open && app.menu_hover.is_none());
}

#[test]
fn characters_reach_the_shell() {
    let mut app = window(&["a"]);
    assert_eq!(written(app.char_input(0x61, false, false).effect), b"a".to_vec());
    assert_eq!(written(app.char_input(0x0d, false, false).effect), b"\r".to_vec());
    assert_eq!(written(app.char_input(0x09, false, false).effect), b"\t".to_vec());
}

#[test]
fn control_codes_pass() {
    let mut app = window(&["a"]);
    assert_eq!(written(app.char_input(0x03, true, false).effect), vec![3]);
    assert_eq!(written(app.char_input(0x16, true, false).effect), vec![0x16]);
    let o = app.key_down(VK_C, CTRL);
    assert!(matches!(o.effect, Effect::Nothing));
}

#[test]
fn shortcuts_stay_here() {
    let mut app = window(&["a", "b"]);
    for (unit, ctrl, shift) in
        [(0x14, true, false), (0x17, true, false), (0x09, true, false), (0x03, true, true)]
    {
        let o = app.char_input(unit, ctrl, shift);
        assert!(!o.redraw && matches!(o.effect, Effect::Nothing));
    }
    let o = app.key_down(VK_T, CTRL);
    assert!(matches!(o.effect, Effect::Open(ref s) if s == "powershell.exe"));
    app.key_down(VK_TAB, CTRL);
    assert_eq!(app.active, 1);
    app.key_down(VK_TAB, CTRL_SHIFT);
    assert_eq!(app.active, 0);
    assert!(matches!(app.key_down(VK_V, CTRL_SHIFT).effect, Effect::Paste));
    assert!(matches!(app.key_down(VK_W, CTRL_SHIFT).effect, Effect::Nothing));
    assert!(matches!(app.key_down(VK_W, CTRL).effect, Effect::Closed(0)));
    assert!(matches!(app.key_down(VK_W, CTRL).effect, Effect::Quit));
}

#[test]
fn new_tabs_fall_back_to_the_command_prompt() {
    let mut app = window(&["a"]);
    app.ps_available = false;
    assert_eq!(app.new_tab(), "cmd.exe");
    app.cfg.shell = "bash".to_string();
    assert_eq!(app.new_tab(), "bash");
}

#[test]
fn backspace_is_sent_once() {
    let mut app = window(&["a"]);
    assert_eq!(written(app.key_down(VK_BACK, PLAIN).effect), vec![0x7f]);
    assert!(matches!(app.char_input(0x08, false, false).effect, Effect::Nothing));
    assert_eq!(written(app.key_down(VK_BACK, CTRL).effect), vec![0x08]);
    assert!(matches!(app.char_input(0x7f, true, false).effect, Effect::Nothing));
}

#[test]
fn ctrl_h_passes() {
    let mut app = window(&["a"]);
    assert_eq!(written(app.char_input(0x08, true, false).effect), vec![0x08]);
    assert!(matches!(app.char_input(0x08, false, false).effect, Effect::Nothing));
    assert!(matches!(app.char_input(0x08, true, true).effect, Effect::Nothing));
    assert!(matches!(app.char_input(0x7f, false, false).effect, Effect::Nothing));
}

#[test]
fn cursor_keys_honor_the_mode() {
    let mut app = window(&["a"]);
    assert_eq!(written(app.key_down(VK_UP, PLAIN).effect), b"\x1b[A".to_vec());
    app.pty_data(0, b"\x1b[?1h");
    assert_eq!(written(app.key_down(VK_UP, PLAIN).effect), b"\x1bOA".to_vec());
    let o = app.key_down(0x41, PLAIN);
    assert!(o.redraw && matches!(o.effect, Effect::Nothing));
}

#[test]
fn typing_returns_to_the_live_screen() {
    let mut app = window(&["a"]);
    app.pty_data(0, &b"x\r\n".repeat(30));
    app.wheel(240);
    app.cur_mut().term.grid.sel_begin(0, 0);
    assert_eq!(app.cur().term.grid.view_offset, 6);
    app.char_input(0x61, false, false);
    assert_eq!(app.cur().term.grid.view_offset, 0);
    assert!(app.cur().term.grid.selection.is_none());
}

#[test]
fn copy_takes_the_selection() {
    let mut app = window(&["a"]);
    app.pty_data(0, b"hello");
    assert!(matches!(app.key_down(VK_C, CTRL_SHIFT).effect, Effect::Nothing));
    app.cur_mut().term.grid.sel_begin(0, 1);
    app.cur_mut().term.grid.sel_update(0, 3);
    let o = app.key_down(VK_C, CTRL_SHIFT);
    assert!(matches!(o.effect, Effect::Copy(ref s) if s == "ell"));
    assert!(app.cur().term.grid.selection.is_some());
}

#[test]
fn paste_in_brackets_where_asked() {
    let mut app = window(&["a"]);
    assert_eq!(written(app.paste("a\r\nb\n").effect), b"a\rb\r".to_vec());
    app.pty_data(0, b"\x1b[?2004h");
    assert_eq!(written(app.paste("h\u{e9}\n").effect), b"\x1b[200~h\xc3\xa9\r\x1b[201~".to_vec());
}

#[test]
fn any_key_closes_the_dropdown() {
    let mut app = window(&["a"]);
    app.menu_open = true;
    let o = app.key_down(VK_ESCAPE, PLAIN);
    assert!(o.redraw && matches!(o.effect, Effect::Nothing) && !app.menu_open);
    app.menu_open = true;
    let o = app.key_down(VK_UP, PLAIN);
    assert!(!app.menu_open && matches!(o.effect, Effect::Write(_)));
    app.menu_open = true;
    assert!(app.key_down(VK_V, CTRL_SHIFT).redraw);
}

#[test]
fn clicks_on_the_strip() {
    let mut app = window(&["a", "b"]);
    let o = app.left_down(960, 250, 20);
    assert!(o.redraw && app.active == 1);
    let o = app.left_down(960, 420, 20);
    assert!(o.redraw && app.menu_open && matches!(o.effect, Effect::Nothing));
    app.close_menu();
    let o = app.left_down(960, 600, 20);
    assert!(!o.redraw && matches!(o.effect, Effect::Nothing));
    let o = app.left_down(960, 180, 18);
    assert!(matches!(o.effect, Effect::Closed(0)));
    assert_eq!(ids(&app), vec![11]);
}

#[test]
fn plus_with_one_shell_opens_a_tab() {
    let mut app = window(&["a"]);
    app.shells = available_shells("cmd.exe", false, true, false);
    let o = app.left_down(960, 210, 20);
    assert!(!app.menu_open && matches!(o.effect, Effect::Open(ref s) if s == "powershell.exe"));
}

#[test]
fn the_dropdown_takes_the_click() {
    let mut app = window(&["a"]);
    app.menu_open = true;
    let o = app.left_down(960, 220, 75);
    assert!(matches!(o.effect, Effect::Open(ref s) if s == "cmd.exe"));
    assert!(!app.menu_open && !app.selecting);
    app.menu_open = true;
    let o = app.left_down(960, 600, 400);
    assert!(o.redraw && matches!(o.effect, Effect::Nothing));
    assert!(!app.menu_open && !app.selecting && app.cur().term.grid.selection.is_none());
}

#[test]
fn dragging_selects() {
    let mut app = window(&["a"]);
    let o = app.left_down(960, 8 + 25, 40 + 30);
    assert!(matches!(o.effect, Effect::Capture) && app.selecting);
    assert_eq!(app.cur().term.grid.sel_norm(), Some((1, 2, 1, 2)));
    let o = app.mouse_move(960, 8 + 55, 40 + 70, true);
    assert!(o.redraw);
    assert_eq!(app.cur().term.grid.sel_norm(), Some((1, 2, 3, 5)));
    app.mouse_move(960, 8 + 95, 40 + 70, false);
    assert_eq!(app.cur().term.grid.sel_norm(), Some((1, 2, 3, 5)));
    app.left_up();
    app.mouse_move(960, 8 + 95, 40 + 70, true);
    assert_eq!(app.cur().term.grid.sel_norm(), Some((1, 2, 3, 5)));
}

#[test]
fn every_point_stands_for_a_cell() {
    let mut app = window(&["a"]);
    assert_eq!(app.mouse_cell(-500, -500), (0, 0));
    assert_eq!(app.mouse_cell(8, 40), (0, 0));
    assert_eq!(app.mouse_cell(17, 59), (0, 0));
    assert_eq!(app.mouse_cell(18, 60), (1, 1));
    assert_eq!(app.mouse_cell(i32::MAX, i32::MAX), (9, 39));
    app.pty_data(0, &b"x\r\n".repeat(20));
    assert_eq!(app.mouse_cell(8, 40), (11, 0));
    app.wheel(120);
    assert_eq!(app.mouse_cell(8, 40), (8, 0));
}

#[test]
fn highlights_follow_the_mouse() {
    let mut app = window(&["a", "b"]);
    assert!(app.mouse_move(960, 380, 18, false).redraw);
    assert_eq!(app.hover_close, Some(1));
    assert!(!app.mouse_move(960, 381, 18, false).redraw);
    assert!(app.mouse_leave().redraw && app.hover_close.is_none());
    assert!(!app.mouse_leave().redraw);
    app.menu_open = true;
    assert!(app.mouse_move(960, 410, 75, false).redraw);
    assert_eq!(app.menu_hover, Some(1));
    assert!(app.set_hover(Some(CaptionBtn::Max)));
    assert!(!app.set_hover(Some(CaptionBtn::Max)));
    assert!(app.set_hover(Some(CaptionBtn::Min)));
    assert!(app.set_hover(None));
    assert!(!app.set_hover(None));
}

#[test]
fn wheel_notches() {
    let mut app = window(&["a"]);
    app.pty_data(0, &b"x\r\n".repeat(50));
    let offset = |app: &App| app.cur().term.grid.view_offset;
    app.wheel(119);
    assert_eq!(offset(&app), 0);
    app.wheel(360);
    assert_eq!(offset(&app), 9);
    app.wheel(-239);
    assert_eq!(offset(&app), 6);
    app.wheel(i16::MIN);
    assert_eq!(offset(&app), 0);
    app.wheel(i16::MAX);
    assert_eq!(offset(&app), 41);
}

#[test]
fn message_words_are_signed() {
    assert_eq!(words_of(0x0002_0001), (1, 2));
    assert_eq!(words_of(0xffff_fffe), (-2, -1));
    assert_eq!(words_of(0x8000_7fff), (32767, -32768));
}

#[test]
fn clicks_that_focus() {
    assert!(eats_click(CHROME_H));
    assert!(!eats_click(CHROME_H - 1));
}

#[test]
fn caption_presses() {
    assert_eq!(caption_press(NcHit::MinButton, false), CaptionCmd::Minimize);
    assert_eq!(caption_press(NcHit::MaxButton, false), CaptionCmd::Maximize);
    assert_eq!(caption_press(NcHit::MaxButton, true), CaptionCmd::Restore);
    assert_eq!(caption_press(NcHit::Close, true), CaptionCmd::Close);
    assert_eq!(caption_press(NcHit::Caption, true), CaptionCmd::Default);
}

#[test]
fn cell_metrics() {
    let f = Fonts::new(19, 1, 9);
    assert_eq!(f, Fonts { cw: 9, ch: 24, lead: 2 });
    assert_eq!(Fonts::new(0, 0, 0), Fonts { cw: 1, ch: 5, lead: 2 });
    assert_eq!(f.grid_size(900, 480), (100, 20));
    assert_eq!(f.grid_size(899, 479), (99, 19));
    assert_eq!(f.grid_size(1, -5), (1, 1));
    assert_eq!(Fonts { cw: 1, ch: 5, lead: 2 }.grid_size(65537, 5), (1, 1));
    assert_eq!(term_grid_size(916, 524, &f), (100, 20));
    assert_eq!(term_grid_size(0, 0, &f), (1, 1));
    assert!(f.is_drawable(65535, 65535));
    assert!(!f.is_drawable(238_609_294, 1));
}

#[test]
fn faces() {
    let all = mono_faces("Fira");
    assert_eq!(all, vec!["Fira", "Consolas", "Cascadia Mono", "Lucida Console", "Courier New"]);
    assert_eq!(pick_mono("Fira", &vec![true, true, true, true, true]), "Fira");
    assert_eq!(pick_mono("Fira", &vec![false, false, true, true, false]), "Cascadia Mono");
    assert_eq!(pick_mono("Fira", &vec![false; 5]), "Courier New");
    assert_eq!(face_units("ab"), vec![0x61, 0x62]);
    assert_eq!(face_units(&"x".repeat(40)).len(), 31);
}

fn picture(app: &App, is_max: bool) -> Vec<Op> {
    let labels = app.labels();
    let items = app.shell_labels();
    render_to(960, 600, &app.cur().term, &app.fonts, &app.chrome(&labels, &items, is_max))
}

fn text_of(units: &[u16]) -> String {
    String::from_utf16_lossy(units)
}

#[test]
fn outline_on_top() {
    let mut app = window(&["a"]);
    let ops = picture(&app, false);
    assert!(matches!(
        ops[0],
        Op::Fill { rect: Rect { left: 0, top: 0, right: 960, bottom: 600 }, color: DEFAULT_BG }
    ));
    assert!(matches!(
        ops[ops.len() - 1],
        Op::Frame { rect: Rect { left: 0, top: 0, right: 961, bottom: 601 }, radius: RADIUS, color }
            if color == app.accent
    ));
    app.nc_activate(false);
    let ops = picture(&app, true);
    assert!(matches!(
        ops[ops.len() - 1],
        Op::Frame { radius: 0, color: BORDER_INACTIVE, .. }
    ));
}

#[test]
fn cells_are_drawn_in_runs() {
    let mut app = window(&["a"]);
    app.pty_data(0, b"ab\x1b[1;31mcd\x1b[0m\r\n\x1b[4;7mz");
    app.cur_mut().term.grid.cursor_visible = false;
    let mut app2 = window(&["a"]);
    app2.cur_mut().term.grid.cursor_visible = false;
    let ops = picture(&app, false);
    let mut runs = Vec::new();
    for op in &ops {
        if let Op::Run { x, y, rect, units, fg, bg } = op {
            runs.push((*x, *y, *rect, text_of(units).trim_end().to_string(), units.len(), *fg, *bg));
        }
    }
    assert_eq!(runs.len(), 3 + 2 + 8);
    assert_eq!(runs[0].0, 8);
    assert_eq!(runs[0].1, 42);
    assert_eq!(runs[0].2, Rect { left: 8, top: 40, right: 28, bottom: 60 });
    assert_eq!((runs[0].3.as_str(), runs[0].4), ("ab", 2));
    assert_eq!((runs[1].3.as_str(), runs[1].4), ("cd", 2));
    assert_eq!(runs[1].5, 0x001f_0fc5);
    assert_eq!(runs[2].4, 36);
    assert_eq!((runs[3].3.as_str(), runs[3].5), ("z", DEFAULT_BG));
    let covered: usize = runs.iter().map(|r| r.4).sum();
    assert_eq!(covered, 400);
    let fonts: Vec<FontKind> = ops
        .iter()
        .filter_map(|op| match op {
            Op::Font(f) => Some(*f),
            _ => None,
        })
        .collect();
    assert_eq!(
        fonts,
        vec![FontKind::Ui, FontKind::Glyph, FontKind::Normal, FontKind::Bold, FontKind::Normal]
    );
    let underline = Rect { left: 8, top: 79, right: 18, bottom: 80 };
    assert!(ops.iter().any(|op| matches!(op, Op::Fill { rect, .. } if *rect == underline)));
    assert_eq!(picture(&app2, false).iter().filter(|op| matches!(op, Op::Run { .. })).count(), 10);
}

#[test]
fn the_selection_shows() {
    let mut app = window(&["a"]);
    app.pty_data(0, b"\x1b[7mabc");
    app.cur_mut().term.grid.sel_begin(0, 1);
    let ops = picture(&app, false);
    let selected: Vec<String> = ops
        .iter()
        .filter_map(|op| match op {
            Op::Run { units, fg: SEL_FG, bg: SEL_BG, .. } => Some(text_of(units)),
            _ => None,
        })
        .collect();
    assert_eq!(selected, vec!["b"]);
}

#[test]
fn cursor_shapes() {
    let mut app = window(&["a"]);
    app.pty_data(0, b"\x1b[2;4H");
    let find = |app: &App| {
        picture(app, false)
            .iter()
            .filter_map(|op| match op {
                Op::Invert { rect } => Some(*rect),
                Op::Fill { rect, color } if *color == app.accent && rect.top >= 60 => Some(*rect),
                _ => None,
            })
            .collect::<Vec<Rect>>()
    };
    assert_eq!(find(&app), vec![Rect { left: 38, top: 60, right: 48, bottom: 80 }]);
    app.pty_data(0, b"\x1b[3 q");
    assert_eq!(find(&app), vec![Rect { left: 38, top: 78, right: 48, bottom: 80 }]);
    app.pty_data(0, b"\x1b[5 q");
    assert_eq!(find(&app), vec![Rect { left: 38, top: 60, right: 40, bottom: 80 }]);
    app.pty_data(0, b"\x1b[?25l");
    assert!(find(&app).is_empty());
    app.pty_data(0, b"\x1b[?25h");
    app.pty_data(0, &b"x\r\n".repeat(20));
    app.wheel(120);
    assert!(find(&app).is_empty());
}

#[test]
fn chrome_is_drawn_where_it_answers() {
    let mut app = window(&["powershell.exe", "cmd.exe"]);
    app.hover_close = Some(1);
    app.hover = Some(CaptionBtn::Close);
    let ops = picture(&app, true);
    let fills: Vec<(Rect, u32)> = ops
        .iter()
        .filter_map(|op| match op {
            Op::Fill { rect, color } => Some((*rect, *color)),
            _ => None,
        })
        .collect();
    assert!(fills.contains(&(Rect { left: 368, top: 6, right: 392, bottom: 30 }, HOVER_BG)));
    assert!(fills.contains(&(Rect { left: 914, top: 0, right: 960, bottom: 36 }, CLOSE_HOVER_BG)));
    assert!(fills.contains(&(Rect { left: 0, top: 0, right: 200, bottom: 2 }, app.accent)));
    let texts: Vec<(i32, i32, String)> = ops
        .iter()
        .filter_map(|op| match op {
            Op::Text { x, y, units, .. } => Some((*x, *y, text_of(units))),
            _ => None,
        })
        .collect();
    assert!(texts.contains(&(12, 9, "PowerShell".to_string())));
    assert!(texts.contains(&(212, 9, "Command Prompt".to_string())));
    assert!(texts.contains(&(412, 8, "+".to_string())));
    assert!(texts.contains(&(174, 12, "\u{e711}".to_string())));
    assert!(texts.contains(&(838, 11, "\u{e921}".to_string())));
    assert!(texts.contains(&(884, 11, text_of(&[GLYPH_RESTORE]))));
    assert!(texts.contains(&(930, 11, "\u{e8bb}".to_string())));
}

#[test]
fn dropdown_is_drawn_over_the_cells() {
    let mut app = window(&["a"]);
    assert!(!picture(&app, false).iter().any(
        |op| matches!(op, Op::Text { units, .. } if text_of(units) == "Command Prompt")
    ));
    app.menu_open = true;
    app.menu_hover = Some(1);
    let ops = picture(&app, false);
    let last_run = ops.iter().rposition(|op| matches!(op, Op::Run { .. })).unwrap();
    let item = ops
        .iter()
        .position(|op| matches!(op, Op::Text { units, .. } if text_of(units) == "Command Prompt"))
        .unwrap();
    assert!(item > last_run);
    assert!(matches!(
        ops[item - 1],
        Op::Fill { rect: Rect { left: 204, top: 70, right: 404, bottom: 100 }, color: HOVER_BG }
    ));
    assert!(matches!(ops[item], Op::Text { x: 216, y: 76, .. }));
}

#[test]
fn a_session_starts_clear() {
    let s = Session::new(5, "PWSH", 7, 3, 9);
    assert_eq!((s.id, s.label.as_str()), (5, "PowerShell"));
    assert_eq!((s.term.grid.cols, s.term.grid.rows), (7, 3));
    let t: &Term = &s.term;
    assert!(t.title.is_empty() && t.responses.is_empty());
}
